use city::city::{advance_clock, size_fits, City};
use city::draw::{draw_building, paint_row, window_cell_color};
use city::layer::{place_building, Building, LayerDesc, TICK_WRAP};
use city::palette::ColorSet;
use city::rng::Generator;
use city::vec2d::Vec2D;
use fastrand::Rng;
use std::collections::VecDeque;

const BG: usize = 107;

// ---------------------------------------------------------------------------------------
// A plain model of the skyline that asks the generator crate directly and decides spawns in
// floating point. The tests compare the library with it cell by cell.
// ---------------------------------------------------------------------------------------

struct ModelLayer {
    density: f32,
    collision: f32,
    speed: u32,
    wall: Vec<usize>,
    windows_on: bool,
    windows: Vec<usize>,
    ring: VecDeque<Building>,
    rightmost: usize,
}

struct Model {
    rng: Rng,
    width: usize,
    height: usize,
    step: u32,
    tick: u32,
    layers: Vec<ModelLayer>,
    canvas: Vec<Vec<usize>>,
}

fn model_hash(words: &[u32]) -> u32 {
    let mut h: u32 = 0;
    for w in words {
        for b in w.to_le_bytes() {
            h = h.wrapping_add(b as u32);
            h = h.wrapping_add(h << 10);
            h ^= h >> 6;
        }
    }
    h = h.wrapping_add(h << 3);
    h ^= h >> 11;
    h.wrapping_add(h << 15)
}

fn model_window_color(b: &Building, windows: &[usize], x: usize, y: usize) -> usize {
    let fill = Rng::with_seed(b.seed).u32(..) as u64;
    let rng = Rng::with_seed(0);
    rng.seed(fill << 32 | model_hash(&[0xdeadbeef, x as u32, y as u32]) as u64);
    windows[rng.usize(..windows.len())]
}

/// The colour of cell (x, y) of a building, or `None` where the cell is not painted.
fn model_pixel(b: &Building, windows_on: bool, windows: &[usize], x: usize, y: usize) -> Option<usize> {
    if y == 0 {
        return if x >= 2 && x < b.size_x - 2 { Some(b.color) } else { None };
    }
    let window_row = windows_on && !windows.is_empty() && y >= 3 && y < b.size_y - 2 && (y - 3) % 2 == 0;
    if window_row && x >= 3 && x < b.size_x - 4 && (x - 3) % 4 < 2 {
        return Some(model_window_color(b, windows, x - (x - 3) % 4, y));
    }
    Some(b.color)
}

fn model_draw(
    canvas: &mut Vec<Vec<usize>>,
    b: &Building,
    windows_on: bool,
    windows: &[usize],
    pos: (usize, usize),
    offset: (usize, usize),
    limits: (usize, usize),
) {
    if limits.0 == 0 || limits.1 == 0 || b.size_x < 9 {
        return;
    }
    let w = b.size_x.min(limits.0);
    let h = b.size_y.min(limits.1);
    for dy in 0..h {
        for dx in 0..w {
            if let Some(c) = model_pixel(b, windows_on, windows, offset.0 + dx, offset.1 + dy) {
                canvas[pos.1 + dy][pos.0 + dx] = c;
            }
        }
    }
}

impl Model {
    fn new(width: usize, height: usize, step: u32, seed: u64, layers: Vec<ModelLayer>) -> Model {
        Model {
            rng: Rng::with_seed(seed),
            width,
            height,
            step,
            tick: 1,
            layers,
            canvas: vec![vec![BG; width]; height],
        }
    }

    fn resize(&mut self, width: usize, height: usize) {
        self.width = width;
        self.height = height;
        self.canvas = vec![vec![BG; width]; height];
    }

    fn next_tick(&mut self) {
        let (sx, sy) = (self.width, self.height);
        for row in self.canvas.iter_mut() {
            for cell in row.iter_mut() {
                *cell = BG;
            }
        }
        for l in self.layers.iter_mut() {
            let threshold = if l.rightmost > sx { l.collision } else { l.density };
            if self.tick % l.speed == 0 && self.rng.f32() < threshold.powf(2.5) {
                let color_i = if l.wall.len() > 1 { self.rng.usize(..l.wall.len()) } else { 0 };
                let size_x = self.rng.usize(6..=25);
                let size_y = self.rng.usize(10..=sy + 2);
                let seed = self.rng.u64(..);
                l.ring.push_back(Building {
                    size_x,
                    size_y,
                    spawn_tick: self.tick,
                    color: l.wall[color_i],
                    seed,
                });
            }
            let mut rightmost = 0;
            for _ in 0..l.ring.len() {
                let b = l.ring.pop_front().unwrap();
                let now = if b.spawn_tick > self.tick { self.tick + TICK_WRAP } else { self.tick };
                let shift = (now - b.spawn_tick) as i64 * self.step as i64 / l.speed as i64;
                let x = sx as i64 - shift;
                let (offset_x, x) = if x < 0 { ((-x) as usize, 0) } else { (0, x as usize) };
                let (offset_y, y) = if b.size_y > sy { (b.size_y - sy, 0) } else { (0, sy - b.size_y) };
                if offset_x > b.size_x {
                    continue;
                }
                let w = (b.size_x - offset_x).min(sx - x);
                let h = (b.size_y - offset_y).min(sy);
                rightmost = rightmost.max(x + b.size_x + 2);
                model_draw(&mut self.canvas, &b, l.windows_on, &l.windows, (x, y), (offset_x, offset_y), (w, h));
                l.ring.push_back(b);
            }
            l.rightmost = rightmost;
        }
        self.tick += 1;
        if self.tick > TICK_WRAP {
            self.tick = 1;
        }
    }
}

// ---------------------------------------------------------------------------------------
// Helpers
// ---------------------------------------------------------------------------------------

fn colors(list: &[usize]) -> ColorSet {
    let mut set = ColorSet::new();
    for c in list {
        assert!(set.push(*c));
    }
    set
}

fn layer(density: u32, collision: u32, speed: u32, wall: &[usize], windows: Option<&[usize]>) -> LayerDesc {
    LayerDesc {
        density,
        collision,
        speed,
        wall_color: colors(wall),
        draw_windows: windows.is_some(),
        window_colors: colors(windows.unwrap_or(&[])),
    }
}

fn model_layer(d: &LayerDesc) -> ModelLayer {
    let list = |set: &ColorSet| (0..set.len()).map(|i| set.at(i)).collect::<Vec<usize>>();
    ModelLayer {
        density: d.density as f32 / 10000.0,
        collision: d.collision as f32 / 10000.0,
        speed: d.speed,
        wall: list(&d.wall_color),
        windows_on: d.draw_windows,
        windows: list(&d.window_colors),
        ring: VecDeque::new(),
        rightmost: 0,
    }
}

fn stock_layers() -> Vec<LayerDesc> {
    vec![
        layer(7500, 4000, 4, &[47], None),
        layer(6000, 1000, 3, &[100, 101], None),
        layer(4000, 500, 1, &[40], Some(&[40, 107, 101])),
    ]
}

fn snapshot(city: &City) -> Vec<Vec<usize>> {
    city.get_canvas().row_iter().iter().map(|r| r.to_vec()).collect()
}

fn rows_of(grid: &Vec2D<usize>) -> Vec<Vec<usize>> {
    grid.row_iter().iter().map(|r| r.to_vec()).collect()
}

fn buildings(city: &City, layer: usize) -> Vec<Building> {
    city.get_layers()[layer].ring.iter().copied().collect()
}

fn assert_same_as_model(city: &City, model: &Model) {
    assert_eq!(city.get_tick(), model.tick);
    assert_eq!(city.get_size(), (model.width, model.height));
    assert_eq!(snapshot(city), model.canvas);
    let layers = city.get_layers();
    assert_eq!(layers.len(), model.layers.len());
    for (l, m) in layers.iter().zip(model.layers.iter()) {
        assert_eq!(l.ring, m.ring);
        assert_eq!(l.rightmost_building_rcx, m.rightmost);
    }
}

fn plain_building(size_x: usize, size_y: usize) -> Building {
    Building { size_x, size_y, spawn_tick: 1, color: 47, seed: 0x5eed }
}

// ---------------------------------------------------------------------------------------
// Painting one building
// ---------------------------------------------------------------------------------------

#[test]
fn plain_building_has_a_notched_roof() {
    let d = layer(1, 1, 1, &[47], None);
    let b = plain_building(9, 10);
    let mut canvas = Vec2D::new(13, 12, || BG);
    draw_building(&mut canvas, &b, &d, (2, 1), (0, 0), (9, 10));
    let rows = rows_of(&canvas);
    let w = 47;
    assert_eq!(rows[0], vec![BG; 13]);
    assert_eq!(rows[1], vec![BG, BG, BG, BG, w, w, w, w, w, BG, BG, BG, BG]);
    for y in 2..11 {
        assert_eq!(rows[y], vec![BG, BG, w, w, w, w, w, w, w, w, w, BG, BG], "row {}", y);
    }
    assert_eq!(rows[11], vec![BG; 13]);
}

#[test]
fn narrow_buildings_and_empty_views_paint_nothing() {
    let d = layer(1, 1, 1, &[47], None);
    let mut canvas = Vec2D::new(30, 12, || BG);
    for size_x in 6..9 {
        draw_building(&mut canvas, &plain_building(size_x, 10), &d, (0, 0), (0, 0), (size_x, 10));
    }
    draw_building(&mut canvas, &plain_building(12, 10), &d, (0, 0), (0, 0), (0, 10));
    draw_building(&mut canvas, &plain_building(12, 10), &d, (0, 0), (0, 0), (12, 0));
    assert_eq!(rows_of(&canvas), vec![vec![BG; 30]; 12]);
    draw_building(&mut canvas, &plain_building(9, 10), &d, (0, 0), (0, 0), (1, 1));
    assert_eq!(rows_of(&canvas), vec![vec![BG; 30]; 12]);
    draw_building(&mut canvas, &plain_building(9, 10), &d, (0, 0), (0, 0), (3, 1));
    assert_eq!(*canvas.index((2, 0)), 47);
    assert_eq!(*canvas.index((1, 0)), BG);
}

#[test]
fn limits_larger_than_the_building_are_cut_to_it() {
    let d = layer(1, 1, 1, &[47], None);
    let b = plain_building(9, 10);
    let mut canvas = Vec2D::new(20, 20, || BG);
    draw_building(&mut canvas, &b, &d, (0, 0), (0, 0), (15, 18));
    let rows = rows_of(&canvas);
    for y in 1..10 {
        assert_eq!(&rows[y][..9], &[47; 9]);
        assert_eq!(&rows[y][9..], &[BG; 11]);
    }
    for y in 10..20 {
        assert_eq!(rows[y], vec![BG; 20]);
    }
}

#[test]
fn clipped_top_hides_the_roof() {
    let d = layer(1, 1, 1, &[47], None);
    let b = plain_building(9, 12);
    let mut canvas = Vec2D::new(9, 10, || BG);
    draw_building(&mut canvas, &b, &d, (0, 0), (0, 2), (9, 10));
    assert_eq!(rows_of(&canvas), vec![vec![47; 9]; 10]);
}

#[test]
fn windows_sit_on_their_grid() {
    let d = layer(1, 1, 1, &[47], Some(&[201, 202, 203]));
    let b = plain_building(13, 12);
    let mut canvas = Vec2D::new(13, 12, || BG);
    draw_building(&mut canvas, &b, &d, (0, 0), (0, 0), (13, 12));
    let rows = rows_of(&canvas);
    let windows = [201usize, 202, 203];
    for y in 0..12usize {
        for x in 0..13usize {
            let window = y >= 3 && y < 10 && (y - 3) % 2 == 0 && (x == 3 || x == 4 || x == 7 || x == 8);
            let roof_corner = y == 0 && (x < 2 || x >= 11);
            if window {
                let left = if x < 5 { 3 } else { 7 };
                assert_eq!(rows[y][x], model_window_color(&b, &windows, left, y), "cell {} {}", x, y);
                assert!(windows.contains(&rows[y][x]));
            } else if roof_corner {
                assert_eq!(rows[y][x], BG, "cell {} {}", x, y);
            } else {
                assert_eq!(rows[y][x], 47, "cell {} {}", x, y);
            }
        }
    }
}

#[test]
fn window_colors_vary_with_cell_and_seed() {
    let windows = colors(&[1, 2, 3, 4, 5, 6, 7, 8]);
    let mut seen = std::collections::HashSet::new();
    for x in 0..40 {
        for y in 0..40 {
            seen.insert(window_cell_color(99, &windows, x, y));
        }
    }
    assert_eq!(seen.len(), 8);
    let list = [1usize, 2, 3, 4, 5, 6, 7, 8];
    let b = plain_building(20, 20);
    let fill = Rng::with_seed(b.seed).u32(..) as u64;
    for x in 0..20 {
        for y in 0..20 {
            assert_eq!(window_cell_color(fill, &windows, x, y), model_window_color(&b, &list, x, y));
        }
    }
    let one = colors(&[77]);
    assert_eq!(window_cell_color(5, &one, 3, 3), 77);
}

#[test]
fn a_window_keeps_its_color_when_its_left_column_is_hidden() {
    let d = layer(1, 1, 1, &[47], Some(&[201]));
    let b = plain_building(13, 12);
    let mut canvas = Vec2D::new(9, 12, || BG);
    // the view begins at column 4, the right half of the first window
    draw_building(&mut canvas, &b, &d, (0, 0), (4, 0), (9, 12));
    let rows = rows_of(&canvas);
    assert_eq!(rows[3], vec![201, 47, 47, 201, 201, 47, 47, 47, 47]);
    assert_eq!(rows[4], vec![47; 9]);
    // a view of that one column alone
    let mut canvas = Vec2D::new(1, 12, || BG);
    draw_building(&mut canvas, &b, &d, (0, 0), (4, 0), (1, 12));
    let rows = rows_of(&canvas);
    assert_eq!(rows[3], vec![201]);
    assert_eq!(rows[4], vec![47]);
    // from column 3 on the whole window shows
    let mut canvas = Vec2D::new(10, 12, || BG);
    draw_building(&mut canvas, &b, &d, (0, 0), (3, 0), (10, 12));
    let rows = rows_of(&canvas);
    assert_eq!(rows[3], vec![201, 201, 47, 47, 201, 201, 47, 47, 47, 47]);
}

#[test]
fn window_colors_do_not_depend_on_the_view() {
    let d = layer(1, 1, 1, &[47], Some(&[201, 202, 203, 204, 205]));
    let b = Building { size_x: 25, size_y: 22, spawn_tick: 1, color: 47, seed: 0xabcdef };
    let mut whole = Vec2D::new(25, 22, || BG);
    draw_building(&mut whole, &b, &d, (0, 0), (0, 0), (25, 22));
    let whole = rows_of(&whole);
    // drawn twice: nothing changes
    let mut again = Vec2D::new(25, 22, || BG);
    draw_building(&mut again, &b, &d, (0, 0), (0, 0), (25, 22));
    draw_building(&mut again, &b, &d, (0, 0), (0, 0), (25, 22));
    assert_eq!(rows_of(&again), whole);
    let mut views = vec![(0usize, 0usize, 5usize, 3usize), (3, 2, 0, 0), (11, 5, 2, 0)];
    for ox in 0..25 {
        // every first column, among them the second column of every window
        views.push((ox, ox % 5, ox % 3, ox % 2));
    }
    for (ox, oy, px, py) in views {
        let (w, h) = (25 - ox, 22 - oy);
        let mut part = Vec2D::new(px + w, py + h, || BG);
        draw_building(&mut part, &b, &d, (px, py), (ox, oy), (w, h));
        let part = rows_of(&part);
        for y in oy..22 {
            for x in ox..25 {
                let got = part[py + (y - oy)][px + (x - ox)];
                assert_eq!(got, whole[y][x], "view from {} {}: cell {} {}", ox, oy, x, y);
            }
        }
    }
}

#[test]
fn low_building_with_one_window_color() {
    let d = layer(1, 1, 1, &[7], Some(&[5]));
    let b = Building { size_x: 13, size_y: 8, spawn_tick: 1, color: 7, seed: 0 };
    let mut canvas = Vec2D::new(13, 8, || 0usize);
    draw_building(&mut canvas, &b, &d, (0, 0), (0, 0), (13, 8));
    let rows = rows_of(&canvas);
    assert_eq!(rows[0], vec![0, 0, 7, 7, 7, 7, 7, 7, 7, 7, 7, 0, 0]);
    for y in [3usize, 5] {
        assert_eq!(rows[y], vec![7, 7, 7, 5, 5, 7, 7, 5, 5, 7, 7, 7, 7], "row {}", y);
    }
    for y in [1usize, 2, 4, 6, 7] {
        assert_eq!(rows[y], vec![7; 13], "row {}", y);
    }
}

#[test]
fn lowest_building_that_can_be_painted() {
    let d = layer(1, 1, 1, &[7], Some(&[5]));
    let b = Building { size_x: 9, size_y: 2, spawn_tick: 0, color: 7, seed: 0 };
    let mut canvas = Vec2D::new(9, 2, || 0usize);
    draw_building(&mut canvas, &b, &d, (0, 0), (0, 0), (9, 2));
    let rows = rows_of(&canvas);
    assert_eq!(rows[0], vec![0, 0, 7, 7, 7, 7, 7, 0, 0]);
    assert_eq!(rows[1], vec![7; 9]);
}

#[test]
fn painted_cells_hold_wall_or_window_colors() {
    let windows = [201usize, 202, 203];
    let d = layer(1, 1, 1, &[47], Some(&windows));
    let rng = Rng::with_seed(99);
    let mut window_cells = 0;
    for _ in 0..100 {
        let b = Building {
            size_x: rng.usize(9..=25),
            size_y: rng.usize(2..=30),
            spawn_tick: 1,
            color: 47,
            seed: rng.u64(..),
        };
        let mut canvas = Vec2D::new(25, 30, || BG);
        draw_building(&mut canvas, &b, &d, (0, 0), (0, 0), (b.size_x, b.size_y));
        for (y, row) in rows_of(&canvas).iter().enumerate() {
            for (x, c) in row.iter().enumerate() {
                if x < b.size_x && y < b.size_y {
                    let corner = y == 0 && (x < 2 || x >= b.size_x - 2);
                    assert!(if corner { *c == BG } else { *c == 47 || windows.contains(c) });
                    window_cells += windows.contains(c) as usize;
                } else {
                    assert_eq!(*c, BG);
                }
            }
        }
    }
    assert!(window_cells > 1000);
}

#[test]
fn paint_row_paints_only_its_span() {
    let d = layer(1, 1, 1, &[47], Some(&[201]));
    let b = plain_building(13, 12);
    let fill = Rng::with_seed(b.seed).u32(..) as u64;
    let mut row = vec![BG; 16];
    paint_row(&mut row, &b, &d, fill, 2, 0, 13, 0);
    assert_eq!(row, vec![BG, BG, BG, BG, 47, 47, 47, 47, 47, 47, 47, 47, 47, BG, BG, BG]);
    let mut row = vec![BG; 16];
    paint_row(&mut row, &b, &d, fill, 2, 0, 13, 3);
    assert_eq!(row, vec![BG, BG, 47, 47, 47, 201, 201, 47, 47, 201, 201, 47, 47, 47, 47, BG]);
    let mut row = vec![BG; 16];
    paint_row(&mut row, &b, &d, fill, 2, 0, 13, 4);
    assert_eq!(row, vec![BG, BG, 47, 47, 47, 47, 47, 47, 47, 47, 47, 47, 47, 47, 47, BG]);
    let mut row = vec![BG; 16];
    paint_row(&mut row, &b, &d, fill, 5, 6, 4, 9);
    assert_eq!(row, vec![BG, BG, BG, BG, BG, 47, 201, 201, 47, BG, BG, BG, BG, BG, BG, BG]);
    let mut row = vec![BG; 4];
    paint_row(&mut row, &b, &d, fill, 4, 0, 0, 5);
    assert_eq!(row, vec![BG; 4]);
    // from the second column of the second window on
    let mut row = vec![BG; 4];
    paint_row(&mut row, &b, &d, fill, 1, 8, 3, 3);
    assert_eq!(row, vec![BG, 201, 47, 47]);
}

#[test]
fn draw_building_matches_the_model_everywhere() {
    let d = layer(1, 1, 1, &[47], Some(&[201, 202, 203]));
    let windows = [201usize, 202, 203];
    let rng = Rng::with_seed(1234);
    for _ in 0..300 {
        let b = Building {
            size_x: rng.usize(6..=25),
            size_y: rng.usize(10..=30),
            spawn_tick: 1,
            color: 47,
            seed: rng.u64(..),
        };
        let ox = rng.usize(0..=b.size_x);
        let oy = rng.usize(0..b.size_y);
        let w = rng.usize(0..=b.size_x - ox);
        let h = rng.usize(0..=b.size_y - oy);
        let (px, py) = (rng.usize(0..5), rng.usize(0..5));
        let mut canvas = Vec2D::new(40, 40, || BG);
        let mut model = vec![vec![BG; 40]; 40];
        draw_building(&mut canvas, &b, &d, (px, py), (ox, oy), (w, h));
        model_draw(&mut model, &b, true, &windows, (px, py), (ox, oy), (w, h));
        assert_eq!(rows_of(&canvas), model);
    }
}

// ---------------------------------------------------------------------------------------
// The city
// ---------------------------------------------------------------------------------------

#[test]
fn viewport_sizes() {
    assert!(size_fits(40, 20));
    assert!(size_fits(150, 40));
    assert!(size_fits(0, 8));
    assert!(!size_fits(40, 7));
    assert!(!size_fits(40, 0));
    assert!(!size_fits(usize::MAX, 8));
    assert!(!size_fits(usize::MAX - 26, 8));
    assert!(!size_fits(usize::MAX / 2, 8));
    assert!(!size_fits(8, usize::MAX));
    assert!(!size_fits(8, usize::MAX - 1));
    assert!(size_fits(usize::MAX / 8 - 27, 8));
}

#[test]
fn new_city_is_empty_at_tick_one() {
    let layers = stock_layers();
    let city = City::new(40, 20, 1, Generator::with_seed(3), BG, &layers);
    assert_eq!(city.get_tick(), 1);
    assert_eq!(city.get_size(), (40, 20));
    assert_eq!(snapshot(&city), vec![vec![BG; 40]; 20]);
    assert_eq!(city.get_layers().len(), 3);
    for l in city.get_layers() {
        assert!(l.ring.is_empty());
        assert_eq!(l.rightmost_building_rcx, 0);
    }
}

#[test]
fn city_without_layers_only_counts() {
    let layers: Vec<LayerDesc> = Vec::new();
    let mut city = City::new(10, 8, 1, Generator::with_seed(3), 5, &layers);
    for n in 1..100 {
        assert_eq!(city.get_tick(), n);
        city.next_tick();
        assert_eq!(snapshot(&city), vec![vec![5; 10]; 8]);
    }
}

#[test]
fn clock_wraps_to_one() {
    assert_eq!(advance_clock(1), 2);
    assert_eq!(advance_clock(2), 3);
    assert_eq!(advance_clock(TICK_WRAP - 1), TICK_WRAP);
    assert_eq!(advance_clock(TICK_WRAP), 1);
    assert_eq!(advance_clock(u32::MAX), 1);
}

#[test]
fn tick_counts_up_by_one() {
    let layers = stock_layers();
    let mut city = City::new(60, 24, 1, Generator::with_seed(8), BG, &layers);
    for n in 1..=500u32 {
        assert_eq!(city.get_tick(), n);
        city.next_tick();
        assert!(city.get_tick() >= 1 && city.get_tick() <= TICK_WRAP);
    }
}

#[test]
fn same_seed_same_skyline() {
    let layers = stock_layers();
    let mut a = City::new(80, 30, 2, Generator::with_seed(20240229), BG, &layers);
    let other = stock_layers();
    let mut b = City::new(80, 30, 2, Generator::with_seed(20240229), BG, &other);
    let mut c = City::new(80, 30, 2, Generator::with_seed(20240230), BG, &layers);
    let mut differs = false;
    for _ in 0..600 {
        a.next_tick();
        b.next_tick();
        c.next_tick();
        assert_eq!(snapshot(&a), snapshot(&b));
        differs |= snapshot(&a) != snapshot(&c);
    }
    assert!(differs);
    assert!(snapshot(&a).iter().any(|row| row.iter().any(|c| *c != BG)));
}

#[test]
fn city_follows_the_model_tick_by_tick() {
    for (seed, step) in [(1u64, 1u32), (42, 1), (7, 2), (123456789, 3)] {
        let layers = stock_layers();
        let mut city = City::new(60, 24, step, Generator::with_seed(seed), BG, &layers);
        let mut model = Model::new(60, 24, step, seed, layers.iter().map(model_layer).collect());
        for _ in 0..1500 {
            city.next_tick();
            model.next_tick();
            assert_same_as_model(&city, &model);
        }
        assert!(model.layers.iter().all(|l| !l.ring.is_empty()));
    }
}

#[test]
fn many_wall_colors_and_extreme_thresholds_follow_the_model() {
    let layers = vec![
        layer(10000, 10000, 1, &[1, 2, 3, 4, 5], Some(&[6, 7, 8, 9])),
        layer(10000, 0, 2, &[11], Some(&[])),
        layer(0, 10000, 1, &[12], None),
    ];
    let mut city = City::new(50, 12, 1, Generator::with_seed(77), BG, &layers);
    let mut model = Model::new(50, 12, 1, 77, layers.iter().map(model_layer).collect());
    for _ in 0..400 {
        city.next_tick();
        model.next_tick();
        assert_same_as_model(&city, &model);
    }
    // the first layer spawned on every tick, the last one never
    assert!(buildings(&city, 0).len() > 40);
    assert!(buildings(&city, 2).is_empty());
}

#[test]
fn single_building_enters_crosses_and_leaves() {
    let layers = vec![layer(10000, 0, 1, &[47], None)];
    let seed = 4242;
    let mut city = City::new(40, 20, 1, Generator::with_seed(seed), BG, &layers);

    // what the first spawn must draw
    let rng = Rng::with_seed(seed);
    assert!(rng.f32() < 1.0);
    let first = Building {
        size_x: rng.usize(6..=25),
        size_y: rng.usize(10..=22),
        spawn_tick: 1,
        color: 47,
        seed: rng.u64(..),
    };
    assert!((6..=25).contains(&first.size_x));
    assert!((10..=22).contains(&first.size_y));

    city.next_tick();
    assert_eq!(buildings(&city, 0), vec![first]);
    // spawned at the right edge: nothing of it shows yet, but it blocks the edge
    assert_eq!(snapshot(&city), vec![vec![BG; 40]; 20]);
    assert_eq!(city.get_layers()[0].rightmost_building_rcx, 40 + first.size_x + 2);

    // while it is the only building, the grid shows it and nothing else
    let free_at = first.size_x + 2;
    for moved in 1..=free_at {
        city.next_tick();
        assert_eq!(buildings(&city, 0), vec![first]);
        let mut expect = vec![vec![BG; 40]; 20];
        let p = place_building(&first, 1 + moved as u32, 1, 1, 40, 20).unwrap();
        assert_eq!(p.x, 40 - moved);
        assert_eq!(p.w, moved.min(first.size_x));
        model_draw(&mut expect, &first, false, &[], (p.x, p.y), (p.offset_x, p.offset_y), (p.w, p.h));
        assert_eq!(snapshot(&city), expect);
    }

    // it stays in the buffer until more columns than it has are hidden on the left
    for moved in free_at + 1..=40 + first.size_x {
        city.next_tick();
        assert_eq!(buildings(&city, 0)[0], first, "after {} columns", moved);
    }
    for _ in 0..200 {
        city.next_tick();
        assert!(!buildings(&city, 0).contains(&first));
        assert!(buildings(&city, 0).iter().all(|b| b.spawn_tick > 1));
    }
}

#[test]
fn lone_building_paints_its_rectangle() {
    // density one, then never again: the threshold falls to zero once a building blocks
    // the edge, and a speed of 1000 gates all later spawns within this test
    let layers = vec![layer(10000, 0, 1000, &[47], None)];
    let seed = (0..10_000u64)
        .find(|s| {
            let r = Rng::with_seed(*s);
            r.u32(..);
            r.usize(6..=25) >= 9
        })
        .unwrap();
    let mut city = City::new(40, 20, 1000, Generator::with_seed(seed), BG, &layers);
    for _ in 0..999 {
        city.next_tick();
        assert!(buildings(&city, 0).is_empty());
        assert_eq!(snapshot(&city), vec![vec![BG; 40]; 20]);
    }
    city.next_tick();
    let b = buildings(&city, 0)[0];
    assert_eq!(b.spawn_tick, 1000);
    assert!(b.size_x >= 9);
    for moved in 1..=40 + b.size_x {
        city.next_tick();
        assert_eq!(buildings(&city, 0), vec![b]);
        let shot = snapshot(&city);
        let painted: usize = shot.iter().map(|r| r.iter().filter(|c| **c == 47).count()).sum();
        let visible_w = if moved <= 40 { moved.min(b.size_x) } else { b.size_x - (moved - 40) };
        let visible_h = b.size_y.min(20);
        let roof_visible = b.size_y <= 20;
        let mut expect = visible_w * visible_h;
        if roof_visible {
            // the two corner columns at each end of the roof stay unpainted
            let first_col = if moved <= 40 { 0 } else { moved - 40 };
            for x in first_col..first_col + visible_w {
                if x < 2 || x >= b.size_x - 2 {
                    expect -= 1;
                }
            }
        }
        assert_eq!(painted, expect, "after {} columns", moved);
    }
    city.next_tick();
    assert!(buildings(&city, 0).is_empty());
    assert_eq!(snapshot(&city), vec![vec![BG; 40]; 20]);
    assert_eq!(city.get_layers()[0].rightmost_building_rcx, 0);
}

#[test]
fn buffer_grows_only_by_spawning() {
    let layers = stock_layers();
    let mut city = City::new(60, 24, 1, Generator::with_seed(9), BG, &layers);
    let mut before: Vec<Vec<Building>> = (0..3).map(|i| buildings(&city, i)).collect();
    let mut evicted = 0;
    for _ in 0..2000 {
        let tick = city.get_tick();
        city.next_tick();
        for i in 0..3 {
            let now = buildings(&city, i);
            let old: Vec<Building> = now.iter().copied().filter(|b| b.spawn_tick != tick).collect();
            let new = now.len() - old.len();
            assert!(new <= 1);
            if new == 1 {
                assert_eq!(now.last().unwrap().spawn_tick, tick);
            }
            // what was there before and is still alive stays, in order; the rest is gone
            let alive: Vec<Building> = before[i]
                .iter()
                .copied()
                .filter(|b| place_building(b, tick, 1, layers[i].speed, 60, 24).is_some())
                .collect();
            assert_eq!(old, alive);
            evicted += before[i].len() - alive.len();
            before[i] = now;
        }
    }
    assert!(evicted > 10);
}

#[test]
fn resize_keeps_buildings_and_clips_them() {
    let layers = stock_layers();
    let seed = 31;
    let mut city = City::new(80, 30, 1, Generator::with_seed(seed), BG, &layers);
    let mut model = Model::new(80, 30, 1, seed, layers.iter().map(model_layer).collect());
    for _ in 0..400 {
        city.next_tick();
        model.next_tick();
    }
    assert_same_as_model(&city, &model);
    let before: Vec<Vec<Building>> = (0..3).map(|i| buildings(&city, i)).collect();
    let tick = city.get_tick();
    assert!(before.iter().all(|l| !l.is_empty()));

    city.set_wh(50, 12);
    model.resize(50, 12);
    assert_eq!(city.get_size(), (50, 12));
    assert_eq!(city.get_tick(), tick);
    assert_eq!(snapshot(&city), vec![vec![BG; 50]; 12]);
    for i in 0..3 {
        assert_eq!(buildings(&city, i), before[i]);
    }

    city.next_tick();
    model.next_tick();
    assert_same_as_model(&city, &model);
    let shot = snapshot(&city);
    assert_eq!(shot.len(), 12);
    assert!(shot.iter().all(|r| r.len() == 50));
    for i in 0..3 {
        // nothing but the seed, the spawn tick and the sizes the buildings had
        for b in buildings(&city, i) {
            assert!(b.spawn_tick == tick || before[i].contains(&b));
        }
    }
    for _ in 0..300 {
        city.next_tick();
        model.next_tick();
        assert_same_as_model(&city, &model);
    }
    city.set_wh(120, 40);
    model.resize(120, 40);
    for _ in 0..300 {
        city.next_tick();
        model.next_tick();
        assert_same_as_model(&city, &model);
    }
}

#[test]
fn resize_to_a_tiny_viewport_and_back() {
    let layers = stock_layers();
    let mut city = City::new(60, 24, 1, Generator::with_seed(12), BG, &layers);
    for _ in 0..300 {
        city.next_tick();
    }
    let before: Vec<Vec<Building>> = (0..3).map(|i| buildings(&city, i)).collect();
    let reach: Vec<usize> = city.get_layers().iter().map(|l| l.rightmost_building_rcx).collect();
    let tick = city.get_tick();
    for (w, h) in [(3usize, 2usize), (0, 0), (1, 100), (200, 1)] {
        assert!(!size_fits(w, h) || h >= 8);
        city.set_wh(w, h);
        assert_eq!(city.get_size(), (w, h));
        assert_eq!(snapshot(&city), vec![vec![BG; w]; h]);
        assert_eq!(city.get_tick(), tick);
        for i in 0..3 {
            assert_eq!(buildings(&city, i), before[i]);
            assert_eq!(city.get_layers()[i].rightmost_building_rcx, reach[i]);
        }
    }
    city.set_wh(20, 8);
    assert!(size_fits(20, 8));
    for _ in 0..200 {
        city.next_tick();
        let shot = snapshot(&city);
        assert_eq!(shot.len(), 8);
        assert!(shot.iter().all(|r| r.len() == 20));
    }
}

#[test]
fn cells_that_no_building_covers_show_the_background() {
    let layers = stock_layers();
    let mut city = City::new(60, 24, 1, Generator::with_seed(21), BG, &layers);
    let mut free = 0;
    for n in 0..600 {
        if n == 300 {
            city.set_wh(40, 12);
        }
        let tick = city.get_tick();
        let (w, h) = city.get_size();
        city.next_tick();
        let shot = snapshot(&city);
        let mut covered = vec![vec![false; w]; h];
        for (i, l) in layers.iter().enumerate() {
            for b in buildings(&city, i) {
                let p = place_building(&b, tick, 1, l.speed, w, h).unwrap();
                assert!(p.x + p.w <= w && p.y + p.h <= h);
                for y in p.y..p.y + p.h {
                    for x in p.x..p.x + p.w {
                        covered[y][x] = true;
                    }
                }
            }
        }
        for y in 0..h {
            for x in 0..w {
                if !covered[y][x] {
                    assert_eq!(shot[y][x], BG);
                    free += 1;
                }
            }
        }
    }
    assert!(free > 10_000);
}
