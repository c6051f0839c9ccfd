//! Painting one building into the grid, with windows whose colours depend on nothing but
//! the building and the window's place in it.

use crate::hash::{absorb, finish};
use crate::layer::{min_of, Building, LayerDesc, LayerSpec};
use crate::palette::{ColorSet, PaletteColor};
use crate::rng::{rng_u32, rng_usize, Generator};
use crate::vec2d::{IndexXY, Vec2D};
use vstd::prelude::*;

verus! {

/// Columns left unpainted at each end of the roof row.
pub const ROOF_GAP_X: usize = 2;

/// Rows that the roof takes.
pub const ROOF_GAP_Y: usize = 1;

/// Width of a window.
pub const WINDOW_X: usize = 2;

/// Height of a window.
pub const WINDOW_Y: usize = 1;

/// Wall rows between the roof and the first windows.
pub const WINDOW_PAD_T: usize = 2;

/// Wall rows below the last windows.
pub const WINDOW_PAD_B: usize = 2;

/// Wall columns to the left of the first window.
pub const WINDOW_PAD_L: usize = 3;

/// Wall columns to the right of the last window.
pub const WINDOW_PAD_R: usize = 4;

/// Wall rows between two windows.
pub const WINDOW_SPC_Y: usize = 1;

/// Wall columns between two windows.
pub const WINDOW_SPC_X: usize = 2;

/// The word that goes into every window's hash before its column and row.
pub const WINDOW_SALT: u32 = 0xdeadbeef;

/// Nothing is painted of a view without area, nor of a building too narrow for its roof
/// corners or for one window with its padding.
pub open spec fn too_small(b: Building, limit_w: usize, limit_h: usize) -> bool {
    ||| limit_w == 0
    ||| limit_h == 0
    ||| b.size_x < ROOF_GAP_X * 2
    ||| b.size_x < WINDOW_PAD_L + WINDOW_PAD_R + WINDOW_X
}

/// The upper half of every window seed of a building: the first 32-bit word that a
/// generator seeded with the building's seed gives.
pub open spec fn seed_fill_of(seed: u64) -> u64 {
    rng_u32(seed).0 as u64
}

/// Hash of a window's place: the salt, then the column, then the row (each cut to 32 bits).
pub open spec fn cell_hash(x: usize, y: usize) -> u32 {
    finish(absorb(absorb(absorb(0, WINDOW_SALT), x as u32), y as u32))
}

/// The seed from which the colour of the window at column `x` and row `y` is drawn.
pub open spec fn cell_seed(fill: u64, x: usize, y: usize) -> u64 {
    (fill << 32) | (cell_hash(x, y) as u64)
}

/// The colour of the window whose left column is `x`, in row `y`.
pub open spec fn cell_color(fill: u64, colors: Seq<PaletteColor>, x: usize, y: usize) -> PaletteColor {
    colors[rng_usize(cell_seed(fill, x, y), 0, (colors.len() - 1) as usize).0 as int]
}

/// Whether row `y` of a building is a row of windows.
pub open spec fn in_window_band(b: Building, y: int) -> bool {
    &&& ROOF_GAP_Y + WINDOW_PAD_T <= y < b.size_y - WINDOW_PAD_B
    &&& (y - (ROOF_GAP_Y + WINDOW_PAD_T)) % ((WINDOW_Y + WINDOW_SPC_Y) as int) < WINDOW_Y
}

/// Whether column `x` of a building lies between the paddings.
pub open spec fn in_window_columns(b: Building, x: int) -> bool {
    WINDOW_PAD_L <= x < b.size_x - WINDOW_PAD_R
}

/// How far column `x` lies to the right of the left column of its window cell.
pub open spec fn window_phase(x: int) -> int {
    (x - WINDOW_PAD_L) % ((WINDOW_X + WINDOW_SPC_X) as int)
}

/// Whether the layer's buildings show windows at all.
pub open spec fn shows_windows(desc: LayerSpec) -> bool {
    desc.draw_windows && desc.window_colors.len() > 0
}

/// Whether the cell at column `x` and row `y` of a building belongs to a window.
pub open spec fn is_window(b: Building, desc: LayerSpec, x: int, y: int) -> bool {
    &&& y >= ROOF_GAP_Y
    &&& shows_windows(desc)
    &&& in_window_band(b, y)
    &&& in_window_columns(b, x)
    &&& window_phase(x) < WINDOW_X
}

/// The colour painted for the cell at column `x` and row `y` of a building whose window
/// seeds have the upper half `fill`; `None` where the cell is left as it was.
///
/// The roof row paints the wall between its two gaps and nothing at the corners. Every cell
/// of a window takes the colour drawn for the window, which goes by the window's left
/// column and its row, whether that column is in view or not. All other cells show the
/// wall colour.
pub open spec fn pixel(b: Building, desc: LayerSpec, fill: u64, x: int, y: int) -> Option<
    PaletteColor,
> {
    if y < ROOF_GAP_Y {
        if ROOF_GAP_X <= x < b.size_x - ROOF_GAP_X {
            Some(b.color)
        } else {
            None
        }
    } else if is_window(b, desc, x, y) {
        Some(cell_color(fill, desc.window_colors, (x - window_phase(x)) as usize, y as usize))
    } else {
        Some(b.color)
    }
}

/// A grid row after the building's row `y` was painted into it: `count` cells from index
/// `cx` on show the building's columns from `first` on.
pub open spec fn painted_row(
    row: Seq<PaletteColor>,
    b: Building,
    desc: LayerSpec,
    fill: u64,
    cx: int,
    first: int,
    count: int,
    y: int,
) -> Seq<PaletteColor> {
    Seq::new(
        row.len(),
        |i: int|
            if cx <= i < cx + count {
                match pixel(b, desc, fill, first + (i - cx), y) {
                    Some(c) => c,
                    None => row[i],
                }
            } else {
                row[i]
            },
    )
}

/// Whether a row or grid holds, after painting, nothing but what it held before, the wall
/// colour of the building and window colours of the layer.
pub open spec fn paints_known_colors(
    after: Seq<PaletteColor>,
    before: Seq<PaletteColor>,
    b: Building,
    desc: LayerSpec,
) -> bool {
    &&& after.len() == before.len()
    &&& forall|i: int|
        0 <= i < after.len() ==> #[trigger] after[i] == before[i] || after[i] == b.color
            || desc.window_colors.contains(after[i])
}

/// Draws the colour of the window whose left column is `x`, in row `y`.
pub fn window_cell_color(seed_fill: u64, colors: &ColorSet, x: usize, y: usize) -> (c: PaletteColor)
    requires
        colors@.len() > 0,
    ensures
        c == cell_color(seed_fill, colors@, x, y),
        colors@.contains(c),
{
    let mut hash = crate::hash::Hash::new();
    hash.inc_seed_u32(WINDOW_SALT);
    hash.inc_seed_u32(#[verifier::truncate] (x as u32));
    hash.inc_seed_u32(#[verifier::truncate] (y as u32));
    let mut rng = Generator::with_seed((seed_fill << 32) | (hash.reset_final() as u64));
    let i: usize = rng.usize(0, colors.len() - 1);
    colors.at(i)
}

/// Paints row `y` of a building into a grid row: `count` cells from index `cx` on show the
/// building's columns from `first` on.
pub fn paint_row(
    r: &mut [PaletteColor],
    b: &Building,
    layer: &LayerDesc,
    seed_fill: u64,
    cx: usize,
    first: usize,
    count: usize,
    y: usize,
)
    requires
        b.size_x >= WINDOW_PAD_L + WINDOW_PAD_R + WINDOW_X,
        b.size_y >= WINDOW_PAD_B,
        cx + count <= old(r)@.len(),
        first + count <= usize::MAX,
    ensures
        final(r)@ == painted_row(
            old(r)@,
            *b,
            layer@,
            seed_fill,
            cx as int,
            first as int,
            count as int,
            y as int,
        ),
        paints_known_colors(final(r)@, old(r)@, *b, layer@),
{
    let wall_color: PaletteColor = b.color;
    let right_gap_x: usize = b.size_x - ROOF_GAP_X;
    let wnd_unit_x: usize = WINDOW_X + WINDOW_SPC_X;
    let wnd_unit_y: usize = WINDOW_Y + WINDOW_SPC_Y;
    let wnd_fst_xy: IndexXY = (WINDOW_PAD_L, ROOF_GAP_Y + WINDOW_PAD_T);
    let wnd_lim_xy: IndexXY = (b.size_x - WINDOW_PAD_R, b.size_y - WINDOW_PAD_B);
    let wnd_colors: &ColorSet = &layer.window_colors;
    let wnd_draw: bool = layer.draw_windows && wnd_colors.len() > 0;
    let end: usize = first + count;
    let len: usize = r.len();

    if y < ROOF_GAP_Y {
        let mut x: usize = first;
        while x < end
            invariant
                first <= x <= end,
                end == first + count,
                cx + count <= len,
                len == r@.len(),
                paints_known_colors(r@, old(r)@, *b, layer@),
                wall_color == b.color,
                right_gap_x == b.size_x - ROOF_GAP_X,
                y < ROOF_GAP_Y,
                r@ == painted_row(
                    old(r)@,
                    *b,
                    layer@,
                    seed_fill,
                    cx as int,
                    first as int,
                    x - first,
                    y as int,
                ),
            decreases end - x,
        {
            if x >= ROOF_GAP_X && x < right_gap_x {
                r[cx + (x - first)] = wall_color;
            }
            x += 1;
            assert(r@ =~= painted_row(
                old(r)@,
                *b,
                layer@,
                seed_fill,
                cx as int,
                first as int,
                x - first,
                y as int,
            ));
        }
    } else if wnd_draw && y >= wnd_fst_xy.1 && y < wnd_lim_xy.1 && (y - wnd_fst_xy.1) % wnd_unit_y
        < WINDOW_Y {
        // A view that begins on the second column of a window still shows the window's colour.
        let mut wnd_clr: PaletteColor = wall_color;
        if first > WINDOW_PAD_L && first < wnd_lim_xy.0 && (first - wnd_fst_xy.0) % wnd_unit_x == 1 {
            wnd_clr = window_cell_color(seed_fill, wnd_colors, first - 1, y);
        }
        let mut x: usize = first;
        while x < end
            invariant
                first <= x <= end,
                end == first + count,
                cx + count <= len,
                len == r@.len(),
                paints_known_colors(r@, old(r)@, *b, layer@),
                wall_color == b.color,
                wnd_unit_x == WINDOW_X + WINDOW_SPC_X,
                wnd_fst_xy.0 == WINDOW_PAD_L,
                wnd_lim_xy.0 == b.size_x - WINDOW_PAD_R,
                *wnd_colors == layer.window_colors,
                y >= ROOF_GAP_Y,
                shows_windows(layer@),
                in_window_band(*b, y as int),
                wnd_clr == b.color || layer@.window_colors.contains(wnd_clr),
                in_window_columns(*b, x as int) && window_phase(x as int) == 1 ==> wnd_clr
                    == cell_color(seed_fill, layer@.window_colors, (x - 1) as usize, y),
                r@ == painted_row(
                    old(r)@,
                    *b,
                    layer@,
                    seed_fill,
                    cx as int,
                    first as int,
                    x - first,
                    y as int,
                ),
            decreases end - x,
        {
            let mut clr: PaletteColor = wall_color;
            if x >= WINDOW_PAD_L && x < wnd_lim_xy.0 {
                let cwnd_pos_x: usize = (x - wnd_fst_xy.0) % wnd_unit_x;
                if cwnd_pos_x == 0 {
                    wnd_clr = window_cell_color(seed_fill, wnd_colors, x, y);
                }
                if cwnd_pos_x < WINDOW_X {
                    clr = wnd_clr;
                }
            }
            assert(pixel(*b, layer@, seed_fill, x as int, y as int) == Some(clr));
            r[cx + (x - first)] = clr;
            x += 1;
            assert(r@ =~= painted_row(
                old(r)@,
                *b,
                layer@,
                seed_fill,
                cx as int,
                first as int,
                x - first,
                y as int,
            ));
        }
    } else {
        let mut x: usize = first;
        while x < end
            invariant
                first <= x <= end,
                end == first + count,
                cx + count <= len,
                len == r@.len(),
                paints_known_colors(r@, old(r)@, *b, layer@),
                wall_color == b.color,
                y >= ROOF_GAP_Y,
                !(shows_windows(layer@) && in_window_band(*b, y as int)),
                r@ == painted_row(
                    old(r)@,
                    *b,
                    layer@,
                    seed_fill,
                    cx as int,
                    first as int,
                    x - first,
                    y as int,
                ),
            decreases end - x,
        {
            r[cx + (x - first)] = wall_color;
            x += 1;
            assert(r@ =~= painted_row(
                old(r)@,
                *b,
                layer@,
                seed_fill,
                cx as int,
                first as int,
                x - first,
                y as int,
            ));
        }
    }
}

/// The grid after the topmost `rows` visible rows of a building were painted: the cell at
/// column `px` and row `py` of the grid shows the building's column `offset.0 + (px - pos.0)`
/// and row `offset.1 + (py - pos.1)` where it lies in the painted rectangle, `count` wide
/// and `rows` high from `pos` on, and is left as it was elsewhere.
pub open spec fn painted_part(
    canvas: Seq<PaletteColor>,
    width: int,
    b: Building,
    desc: LayerSpec,
    pos: IndexXY,
    offset: IndexXY,
    count: int,
    rows: int,
) -> Seq<PaletteColor> {
    Seq::new(
        canvas.len(),
        |i: int|
            {
                let px = i % width;
                let py = i / width;
                if pos.0 <= px < pos.0 + count && pos.1 <= py < pos.1 + rows {
                    match pixel(
                        b,
                        desc,
                        seed_fill_of(b.seed),
                        offset.0 + (px - pos.0),
                        offset.1 + (py - pos.1),
                    ) {
                        Some(c) => c,
                        None => canvas[i],
                    }
                } else {
                    canvas[i]
                }
            },
    )
}

/// The grid after a building was painted into it: nothing changes where the view or the
/// building is too small; otherwise the rectangle at `pos`, as wide and as high as `limits`
/// (and never larger than the building), shows the building from `offset` on.
pub open spec fn painted(
    canvas: Seq<PaletteColor>,
    width: int,
    b: Building,
    desc: LayerSpec,
    pos: IndexXY,
    offset: IndexXY,
    limits: IndexXY,
) -> Seq<PaletteColor> {
    if too_small(b, limits.0, limits.1) {
        canvas
    } else {
        painted_part(
            canvas,
            width,
            b,
            desc,
            pos,
            offset,
            min_of(b.size_x as int, limits.0 as int),
            min_of(b.size_y as int, limits.1 as int),
        )
    }
}

/// In a row-major grid, the cells of row `row` are those whose offset divided by the width
/// gives `row`, and the remainder is the column.
pub proof fn lemma_cell_of_offset(width: int, row: int, i: int)
    requires
        width > 0,
        row >= 0,
        i >= 0,
    ensures
        (row * width <= i < row * width + width) <==> i / width == row,
        i / width == row ==> i % width == i - row * width,
{
    vstd::arithmetic::div_mod::lemma_fundamental_div_mod(i, width);
    vstd::arithmetic::div_mod::lemma_mod_bound(i, width);
    if row * width <= i < row * width + width {
        vstd::arithmetic::div_mod::lemma_fundamental_div_mod_converse(
            i,
            width,
            row,
            i - row * width,
        );
    }
    if i / width == row {
        assert(width * (i / width) == row * width) by (nonlinear_arith)
            requires
                i / width == row,
        ;
    }
}

/// Paints the visible part of a building into the grid.
///
/// `pos_xy` is the grid cell of the top left visible cell, `offset_xy` that cell's column
/// and row in the building, `limits_xy` the width and height of the visible part.
pub fn draw_building(
    canvas: &mut Vec2D<PaletteColor>,
    b: &Building,
    layer: &LayerDesc,
    pos_xy: IndexXY,
    offset_xy: IndexXY,
    limits_xy: IndexXY,
)
    requires
        old(canvas).wf(),
        b.size_y >= WINDOW_PAD_B,
        pos_xy.0 + min_of(b.size_x as int, limits_xy.0 as int) <= old(canvas).width(),
        pos_xy.1 + min_of(b.size_y as int, limits_xy.1 as int) <= old(canvas).height(),
        offset_xy.0 + min_of(b.size_x as int, limits_xy.0 as int) <= usize::MAX,
        offset_xy.1 + min_of(b.size_y as int, limits_xy.1 as int) <= usize::MAX,
    ensures
        final(canvas).wf(),
        final(canvas).width() == old(canvas).width(),
        final(canvas).height() == old(canvas).height(),
        final(canvas)@ == painted(
            old(canvas)@,
            old(canvas).width() as int,
            *b,
            layer@,
            pos_xy,
            offset_xy,
            limits_xy,
        ),
        paints_known_colors(final(canvas)@, old(canvas)@, *b, layer@),
{
    let ((ox, oy), (lw, lh)) = (offset_xy, limits_xy);
    let (cx, cy) = pos_xy;
    let (sw, sh) = (b.size_x, b.size_y);
    let iw: usize = if sw <= lw { sw } else { lw };
    let ih: usize = if sh <= lh { sh } else { lh };
    if lw == 0 || lh == 0 || sw < ROOF_GAP_X * 2 || sw < WINDOW_PAD_L + WINDOW_PAD_R + WINDOW_X {
        return ;
    }
    let mut rng = Generator::with_seed(b.seed);
    let seed_fill: u64 = rng.u32() as u64;
    let ghost width: int = canvas.width() as int;

    let mut k: usize = 0;
    assert(canvas@ =~= painted_part(old(canvas)@, width, *b, layer@, pos_xy, offset_xy, iw as int, 0));
    while k < ih
        invariant
            k <= ih,
            b.size_y >= WINDOW_PAD_B,
            paints_known_colors(canvas@, old(canvas)@, *b, layer@),
            sw == b.size_x,
            sw >= WINDOW_PAD_L + WINDOW_PAD_R + WINDOW_X,
            seed_fill == seed_fill_of(b.seed),
            pos_xy == (cx, cy),
            offset_xy == (ox, oy),
            cx + iw <= width,
            cy + ih <= canvas.height(),
            ox + iw <= usize::MAX,
            oy + ih <= usize::MAX,
            canvas.wf(),
            canvas.width() == width,
            canvas.width() == old(canvas).width(),
            canvas.height() == old(canvas).height(),
            canvas@ == painted_part(
                old(canvas)@,
                width,
                *b,
                layer@,
                pos_xy,
                offset_xy,
                iw as int,
                k as int,
            ),
        decreases ih - k,
    {
        let ghost before = canvas@;
        let r = canvas.get_row_mut(cy + k);
        paint_row(r, b, layer, seed_fill, cx, ox, iw, oy + k);
        proof {
            let after = canvas@;
            let next = painted_part(
                old(canvas)@,
                width,
                *b,
                layer@,
                pos_xy,
                offset_xy,
                iw as int,
                k + 1,
            );
            let row = cy + k;
            crate::vec2d::lemma_row_in_bounds(width, canvas.height() as int, row);
            assert(after.len() == next.len());
            assert forall|i: int| 0 <= i < after.len() implies after[i] == next[i] by {
                lemma_cell_of_offset(width, row, i);
            }
            assert(after =~= next);
        }
        k += 1;
    }
}

/// What `painted` says of one grid cell: inside the painted rectangle the cell at column
/// `px` and row `py` shows the building's cell that lies as far from `offset` as it lies
/// from `pos`; every other cell is left as it was.
pub proof fn lemma_painted_at(
    canvas: Seq<PaletteColor>,
    width: int,
    height: int,
    b: Building,
    desc: LayerSpec,
    pos: IndexXY,
    offset: IndexXY,
    limits: IndexXY,
    px: int,
    py: int,
)
    requires
        canvas.len() == width * height,
        0 <= px < width,
        0 <= py < height,
    ensures
        0 <= py * width + px < canvas.len(),
        painted(canvas, width, b, desc, pos, offset, limits)[py * width + px] == (if !too_small(
            b,
            limits.0,
            limits.1,
        ) && pos.0 <= px < pos.0 + min_of(b.size_x as int, limits.0 as int) && pos.1 <= py < pos.1
            + min_of(b.size_y as int, limits.1 as int) {
            match pixel(
                b,
                desc,
                seed_fill_of(b.seed),
                offset.0 + (px - pos.0),
                offset.1 + (py - pos.1),
            ) {
                Some(c) => c,
                None => canvas[py * width + px],
            }
        } else {
            canvas[py * width + px]
        }),
{
    crate::vec2d::lemma_row_in_bounds(width, height, py);
    lemma_cell_of_offset(width, py, py * width + px);
}

/// The grid offset of the cell that shows the building's column `x` and row `y` in a view.
pub open spec fn shown_at(width: int, pos: IndexXY, offset: IndexXY, x: int, y: int) -> int {
    (pos.1 + (y - offset.1)) * width + (pos.0 + (x - offset.0))
}

/// Whether the building's column `x` and row `y` lie in the rectangle that a view paints,
/// and that rectangle lies in a grid of the given size.
pub open spec fn in_view(
    b: Building,
    width: int,
    height: int,
    pos: IndexXY,
    offset: IndexXY,
    limits: IndexXY,
    x: int,
    y: int,
) -> bool {
    &&& !too_small(b, limits.0, limits.1)
    &&& offset.0 <= x < offset.0 + min_of(b.size_x as int, limits.0 as int)
    &&& offset.1 <= y < offset.1 + min_of(b.size_y as int, limits.1 as int)
    &&& pos.0 + min_of(b.size_x as int, limits.0 as int) <= width
    &&& pos.1 + min_of(b.size_y as int, limits.1 as int) <= height
}

/// A cell of a building shows the same colour in every view of it. Wherever the building
/// stands in the grid, wherever its visible part begins and whatever the grid held, a cell
/// that two views paint gets the same colour in both; a roof corner is left as it was in
/// both.
pub proof fn lemma_views_agree(
    b: Building,
    desc: LayerSpec,
    x: int,
    y: int,
    canvas_a: Seq<PaletteColor>,
    width_a: int,
    height_a: int,
    pos_a: IndexXY,
    offset_a: IndexXY,
    limits_a: IndexXY,
    canvas_b: Seq<PaletteColor>,
    width_b: int,
    height_b: int,
    pos_b: IndexXY,
    offset_b: IndexXY,
    limits_b: IndexXY,
)
    requires
        canvas_a.len() == width_a * height_a,
        canvas_b.len() == width_b * height_b,
        in_view(b, width_a, height_a, pos_a, offset_a, limits_a, x, y),
        in_view(b, width_b, height_b, pos_b, offset_b, limits_b, x, y),
    ensures
        ({
            let at_a = shown_at(width_a, pos_a, offset_a, x, y);
            let at_b = shown_at(width_b, pos_b, offset_b, x, y);
            let after_a = painted(canvas_a, width_a, b, desc, pos_a, offset_a, limits_a);
            let after_b = painted(canvas_b, width_b, b, desc, pos_b, offset_b, limits_b);
            match pixel(b, desc, seed_fill_of(b.seed), x, y) {
                Some(c) => after_a[at_a] == c && after_b[at_b] == c,
                None => after_a[at_a] == canvas_a[at_a] && after_b[at_b] == canvas_b[at_b],
            }
        }),
{
    lemma_painted_at(
        canvas_a,
        width_a,
        height_a,
        b,
        desc,
        pos_a,
        offset_a,
        limits_a,
        pos_a.0 + (x - offset_a.0),
        pos_a.1 + (y - offset_a.1),
    );
    lemma_painted_at(
        canvas_b,
        width_b,
        height_b,
        b,
        desc,
        pos_b,
        offset_b,
        limits_b,
        pos_b.0 + (x - offset_b.0),
        pos_b.1 + (y - offset_b.1),
    );
}

/// Painting the same view of a building a second time changes nothing.
pub proof fn lemma_repaint_changes_nothing(
    canvas: Seq<PaletteColor>,
    width: int,
    b: Building,
    desc: LayerSpec,
    pos: IndexXY,
    offset: IndexXY,
    limits: IndexXY,
)
    ensures
        painted(
            painted(canvas, width, b, desc, pos, offset, limits),
            width,
            b,
            desc,
            pos,
            offset,
            limits,
        ) == painted(canvas, width, b, desc, pos, offset, limits),
{
    let once = painted(canvas, width, b, desc, pos, offset, limits);
    assert(painted(once, width, b, desc, pos, offset, limits) =~= once);
}

} // verus!
