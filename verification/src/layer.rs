//! Depth layers: their static description, their live buildings and the spawn rule.

use crate::palette::{ColorSet, PaletteColor};
use crate::rng::{rng_u32, rng_u64_any, rng_usize, Generator};
use std::collections::VecDeque;
use vstd::arithmetic::power::pow;
use vstd::prelude::*;

verus! {

/// The simulation clock.
pub type Tick = u32;

/// The largest value the clock takes; the tick after it is 1.
pub const TICK_WRAP: Tick = 1073741823;

/// One whole, for `LayerDesc::density` and `LayerDesc::collision`: they count ten-thousandths.
pub const PROBABILITY_ONE: u32 = 10000;

/// The spawn threshold is raised to the power `PROBABILITY_CURVE_NUM / PROBABILITY_CURVE_DEN`.
pub const PROBABILITY_CURVE_NUM: u32 = 5;

/// See `PROBABILITY_CURVE_NUM`.
pub const PROBABILITY_CURVE_DEN: u32 = 2;

/// A uniform draw has this many bits: it counts steps of `1 / DRAW_RANGE` in `[0, 1)`.
pub const DRAW_BITS: u32 = 23;

/// Number of values a uniform draw can take.
pub const DRAW_RANGE: u32 = 8388608;

/// Free columns kept to the right of a building.
pub const COLLISION_GAP: usize = 2;

/// Narrowest building.
pub const BUILDING_MIN_W: usize = 6;

/// Widest building.
pub const BUILDING_MAX_W: usize = 25;

/// Lowest building.
pub const BUILDING_MIN_H: usize = 10;

/// The tallest building is this much higher than the viewport.
pub const BUILDING_OVER_H: usize = 2;

/// Static description of one depth layer.
#[derive(Debug)]
pub struct LayerDesc {
    /// Spawn threshold while the layer's right edge is clear, in ten-thousandths.
    pub density: u32,
    /// Spawn threshold while a building still reaches past the right edge, in ten-thousandths.
    pub collision: u32,
    /// Ticks it takes the layer to move by one step: 1 is fastest.
    pub speed: Tick,
    /// Wall colours; each building picks one.
    pub wall_color: ColorSet,
    /// Whether buildings of this layer show windows.
    pub draw_windows: bool,
    /// Window colours; each window picks one.
    pub window_colors: ColorSet,
}

/// What a layer description says, as plain values.
pub struct LayerSpec {
    pub density: u32,
    pub collision: u32,
    pub speed: Tick,
    pub wall_color: Seq<PaletteColor>,
    pub draw_windows: bool,
    pub window_colors: Seq<PaletteColor>,
}

impl LayerSpec {
    /// Thresholds are at most one whole, the layer moves, and there is a wall colour.
    pub open spec fn wf(self) -> bool {
        &&& self.density <= PROBABILITY_ONE
        &&& self.collision <= PROBABILITY_ONE
        &&& self.speed >= 1
        &&& self.wall_color.len() >= 1
    }
}

impl View for LayerDesc {
    type V = LayerSpec;

    open spec fn view(&self) -> LayerSpec {
        LayerSpec {
            density: self.density,
            collision: self.collision,
            speed: self.speed,
            wall_color: self.wall_color@,
            draw_windows: self.draw_windows,
            window_colors: self.window_colors@,
        }
    }
}

impl LayerDesc {
    /// Whether the description is one a city can work with.
    pub fn is_valid(&self) -> (ok: bool)
        ensures
            ok == self@.wf(),
    {
        self.density <= PROBABILITY_ONE && self.collision <= PROBABILITY_ONE && self.speed >= 1
            && self.wall_color.len() >= 1
    }
}

/// A building, fixed once spawned.
#[derive(Debug, Clone, Copy, PartialEq, Eq, Structural)]
pub struct Building {
    /// Width in columns.
    pub size_x: usize,
    /// Height in rows.
    pub size_y: usize,
    /// The tick at which it spawned.
    pub spawn_tick: Tick,
    /// Wall colour.
    pub color: PaletteColor,
    /// Seed of its window pattern.
    pub seed: u64,
}

impl Building {
    /// The sizes lie in the range that spawning draws from, whatever the viewport's height,
    /// and the spawn tick is a value that the clock takes.
    pub open spec fn wf(self) -> bool {
        &&& BUILDING_MIN_W <= self.size_x <= BUILDING_MAX_W
        &&& BUILDING_MIN_H <= self.size_y
        &&& 1 <= self.spawn_tick <= TICK_WRAP
    }
}

/// The live state of one depth layer.
#[derive(Debug)]
pub struct Layer {
    /// Live buildings, oldest first.
    pub ring: VecDeque<Building>,
    /// One past the rightmost column that the buildings placed last tick, gap included, reach.
    pub rightmost_building_rcx: usize,
}

/// The live state of a layer, as plain values.
pub struct LayerState {
    pub buildings: Seq<Building>,
    pub rightmost: usize,
}

impl View for Layer {
    type V = LayerState;

    open spec fn view(&self) -> LayerState {
        LayerState { buildings: self.ring@, rightmost: self.rightmost_building_rcx }
    }
}

impl Layer {
    /// A layer without buildings.
    pub fn new() -> (layer: Layer)
        ensures
            layer@.buildings == Seq::<Building>::empty(),
            layer@.rightmost == 0,
    {
        Layer { ring: VecDeque::new(), rightmost_building_rcx: 0 }
    }
}

/// The threshold in force: `collision` while a building reaches past the right edge,
/// `density` otherwise.
pub open spec fn threshold_of(desc: LayerSpec, rightmost: usize, width: usize) -> u32 {
    if rightmost > width {
        desc.collision
    } else {
        desc.density
    }
}

/// Whether the uniform draw `draw / DRAW_RANGE` lies below `threshold / PROBABILITY_ONE`
/// raised to the power `PROBABILITY_CURVE_NUM / PROBABILITY_CURVE_DEN`. Both sides are
/// raised to the power `PROBABILITY_CURVE_DEN` and cleared of fractions, which keeps the
/// comparison in whole numbers.
pub open spec fn draw_passes(draw: u32, threshold: u32) -> bool {
    pow(draw as int, PROBABILITY_CURVE_DEN as nat) * pow(
        PROBABILITY_ONE as int,
        PROBABILITY_CURVE_NUM as nat,
    ) < pow(threshold as int, PROBABILITY_CURVE_NUM as nat) * pow(
        DRAW_RANGE as int,
        PROBABILITY_CURVE_DEN as nat,
    )
}

/// Second and fifth powers, written out.
pub proof fn lemma_curve_powers(x: int)
    ensures
        pow(x, PROBABILITY_CURVE_DEN as nat) == x * x,
        pow(x, PROBABILITY_CURVE_NUM as nat) == x * x * x * x * x,
{
    reveal_with_fuel(pow, 6);
    assert(x * (x * 1) == x * x);
    assert(x * (x * (x * (x * (x * 1)))) == x * x * x * x * x) by (nonlinear_arith);
}

/// The uniform draw that a 32-bit word of the generator stands for: its top `DRAW_BITS` bits.
pub open spec fn unit_draw_of(word: u32) -> u32 {
    word >> (32 - DRAW_BITS) as u32
}

/// The threshold in force for a layer, given how far its buildings reached last tick.
pub fn spawn_threshold(desc: &LayerDesc, rightmost: usize, width: usize) -> (t: u32)
    ensures
        t == threshold_of(desc@, rightmost, width),
{
    if rightmost > width {
        desc.collision
    } else {
        desc.density
    }
}

/// Turns a 32-bit word of the generator into a uniform draw.
pub fn unit_draw(word: u32) -> (draw: u32)
    ensures
        draw == unit_draw_of(word),
        draw < DRAW_RANGE,
{
    assert(word >> ((32 - DRAW_BITS) as u32) < DRAW_RANGE) by (bit_vector);
    word >> (32 - DRAW_BITS)
}

/// Decides whether a uniform draw passes a threshold.
pub fn passes_threshold(draw: u32, threshold: u32) -> (pass: bool)
    requires
        draw < DRAW_RANGE,
        threshold <= PROBABILITY_ONE,
    ensures
        pass == draw_passes(draw, threshold),
{
    let d: u128 = draw as u128;
    let t: u128 = threshold as u128;
    let one: u128 = PROBABILITY_ONE as u128;
    let range: u128 = DRAW_RANGE as u128;
    assert(d * d <= 8388608 * 8388608) by (nonlinear_arith)
        requires
            0 <= d <= 8388608,
    ;
    let d2: u128 = d * d;
    let one5: u128 = one * one * one * one * one;
    assert(t * t <= 10000 * 10000) by (nonlinear_arith)
        requires
            0 <= t <= 10000,
    ;
    let t2: u128 = t * t;
    assert(t2 * t2 <= 100000000 * 100000000) by (nonlinear_arith)
        requires
            0 <= t2 <= 100000000,
    ;
    let t4: u128 = t2 * t2;
    assert(t4 * t <= 10000000000000000 * 10000) by (nonlinear_arith)
        requires
            0 <= t4 <= 10000000000000000,
            0 <= t <= 10000,
    ;
    let t5: u128 = t4 * t;
    assert(t5 == t * t * t * t * t) by (nonlinear_arith)
        requires
            t5 == t4 * t,
            t4 == t2 * t2,
            t2 == t * t,
    ;
    assert(d2 * one5 <= 70368744177664 * 100000000000000000000) by (nonlinear_arith)
        requires
            0 <= d2 <= 70368744177664,
            one5 == 100000000000000000000,
    ;
    assert(t5 * (range * range) <= 100000000000000000000 * 70368744177664) by (nonlinear_arith)
        requires
            0 <= t5 <= 100000000000000000000,
            range * range == 70368744177664,
    ;
    proof {
        lemma_curve_powers(d as int);
        lemma_curve_powers(t as int);
        lemma_curve_powers(one as int);
        lemma_curve_powers(range as int);
    }
    d2 * one5 < t5 * (range * range)
}

/// The building that a spawn makes from what the generator gave: the index of its wall
/// colour, its two sizes and its seed.
pub open spec fn building_of(
    desc: LayerSpec,
    tick: Tick,
    color_index: usize,
    size_x: usize,
    size_y: usize,
    seed: u64,
) -> Building {
    Building { size_x, size_y, spawn_tick: tick, color: desc.wall_color[color_index as int], seed }
}

/// The generator's word after the wall colour of a new building was chosen, and the index
/// chosen. A single colour takes no draw.
pub open spec fn wall_choice(state: u64, desc: LayerSpec) -> (usize, u64) {
    if desc.wall_color.len() > 1 {
        rng_usize(state, 0, (desc.wall_color.len() - 1) as usize)
    } else {
        (0, state)
    }
}

/// The spawn step of one layer: the building it appends, if any, and the generator's word
/// after it.
///
/// Nothing is drawn on a tick that the layer's speed does not divide. Otherwise one word is
/// drawn and tested against the threshold in force; if it passes, the wall colour, the width
/// (`BUILDING_MIN_W..=BUILDING_MAX_W`), the height (`BUILDING_MIN_H..=height + BUILDING_OVER_H`)
/// and the seed are drawn, in this order.
pub open spec fn spawn_step(
    state: u64,
    desc: LayerSpec,
    tick: Tick,
    rightmost: usize,
    width: usize,
    height: usize,
) -> (Option<Building>, u64) {
    if tick % desc.speed != 0 {
        (None, state)
    } else {
        let (word, s1) = rng_u32(state);
        if !draw_passes(unit_draw_of(word), threshold_of(desc, rightmost, width)) {
            (None, s1)
        } else {
            let (color_index, s2) = wall_choice(s1, desc);
            let (size_x, s3) = rng_usize(s2, BUILDING_MIN_W, BUILDING_MAX_W);
            let (size_y, s4) = rng_usize(s3, BUILDING_MIN_H, (height + BUILDING_OVER_H) as usize);
            let (seed, s5) = rng_u64_any(s4);
            (Some(building_of(desc, tick, color_index, size_x, size_y, seed)), s5)
        }
    }
}

/// What holds of every building that a layer spawns on `tick` under a viewport `height`
/// high: it carries the tick, its sizes lie in the ranges they are drawn from, and its wall
/// colour is one of the layer's.
pub open spec fn fresh_building(b: Building, desc: LayerSpec, tick: Tick, height: usize) -> bool {
    &&& b.spawn_tick == tick
    &&& BUILDING_MIN_W <= b.size_x <= BUILDING_MAX_W
    &&& BUILDING_MIN_H <= b.size_y <= height + BUILDING_OVER_H
    &&& desc.wall_color.contains(b.color)
}

/// Whether a layer may spawn on `tick` with the uniform draw `draw`.
pub fn spawn_decision(desc: &LayerDesc, tick: Tick, rightmost: usize, width: usize, draw: u32) -> (spawn:
    bool)
    requires
        desc@.wf(),
        draw < DRAW_RANGE,
    ensures
        spawn == (tick % desc.speed == 0 && draw_passes(
            draw,
            threshold_of(desc@, rightmost, width),
        )),
{
    tick % desc.speed == 0 && passes_threshold(draw, spawn_threshold(desc, rightmost, width))
}

/// Makes the building of a spawn from the values drawn for it.
pub fn make_building(
    desc: &LayerDesc,
    tick: Tick,
    color_index: usize,
    size_x: usize,
    size_y: usize,
    seed: u64,
) -> (b: Building)
    requires
        color_index < desc@.wall_color.len(),
    ensures
        b == building_of(desc@, tick, color_index, size_x, size_y, seed),
{
    Building { size_x, size_y, spawn_tick: tick, color: desc.wall_color.at(color_index), seed }
}

/// Runs the spawn step of one layer on the generator.
pub fn try_spawn(
    rng: &mut Generator,
    desc: &LayerDesc,
    tick: Tick,
    rightmost: usize,
    width: usize,
    height: usize,
) -> (spawned: Option<Building>)
    requires
        desc@.wf(),
        1 <= tick <= TICK_WRAP,
        BUILDING_MIN_H <= height + BUILDING_OVER_H <= usize::MAX,
    ensures
        spawned == spawn_step(old(rng).state, desc@, tick, rightmost, width, height).0,
        final(rng).state == spawn_step(old(rng).state, desc@, tick, rightmost, width, height).1,
        spawned matches Some(b) ==> b.wf() && fresh_building(b, desc@, tick, height),
{
    if tick % desc.speed != 0 {
        return None;
    }
    let word: u32 = rng.u32();
    if !spawn_decision(desc, tick, rightmost, width, unit_draw(word)) {
        return None;
    }
    let colors_len: usize = desc.wall_color.len();
    let color_index: usize = if colors_len > 1 {
        rng.usize(0, colors_len - 1)
    } else {
        0
    };
    let size_x: usize = rng.usize(BUILDING_MIN_W, BUILDING_MAX_W);
    let size_y: usize = rng.usize(BUILDING_MIN_H, height + BUILDING_OVER_H);
    let seed: u64 = rng.u64();
    assert(desc@.wall_color.contains(desc@.wall_color[color_index as int]));
    Some(make_building(desc, tick, color_index, size_x, size_y, seed))
}

/// Where a building stands in the viewport on some tick, and which part of it shows.
#[derive(Debug, Clone, Copy, PartialEq, Eq, Structural)]
pub struct Placement {
    /// Viewport column of the leftmost visible column.
    pub x: usize,
    /// Viewport row of the topmost visible row.
    pub y: usize,
    /// Columns of the building hidden beyond the left edge.
    pub offset_x: usize,
    /// Rows of the building hidden above the top edge.
    pub offset_y: usize,
    /// Visible width.
    pub w: usize,
    /// Visible height.
    pub h: usize,
}

/// Ticks since a building spawned, counted through at most one wrap of the clock.
pub open spec fn elapsed_ticks(tick: Tick, spawn_tick: Tick) -> int {
    if spawn_tick > tick {
        tick + TICK_WRAP - spawn_tick
    } else {
        tick - spawn_tick
    }
}

/// Columns that a building has moved to the left since it spawned.
pub open spec fn scrolled(tick: Tick, spawn_tick: Tick, step: Tick, speed: Tick) -> int {
    elapsed_ticks(tick, spawn_tick) * step / (speed as int)
}

/// Columns of a building that lie beyond the left edge of the viewport.
pub open spec fn hidden_left(b: Building, tick: Tick, step: Tick, speed: Tick, width: usize) -> int {
    let shift = scrolled(tick, b.spawn_tick, step, speed);
    if shift > width {
        shift - width
    } else {
        0
    }
}

/// A building stays alive while no more columns than it has are hidden on the left.
pub open spec fn is_visible(b: Building, tick: Tick, step: Tick, speed: Tick, width: usize) -> bool {
    hidden_left(b, tick, step, speed, width) <= b.size_x
}

/// The smaller of two numbers.
pub open spec fn min_of(a: int, b: int) -> int {
    if a <= b {
        a
    } else {
        b
    }
}

/// The placement of a building that is still alive.
pub open spec fn placement_of(
    b: Building,
    tick: Tick,
    step: Tick,
    speed: Tick,
    width: usize,
    height: usize,
) -> Placement {
    let shift = scrolled(tick, b.spawn_tick, step, speed);
    let offset_x = hidden_left(b, tick, step, speed, width);
    let x = if shift > width {
        0
    } else {
        width - shift
    };
    let offset_y = if b.size_y > height {
        b.size_y - height
    } else {
        0
    };
    let y = if b.size_y > height {
        0
    } else {
        height - b.size_y
    };
    Placement {
        x: x as usize,
        y: y as usize,
        offset_x: offset_x as usize,
        offset_y: offset_y as usize,
        w: min_of(b.size_x - offset_x, width - x) as usize,
        h: min_of(b.size_y - offset_y, height as int) as usize,
    }
}

/// Places a building in the viewport, or finds that it has left it for good.
pub fn place_building(b: &Building, tick: Tick, step: Tick, speed: Tick, width: usize, height: usize) -> (p:
    Option<Placement>)
    requires
        b.wf(),
        speed >= 1,
        tick <= TICK_WRAP,
    ensures
        p.is_some() == is_visible(*b, tick, step, speed, width),
        p matches Some(q) ==> q == placement_of(*b, tick, step, speed, width, height),
        p matches Some(q) ==> q.x + q.w <= width && q.y + q.h <= height && q.offset_x + q.w
            <= b.size_x && q.offset_y + q.h <= b.size_y && q.x <= width,
{
    let mut wrap_tick: u64 = tick as u64;
    if b.spawn_tick > tick {
        wrap_tick = wrap_tick + TICK_WRAP as u64;
    }
    let elapsed: u64 = wrap_tick - b.spawn_tick as u64;
    assert(elapsed == elapsed_ticks(tick, b.spawn_tick));
    assert(elapsed * step <= 0xffff_ffff * 0xffff_ffff) by (nonlinear_arith)
        requires
            0 <= elapsed <= 0xffff_ffff,
            0 <= step <= 0xffff_ffff,
    ;
    let shift: u64 = elapsed * (step as u64) / (speed as u64);
    assert(shift == scrolled(tick, b.spawn_tick, step, speed));
    let width64: u64 = width as u64;
    let (offset_x, x): (usize, usize) = if shift > width64 {
        let hidden: u64 = shift - width64;
        if hidden > b.size_x as u64 {
            return None;
        }
        (hidden as usize, 0)
    } else {
        (0, (width64 - shift) as usize)
    };
    let (offset_y, y): (usize, usize) = if b.size_y > height {
        (b.size_y - height, 0)
    } else {
        (0, height - b.size_y)
    };
    let w: usize = if b.size_x - offset_x <= width - x {
        b.size_x - offset_x
    } else {
        width - x
    };
    let h: usize = if b.size_y - offset_y <= height {
        b.size_y - offset_y
    } else {
        height
    };
    Some(Placement { x, y, offset_x, offset_y, w, h })
}

/// The threshold in force is `collision` exactly when the layer's buildings reached past
/// the viewport's width on the tick before, and `density` otherwise.
pub proof fn lemma_threshold_base(desc: LayerSpec, rightmost: usize, width: usize)
    ensures
        rightmost > width ==> threshold_of(desc, rightmost, width) == desc.collision,
        rightmost <= width ==> threshold_of(desc, rightmost, width) == desc.density,
{
}

/// No draw passes the threshold zero, and every draw passes the threshold one.
pub proof fn lemma_threshold_extremes(draw: u32)
    ensures
        !draw_passes(draw, 0),
        draw < DRAW_RANGE ==> draw_passes(draw, PROBABILITY_ONE),
{
    let d: int = draw as int;
    let one: int = PROBABILITY_ONE as int;
    let range: int = DRAW_RANGE as int;
    let zero: int = 0;
    lemma_curve_powers(d);
    lemma_curve_powers(one);
    lemma_curve_powers(range);
    lemma_curve_powers(zero);
    assert(!((d * d) * (one * one * one * one * one) < (zero * zero * zero * zero * zero) * (range
        * range))) by (nonlinear_arith)
        requires
            one > 0,
            zero == 0,
    ;
    if draw < DRAW_RANGE {
        assert((d * d) * (one * one * one * one * one) < (one * one * one * one * one) * (range
            * range)) by (nonlinear_arith)
            requires
                0 <= d < range,
                one > 0,
        ;
    }
}

/// A layer never spawns on a tick that its speed does not divide, nor under the threshold
/// zero; under the threshold one it spawns on every tick that its speed divides.
pub proof fn lemma_spawn_extremes(
    state: u64,
    desc: LayerSpec,
    tick: Tick,
    rightmost: usize,
    width: usize,
    height: usize,
)
    ensures
        tick % desc.speed != 0 ==> spawn_step(state, desc, tick, rightmost, width, height).0
            is None,
        threshold_of(desc, rightmost, width) == 0 ==> spawn_step(
            state,
            desc,
            tick,
            rightmost,
            width,
            height,
        ).0 is None,
        tick % desc.speed == 0 && threshold_of(desc, rightmost, width) == PROBABILITY_ONE
            ==> spawn_step(state, desc, tick, rightmost, width, height).0 is Some,
{
    let word: u32 = rng_u32(state).0;
    assert(word >> ((32 - DRAW_BITS) as u32) < DRAW_RANGE) by (bit_vector);
    lemma_threshold_extremes(unit_draw_of(word));
}

} // verus!
