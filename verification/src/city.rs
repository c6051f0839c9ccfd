//! The city: all layers, the clock and the grid they are painted into.

use crate::draw::{draw_building, lemma_painted_at, painted};
use crate::layer::{
    fresh_building, is_visible, place_building, placement_of, spawn_step, try_spawn, Building,
    Layer, LayerDesc,
    LayerSpec, LayerState, Tick, BUILDING_MAX_W, BUILDING_MIN_H, BUILDING_OVER_H, COLLISION_GAP,
    TICK_WRAP,
};
use crate::palette::PaletteColor;
use crate::rng::Generator;
use crate::vec2d::Vec2D;
use vstd::prelude::*;

verus! {

/// Width, then height.
pub type WHSize = (usize, usize);

/// What one layer's draw pass works with: the tick, the city's step, the layer's speed and
/// the viewport.
pub struct Frame {
    pub tick: Tick,
    pub step: Tick,
    pub speed: Tick,
    pub size: WHSize,
}

/// Whether a building is still alive in a frame.
pub open spec fn alive(b: Building, f: Frame) -> bool {
    is_visible(b, f.tick, f.step, f.speed, f.size.0)
}

/// One past the rightmost column a living building claims in a frame, gap included.
pub open spec fn reach(b: Building, f: Frame) -> int {
    placement_of(b, f.tick, f.step, f.speed, f.size.0, f.size.1).x + b.size_x + COLLISION_GAP
}

/// The grid after one living building was painted where the frame places it.
pub open spec fn painted_in_frame(
    canvas: Seq<PaletteColor>,
    b: Building,
    desc: LayerSpec,
    f: Frame,
) -> Seq<PaletteColor> {
    let p = placement_of(b, f.tick, f.step, f.speed, f.size.0, f.size.1);
    painted(canvas, f.size.0 as int, b, desc, (p.x, p.y), (p.offset_x, p.offset_y), (p.w, p.h))
}

/// The buildings that a draw pass keeps: those still alive, in their order.
pub open spec fn pass_survivors(bs: Seq<Building>, f: Frame) -> Seq<Building> {
    bs.filter(|b: Building| alive(b, f))
}

/// How the survivors of a sequence follow from those of the sequence without its last
/// building.
pub proof fn lemma_survivors_step(bs: Seq<Building>, f: Frame)
    ensures
        bs.len() == 0 ==> pass_survivors(bs, f) == bs,
        bs.len() > 0 && alive(bs.last(), f) ==> pass_survivors(bs, f) == pass_survivors(
            bs.drop_last(),
            f,
        ).push(bs.last()),
        bs.len() > 0 && !alive(bs.last(), f) ==> pass_survivors(bs, f) == pass_survivors(
            bs.drop_last(),
            f,
        ),
{
    reveal(Seq::filter);
}

/// The furthest reach among the buildings that a draw pass keeps; 0 where it keeps none.
pub open spec fn pass_rightmost(bs: Seq<Building>, f: Frame) -> int
    decreases bs.len(),
{
    if bs.len() == 0 {
        0
    } else {
        let rest = pass_rightmost(bs.drop_last(), f);
        if alive(bs.last(), f) && reach(bs.last(), f) > rest {
            reach(bs.last(), f)
        } else {
            rest
        }
    }
}

/// The reach that a draw pass records is the largest among the living buildings: none of
/// them reaches further, and unless it is 0 one of them reaches that far.
pub proof fn lemma_rightmost_is_largest(bs: Seq<Building>, f: Frame)
    ensures
        pass_rightmost(bs, f) >= 0,
        forall|j: int|
            0 <= j < bs.len() && alive(#[trigger] bs[j], f) ==> reach(bs[j], f) <= pass_rightmost(
                bs,
                f,
            ),
        pass_rightmost(bs, f) > 0 ==> exists|j: int|
            0 <= j < bs.len() && alive(#[trigger] bs[j], f) && reach(bs[j], f) == pass_rightmost(
                bs,
                f,
            ),
    decreases bs.len(),
{
    if bs.len() > 0 {
        let rest = bs.drop_last();
        lemma_rightmost_is_largest(rest, f);
        assert forall|j: int| 0 <= j < bs.len() && alive(#[trigger] bs[j], f) implies reach(
            bs[j],
            f,
        ) <= pass_rightmost(bs, f) by {
            if j < rest.len() {
                assert(rest[j] == bs[j]);
            }
        }
        if pass_rightmost(bs, f) > 0 {
            if alive(bs.last(), f) && reach(bs.last(), f) > pass_rightmost(rest, f) {
                assert(bs[bs.len() - 1] == bs.last());
            } else {
                let j = choose|j: int|
                    0 <= j < rest.len() && alive(#[trigger] rest[j], f) && reach(rest[j], f)
                        == pass_rightmost(rest, f);
                assert(bs[j] == rest[j]);
            }
        }
    }
}

/// The grid after a draw pass: every living building painted, oldest first.
pub open spec fn pass_canvas(
    canvas: Seq<PaletteColor>,
    bs: Seq<Building>,
    desc: LayerSpec,
    f: Frame,
) -> Seq<PaletteColor>
    decreases bs.len(),
{
    if bs.len() == 0 {
        canvas
    } else if alive(bs.last(), f) {
        painted_in_frame(pass_canvas(canvas, bs.drop_last(), desc, f), bs.last(), desc, f)
    } else {
        pass_canvas(canvas, bs.drop_last(), desc, f)
    }
}

/// All buildings of a sequence are well formed.
pub open spec fn all_wf(bs: Seq<Building>) -> bool {
    forall|j: int| 0 <= j < bs.len() ==> (#[trigger] bs[j]).wf()
}

/// The draw pass of one layer: takes every building of the layer once, oldest first, drops
/// those that have left the viewport for good, paints the others and puts them back in
/// their order; then records how far to the right they reach.
pub fn draw_layer(
    layer: &mut Layer,
    desc: &LayerDesc,
    canvas: &mut Vec2D<PaletteColor>,
    tick: Tick,
    step: Tick,
    size: WHSize,
)
    requires
        desc.speed >= 1,
        tick <= TICK_WRAP,
        all_wf(old(layer)@.buildings),
        old(canvas).wf(),
        old(canvas).width() == size.0,
        old(canvas).height() == size.1,
        size.0 + BUILDING_MAX_W + COLLISION_GAP <= usize::MAX,
    ensures
        final(layer)@.buildings == pass_survivors(
            old(layer)@.buildings,
            Frame { tick, step, speed: desc.speed, size },
        ),
        final(layer)@.rightmost == pass_rightmost(
            old(layer)@.buildings,
            Frame { tick, step, speed: desc.speed, size },
        ),
        final(canvas)@ == pass_canvas(
            old(canvas)@,
            old(layer)@.buildings,
            desc@,
            Frame { tick, step, speed: desc.speed, size },
        ),
        all_wf(final(layer)@.buildings),
        final(canvas).wf(),
        final(canvas).width() == size.0,
        final(canvas).height() == size.1,
{
    let ghost f = Frame { tick, step, speed: desc.speed, size };
    let ghost bs = layer.ring@;
    let ghost canvas0 = canvas@;
    let (sx, sy) = size;
    let mut rightmost_rc: usize = 0;
    let b_count: usize = layer.ring.len();
    let mut i: usize = 0;
    proof {
        lemma_survivors_step(bs.take(0), f);
        assert(bs.skip(0) =~= bs);
        assert(bs.take(0) =~= Seq::<Building>::empty());
    }
    while i < b_count
        invariant
            i <= b_count,
            b_count == bs.len(),
            f == (Frame { tick, step, speed: desc.speed, size }),
            size == (sx, sy),
            desc.speed >= 1,
            tick <= TICK_WRAP,
            all_wf(bs),
            all_wf(layer.ring@),
            layer.ring@ == bs.skip(i as int) + pass_survivors(bs.take(i as int), f),
            rightmost_rc == pass_rightmost(bs.take(i as int), f),
            rightmost_rc <= sx + BUILDING_MAX_W + COLLISION_GAP,
            canvas@ == pass_canvas(canvas0, bs.take(i as int), desc@, f),
            canvas.wf(),
            canvas.width() == sx,
            canvas.height() == sy,
            sx + BUILDING_MAX_W + COLLISION_GAP <= usize::MAX,
        decreases b_count - i,
    {
        let ghost ring_before = layer.ring@;
        let popped = layer.ring.pop_front();
        proof {
            lemma_survivors_step(bs.take(i + 1), f);
            assert(bs.take(i + 1).drop_last() =~= bs.take(i as int));
            assert(bs.take(i + 1).last() == bs[i as int]);
            assert(ring_before[0] == bs.skip(i as int)[0]);
        }
        match popped {
            Some(b) => {
                assert(b == bs[i as int]);
                match place_building(&b, tick, step, desc.speed, sx, sy) {
                    Some(p) => {
                        let rc: usize = p.x + b.size_x + COLLISION_GAP;
                        if rc > rightmost_rc {
                            rightmost_rc = rc;
                        }
                        draw_building(
                            canvas,
                            &b,
                            desc,
                            (p.x, p.y),
                            (p.offset_x, p.offset_y),
                            (p.w, p.h),
                        );
                        layer.ring.push_back(b);
                        assert(layer.ring@ =~= bs.skip(i + 1) + pass_survivors(bs.take(i + 1), f));
                    },
                    None => {
                        assert(layer.ring@ =~= bs.skip(i + 1) + pass_survivors(bs.take(i + 1), f));
                    },
                }
            },
            None => {},
        }
        i += 1;
    }
    assert(bs.take(b_count as int) =~= bs);
    assert(layer.ring@ =~= pass_survivors(bs, f));
    layer.rightmost_building_rcx = rightmost_rc;
}

/// Everything a city holds, as plain values.
pub struct CityState {
    /// The word the generator holds.
    pub rng: u64,
    /// The viewport.
    pub size: WHSize,
    /// Ticks per frame.
    pub step: Tick,
    /// The clock.
    pub tick: Tick,
    /// The colour of an empty cell.
    pub background: PaletteColor,
    /// The layers' descriptions, back to front.
    pub descs: Seq<LayerSpec>,
    /// The layers' live state, in the same order.
    pub layers: Seq<LayerState>,
    /// The grid, row after row.
    pub canvas: Seq<PaletteColor>,
}

/// The viewport sizes under which a city can tick: high enough that the tallest building
/// is no lower than the lowest, and small enough that the grid and a building beyond the
/// right edge can be addressed.
pub open spec fn size_ok(size: WHSize) -> bool {
    &&& BUILDING_MIN_H <= size.1 + BUILDING_OVER_H <= usize::MAX
    &&& size.0 + BUILDING_MAX_W + COLLISION_GAP <= usize::MAX
    &&& size.0 * size.1 <= usize::MAX
}

/// Whether a city can tick under a viewport of this size.
pub fn size_fits(width: usize, height: usize) -> (ok: bool)
    ensures
        ok == size_ok((width, height)),
{
    if height > usize::MAX - BUILDING_OVER_H || height + BUILDING_OVER_H < BUILDING_MIN_H {
        return false;
    }
    if width > usize::MAX - BUILDING_MAX_W - COLLISION_GAP {
        return false;
    }
    width.checked_mul(height).is_some()
}

impl CityState {
    /// The clock is in range, the grid fits the viewport, and every layer has a well-formed
    /// description and well-formed buildings.
    pub open spec fn wf(self) -> bool {
        &&& self.size.0 * self.size.1 <= usize::MAX
        &&& 1 <= self.tick <= TICK_WRAP
        &&& self.canvas.len() == self.size.0 * self.size.1
        &&& self.descs.len() == self.layers.len()
        &&& forall|i: int| 0 <= i < self.descs.len() ==> (#[trigger] self.descs[i]).wf()
        &&& forall|i: int| 0 <= i < self.layers.len() ==> all_wf((#[trigger] self.layers[i]).buildings)
    }
}

/// The frame of layer `desc` in state `s`.
pub open spec fn frame_of(s: CityState, desc: LayerSpec) -> Frame {
    Frame { tick: s.tick, step: s.step, speed: desc.speed, size: s.size }
}

/// The buildings of a layer after its spawn step.
pub open spec fn with_spawned(bs: Seq<Building>, spawned: Option<Building>) -> Seq<Building> {
    match spawned {
        Some(b) => bs.push(b),
        None => bs,
    }
}

/// The state after layer `i` took its turn in a tick: it may spawn a building, then all its
/// buildings, a new one included, go through the draw pass.
pub open spec fn layer_step(s: CityState, i: int) -> CityState {
    let desc = s.descs[i];
    let layer = s.layers[i];
    let spawn = spawn_step(s.rng, desc, s.tick, layer.rightmost, s.size.0, s.size.1);
    let bs = with_spawned(layer.buildings, spawn.0);
    let f = frame_of(s, desc);
    CityState {
        rng: spawn.1,
        layers: s.layers.update(
            i,
            LayerState {
                buildings: pass_survivors(bs, f),
                rightmost: pass_rightmost(bs, f) as usize,
            },
        ),
        canvas: pass_canvas(s.canvas, bs, desc, f),
        ..s
    }
}

/// The state after the grid was wiped and the first `n` layers took their turn.
pub open spec fn layers_step(s: CityState, n: nat) -> CityState
    decreases n,
{
    if n == 0 {
        CityState { canvas: Seq::new(s.canvas.len(), |i: int| s.background), ..s }
    } else {
        layer_step(layers_step(s, (n - 1) as nat), n - 1)
    }
}

/// The building that layer `i` spawns in the tick that starts from `s`, if it spawns one.
pub open spec fn spawned_in(s: CityState, i: int) -> Option<Building> {
    let p = layers_step(s, i as nat);
    spawn_step(p.rng, p.descs[i], p.tick, p.layers[i].rightmost, p.size.0, p.size.1).0
}

/// Every building that the tick starting from `s` spawns carries the tick, has its sizes in
/// the ranges they are drawn from under the viewport's height, and a wall colour of its
/// layer.
pub open spec fn spawns_are_fresh(s: CityState) -> bool {
    forall|i: int|
        0 <= i < s.layers.len() ==> (#[trigger] spawned_in(s, i) matches Some(b)
            ==> fresh_building(b, s.descs[i], s.tick, s.size.1))
}

/// The clock's next value: one more, and 1 after `TICK_WRAP`.
pub open spec fn next_tick_of(tick: Tick) -> Tick {
    if tick >= TICK_WRAP {
        1
    } else {
        (tick + 1) as Tick
    }
}

/// Moves the clock on by one tick.
pub fn advance_clock(tick: Tick) -> (next: Tick)
    ensures
        next == next_tick_of(tick),
        1 <= next <= TICK_WRAP,
{
    if tick >= TICK_WRAP {
        1
    } else {
        tick + 1
    }
}

/// The state after one tick: the grid wiped, every layer's turn in order, the clock advanced.
pub open spec fn tick_step(s: CityState) -> CityState {
    CityState { tick: next_tick_of(s.tick), ..layers_step(s, s.layers.len()) }
}

/// The state after `n` ticks.
pub open spec fn after_ticks(s: CityState, n: nat) -> CityState
    decreases n,
{
    if n == 0 {
        s
    } else {
        tick_step(after_ticks(s, (n - 1) as nat))
    }
}

/// The state of a new city.
pub open spec fn initial_state(
    width: usize,
    height: usize,
    step: Tick,
    seed: u64,
    background: PaletteColor,
    descs: Seq<LayerSpec>,
) -> CityState {
    CityState {
        rng: seed,
        size: (width, height),
        step,
        tick: 1,
        background,
        descs,
        layers: Seq::new(
            descs.len(),
            |i: int| LayerState { buildings: Seq::<Building>::empty(), rightmost: 0 },
        ),
        canvas: Seq::new((width * height) as nat, |i: int| background),
    }
}

/// The descriptions of a slice of layers, as plain values.
pub open spec fn specs_of(layers: Seq<LayerDesc>) -> Seq<LayerSpec> {
    Seq::new(layers.len(), |i: int| layers[i]@)
}

/// The live state of a vector of layers, as plain values.
pub open spec fn states_of(layers: Seq<Layer>) -> Seq<LayerState> {
    Seq::new(layers.len(), |i: int| layers[i]@)
}

/// A scrolling skyline of several depth layers.
#[derive(Debug)]
pub struct City<'a> {
    rng: Generator,
    size: WHSize,
    step: Tick,
    tick: Tick,
    background: PaletteColor,
    layers_desc: &'a [LayerDesc],
    layers: Vec<Layer>,
    canvas: Vec2D<PaletteColor>,
}

impl<'a> View for City<'a> {
    type V = CityState;

    closed spec fn view(&self) -> CityState {
        CityState {
            rng: self.rng.state,
            size: self.size,
            step: self.step,
            tick: self.tick,
            background: self.background,
            descs: specs_of(self.layers_desc@),
            layers: states_of(self.layers@),
            canvas: self.canvas@,
        }
    }
}

impl<'a> City<'a> {
    /// The state is well formed and the grid has the viewport's size.
    pub closed spec fn wf(&self) -> bool {
        &&& self@.wf()
        &&& self.canvas.wf()
        &&& self.canvas.width() == self.size.0
        &&& self.canvas.height() == self.size.1
    }

    /// A well-formed city has a well-formed state.
    pub proof fn lemma_wf_state(&self)
        requires
            self.wf(),
        ensures
            self@.wf(),
    {
    }

    /// A city at tick 1 with an empty grid and no buildings.
    pub fn new(
        width: usize,
        height: usize,
        step: Tick,
        rng: Generator,
        bg_color: PaletteColor,
        layers: &'a [LayerDesc],
    ) -> (city: City<'a>)
        requires
            width * height <= usize::MAX,
            forall|i: int| 0 <= i < layers@.len() ==> (#[trigger] layers@[i])@.wf(),
        ensures
            city.wf(),
            city@ == initial_state(width, height, step, rng.state, bg_color, specs_of(layers@)),
    {
        let mut states: Vec<Layer> = Vec::new();
        let mut i: usize = 0;
        while i < layers.len()
            invariant
                i <= layers@.len(),
                states@.len() == i,
                forall|k: int|
                    0 <= k < i ==> (#[trigger] states@[k])@ == (LayerState {
                        buildings: Seq::<Building>::empty(),
                        rightmost: 0,
                    }),
            decreases layers@.len() - i,
        {
            states.push(Layer::new());
            i += 1;
        }
        let init = || -> (c: PaletteColor)
            ensures
                c == bg_color,
            { bg_color };
        let canvas = Vec2D::new(width, height, init);
        let city = City {
            rng,
            step,
            size: (width, height),
            tick: 1,
            background: bg_color,
            canvas,
            layers: states,
            layers_desc: layers,
        };
        proof {
            let target = initial_state(width, height, step, rng.state, bg_color, specs_of(layers@));
            assert(city@.layers =~= target.layers);
            assert(city@.canvas =~= target.canvas);
        }
        city
    }

    /// The viewport: width, then height.
    pub fn get_size(&self) -> (size: WHSize)
        ensures
            size == self@.size,
    {
        self.size
    }

    /// The clock.
    pub fn get_tick(&self) -> (tick: Tick)
        ensures
            tick == self@.tick,
    {
        self.tick
    }

    /// The grid as the last tick left it.
    pub fn get_canvas(&self) -> (canvas: &Vec2D<PaletteColor>)
        requires
            self.wf(),
        ensures
            canvas@ == self@.canvas,
            canvas.wf(),
            canvas.width() == self@.size.0,
            canvas.height() == self@.size.1,
    {
        &self.canvas
    }

    /// The layers' live state, back to front.
    pub fn get_layers(&self) -> (layers: &Vec<Layer>)
        ensures
            states_of(layers@) == self@.layers,
    {
        &self.layers
    }

    /// Gives the city a new viewport and an empty grid of that size. Buildings stay as
    /// they are.
    pub fn set_wh(&mut self, w: usize, h: usize)
        requires
            old(self).wf(),
            w * h <= usize::MAX,
        ensures
            final(self).wf(),
            final(self)@ == (CityState {
                size: (w, h),
                canvas: Seq::new((w * h) as nat, |i: int| old(self)@.background),
                ..old(self)@
            }),
    {
        let background: PaletteColor = self.background;
        self.size = (w, h);
        let init = || -> (c: PaletteColor)
            ensures
                c == background,
            { background };
        self.canvas = Vec2D::new(w, h, init);
        proof {
            assert(self@.canvas =~= Seq::new((w * h) as nat, |i: int| old(self)@.background));
        }
    }

    /// Advances the city by one tick: wipes the grid, lets every layer spawn and draw in
    /// order, then moves the clock on.
    pub fn next_tick(&mut self)
        requires
            old(self).wf(),
            size_ok(old(self)@.size),
        ensures
            final(self).wf(),
            final(self)@ == tick_step(old(self)@),
            spawns_are_fresh(old(self)@),
    {
        let (sx, sy) = self.size;
        let tick: Tick = self.tick;
        let step: Tick = self.step;

        self.canvas.fill_with(self.background);

        let count: usize = self.layers.len();
        let mut i: usize = 0;
        assert(self@ == layers_step(old(self)@, 0));
        while i < count
            invariant
                i <= count,
                count == self.layers@.len(),
                self.wf(),
                size_ok((sx, sy)),
                self.size == (sx, sy),
                self.tick == tick,
                self.step == step,
                self@ == layers_step(old(self)@, i as nat),
                self@.descs == old(self)@.descs,
                old(self)@.tick == tick,
                old(self)@.size == (sx, sy),
                forall|k: int|
                    0 <= k < i ==> (#[trigger] spawned_in(old(self)@, k) matches Some(b)
                        ==> fresh_building(b, old(self)@.descs[k], tick, sy)),
            decreases count - i,
        {
            let ghost before = self@;
            let desc: &LayerDesc = &self.layers_desc[i];
            assert(desc@ == before.descs[i as int]);
            let rightmost: usize = self.layers[i].rightmost_building_rcx;
            assert(all_wf(before.layers[i as int].buildings));
            assert(self.layers@[i as int]@ == before.layers[i as int]);
            let spawned = try_spawn(&mut self.rng, desc, tick, rightmost, sx, sy);
            assert(spawned == spawned_in(old(self)@, i as int));
            match spawned {
                Some(b) => {
                    self.layers[i].ring.push_back(b);
                },
                None => {},
            }
            draw_layer(&mut self.layers[i], desc, &mut self.canvas, tick, step, (sx, sy));
            proof {
                assert(self@.layers =~= layer_step(before, i as int).layers);
                assert(self@ == layer_step(before, i as int));
            }
            i += 1;
        }

        self.tick = advance_clock(tick);
    }
}

/// A draw pass adds no building, keeps every building that is still alive, and keeps none
/// that has left the viewport for good.
pub proof fn lemma_pass_evicts(bs: Seq<Building>, f: Frame)
    ensures
        pass_survivors(bs, f).len() <= bs.len(),
        forall|j: int|
            0 <= j < pass_survivors(bs, f).len() ==> alive(#[trigger] pass_survivors(bs, f)[j], f)
                && bs.contains(pass_survivors(bs, f)[j]),
        forall|j: int|
            0 <= j < bs.len() && alive(bs[j], f) ==> pass_survivors(bs, f).contains(
                #[trigger] bs[j],
            ),
        forall|b: Building| !alive(b, f) ==> !pass_survivors(bs, f).contains(b),
{
    let pred = |b: Building| alive(b, f);
    bs.lemma_filter_len(pred);
    assert forall|j: int| 0 <= j < pass_survivors(bs, f).len() implies alive(
        #[trigger] pass_survivors(bs, f)[j],
        f,
    ) && bs.contains(pass_survivors(bs, f)[j]) by {
        bs.lemma_filter_pred(pred, j);
        assert(bs.filter(pred).contains(bs.filter(pred)[j]));
        bs.lemma_filter_contains_rev(pred, bs.filter(pred)[j]);
    }
    assert forall|j: int| 0 <= j < bs.len() && alive(bs[j], f) implies pass_survivors(
        bs,
        f,
    ).contains(#[trigger] bs[j]) by {
        bs.lemma_filter_contains(pred, j);
    }
}

/// A building that has left the viewport for good is not painted and claims no column.
pub proof fn lemma_dead_building_is_skipped(
    canvas: Seq<PaletteColor>,
    bs: Seq<Building>,
    b: Building,
    desc: LayerSpec,
    f: Frame,
)
    requires
        !alive(b, f),
    ensures
        pass_canvas(canvas, bs.push(b), desc, f) == pass_canvas(canvas, bs, desc, f),
        pass_rightmost(bs.push(b), f) == pass_rightmost(bs, f),
        pass_survivors(bs.push(b), f) == pass_survivors(bs, f),
{
    assert(bs.push(b).drop_last() =~= bs);
    lemma_survivors_step(bs.push(b), f);
}

/// Within a tick only the generator, the layers' live state and the grid change, and only
/// the layers that have had their turn.
pub proof fn lemma_layers_step_frame(s: CityState, n: nat)
    requires
        n <= s.layers.len(),
    ensures
        layers_step(s, n).size == s.size,
        layers_step(s, n).step == s.step,
        layers_step(s, n).tick == s.tick,
        layers_step(s, n).background == s.background,
        layers_step(s, n).descs == s.descs,
        layers_step(s, n).layers.len() == s.layers.len(),
        forall|i: int| n <= i < s.layers.len() ==> layers_step(s, n).layers[i] == s.layers[i],
    decreases n,
{
    if n > 0 {
        lemma_layers_step_frame(s, (n - 1) as nat);
    }
}

/// In one tick a layer's buffer grows by at most the one building that the layer spawns.
pub proof fn lemma_buffer_grows_by_spawn_only(s: CityState, i: int)
    requires
        0 <= i < s.layers.len(),
    ensures
        spawn_step(s.rng, s.descs[i], s.tick, s.layers[i].rightmost, s.size.0, s.size.1).0
            is None ==> layer_step(s, i).layers[i].buildings.len()
            <= s.layers[i].buildings.len(),
        layer_step(s, i).layers[i].buildings.len() <= s.layers[i].buildings.len() + 1,
{
    let spawn = spawn_step(s.rng, s.descs[i], s.tick, s.layers[i].rightmost, s.size.0, s.size.1);
    lemma_pass_evicts(with_spawned(s.layers[i].buildings, spawn.0), frame_of(s, s.descs[i]));
}

/// The clock never leaves `1..=TICK_WRAP`: after `TICK_WRAP` comes 1, after any other value
/// the next one.
pub proof fn lemma_clock_wraps_to_one(tick: Tick)
    ensures
        1 <= next_tick_of(tick) <= TICK_WRAP,
        tick < TICK_WRAP ==> next_tick_of(tick) == tick + 1,
        tick == TICK_WRAP ==> next_tick_of(tick) == 1,
{
}

/// The clock of a city is in `1..=TICK_WRAP` after any number of ticks.
pub proof fn lemma_clock_in_range(s: CityState, n: nat)
    requires
        1 <= s.tick <= TICK_WRAP,
    ensures
        1 <= after_ticks(s, n).tick <= TICK_WRAP,
    decreases n,
{
    if n > 0 {
        lemma_clock_in_range(s, (n - 1) as nat);
        lemma_clock_wraps_to_one(after_ticks(s, (n - 1) as nat).tick);
    }
}

/// The state after some ticks, the grid in it, follows from the configuration, the seed and
/// the number of ticks alone: two cities made alike are alike after equally many ticks.
pub proof fn lemma_run_is_determined(
    width: usize,
    height: usize,
    step: Tick,
    seed: u64,
    background: PaletteColor,
    descs: Seq<LayerSpec>,
    a: CityState,
    b: CityState,
    ticks: nat,
)
    requires
        a == initial_state(width, height, step, seed, background, descs),
        b == initial_state(width, height, step, seed, background, descs),
    ensures
        after_ticks(a, ticks) == after_ticks(b, ticks),
        after_ticks(a, ticks).canvas == after_ticks(
            initial_state(width, height, step, seed, background, descs),
            ticks,
        ).canvas,
{
}

/// A building is not painted on the tick it spawns: it stands just past the right edge,
/// alive, and reaches past the viewport's width, so that the layer's next spawn goes by
/// `collision`.
pub proof fn lemma_new_building_waits_at_the_edge(
    canvas: Seq<PaletteColor>,
    b: Building,
    desc: LayerSpec,
    f: Frame,
)
    requires
        b.spawn_tick == f.tick,
        f.speed >= 1,
    ensures
        alive(b, f),
        painted_in_frame(canvas, b, desc, f) == canvas,
        reach(b, f) == f.size.0 + b.size_x + COLLISION_GAP,
{
    let elapsed = crate::layer::elapsed_ticks(f.tick, b.spawn_tick);
    assert(elapsed * f.step / (f.speed as int) == 0) by (nonlinear_arith)
        requires
            elapsed == 0,
            f.speed >= 1,
    ;
}

/// What a layer holds after a tick is what its own turn left: the turns of the layers
/// behind it do not touch it.
pub proof fn lemma_layer_turn(s: CityState, n: nat, i: int)
    requires
        0 <= i < n <= s.layers.len(),
    ensures
        layers_step(s, n).layers[i] == layer_step(layers_step(s, i as nat), i).layers[i],
    decreases n,
{
    lemma_layers_step_frame(s, (n - 1) as nat);
    if n - 1 > i {
        lemma_layer_turn(s, (n - 1) as nat, i);
    }
}

/// The buildings of layer `i` after a tick: those it had and the one it spawned, as far as
/// they are still alive, in this order.
pub proof fn lemma_layer_after_tick(s: CityState, i: int)
    requires
        0 <= i < s.layers.len(),
    ensures
        tick_step(s).layers[i].buildings == pass_survivors(
            with_spawned(s.layers[i].buildings, spawned_in(s, i)),
            frame_of(s, s.descs[i]),
        ),
{
    lemma_layer_turn(s, s.layers.len(), i);
    lemma_layers_step_frame(s, i as nat);
}

/// A building that a layer spawns is the last of the layer's buildings after the tick.
pub proof fn lemma_spawned_building_is_last(s: CityState, i: int)
    requires
        0 <= i < s.layers.len(),
        s.descs[i].speed >= 1,
    ensures
        spawned_in(s, i) matches Some(b) ==> tick_step(s).layers[i].buildings.len() >= 1
            && tick_step(s).layers[i].buildings.last() == b && b.spawn_tick == s.tick,
{
    lemma_layer_after_tick(s, i);
    lemma_layers_step_frame(s, i as nat);
    match spawned_in(s, i) {
        Some(b) => {
            let f = frame_of(s, s.descs[i]);
            let bs = s.layers[i].buildings.push(b);
            lemma_new_building_waits_at_the_edge(s.canvas, b, s.descs[i], f);
            assert(bs.drop_last() =~= s.layers[i].buildings);
            lemma_survivors_step(bs, f);
        },
        None => {},
    }
}

/// A tick makes up no building and alters none: every building of a layer after the tick
/// was in the layer before it, or is the one the layer spawned.
pub proof fn lemma_tick_keeps_or_spawns(s: CityState, i: int, j: int)
    requires
        0 <= i < s.layers.len(),
        0 <= j < tick_step(s).layers[i].buildings.len(),
    ensures
        s.layers[i].buildings.contains(tick_step(s).layers[i].buildings[j]) || spawned_in(s, i)
            == Some(tick_step(s).layers[i].buildings[j]),
{
    lemma_layer_after_tick(s, i);
    let bs = with_spawned(s.layers[i].buildings, spawned_in(s, i));
    let kept = tick_step(s).layers[i].buildings[j];
    lemma_pass_evicts(bs, frame_of(s, s.descs[i]));
    assert(bs.contains(kept));
    let k = choose|k: int| 0 <= k < bs.len() && bs[k] == kept;
    if k < s.layers[i].buildings.len() {
        assert(s.layers[i].buildings[k] == kept);
    }
}

/// Whether the cell at column `px` and row `py` of the grid lies in the rectangle that a
/// frame gives to a building: the visible part of the building, clipped to the viewport.
pub open spec fn covers(b: Building, f: Frame, px: int, py: int) -> bool {
    let p = placement_of(b, f.tick, f.step, f.speed, f.size.0, f.size.1);
    p.x <= px < p.x + p.w && p.y <= py < p.y + p.h
}

/// A draw pass keeps the grid's size.
pub proof fn lemma_pass_keeps_len(
    canvas: Seq<PaletteColor>,
    bs: Seq<Building>,
    desc: LayerSpec,
    f: Frame,
)
    ensures
        pass_canvas(canvas, bs, desc, f).len() == canvas.len(),
    decreases bs.len(),
{
    if bs.len() > 0 {
        lemma_pass_keeps_len(canvas, bs.drop_last(), desc, f);
    }
}

/// A draw pass paints inside the rectangles of its living buildings only: a cell that none
/// of them covers is left as it was.
pub proof fn lemma_pass_leaves_the_rest(
    canvas: Seq<PaletteColor>,
    bs: Seq<Building>,
    desc: LayerSpec,
    f: Frame,
    px: int,
    py: int,
)
    requires
        canvas.len() == f.size.0 * f.size.1,
        0 <= px < f.size.0,
        0 <= py < f.size.1,
        forall|j: int| 0 <= j < bs.len() && alive(#[trigger] bs[j], f) ==> !covers(bs[j], f, px, py),
    ensures
        pass_canvas(canvas, bs, desc, f)[py * f.size.0 + px] == canvas[py * f.size.0 + px],
    decreases bs.len(),
{
    if bs.len() > 0 {
        let rest = bs.drop_last();
        assert forall|j: int| 0 <= j < rest.len() && alive(#[trigger] rest[j], f) implies !covers(
            rest[j],
            f,
            px,
            py,
        ) by {
            assert(rest[j] == bs[j]);
        }
        lemma_pass_leaves_the_rest(canvas, rest, desc, f, px, py);
        lemma_pass_keeps_len(canvas, rest, desc, f);
        if alive(bs.last(), f) {
            let p = placement_of(bs.last(), f.tick, f.step, f.speed, f.size.0, f.size.1);
            assert(bs[bs.len() - 1] == bs.last());
            lemma_painted_at(
                pass_canvas(canvas, rest, desc, f),
                f.size.0 as int,
                f.size.1 as int,
                bs.last(),
                desc,
                (p.x, p.y),
                (p.offset_x, p.offset_y),
                (p.w, p.h),
                px,
                py,
            );
        }
    }
}

/// The buildings that layer `i` takes through its draw pass in the tick that starts from
/// `s`: those it holds and the one it spawns.
pub open spec fn buildings_in_tick(s: CityState, i: int) -> Seq<Building> {
    with_spawned(s.layers[i].buildings, spawned_in(s, i))
}

/// Whether a living building of some layer covers the cell at column `px` and row `py` in
/// the tick that starts from `s`.
pub open spec fn occupied(s: CityState, px: int, py: int) -> bool {
    exists|i: int, j: int|
        0 <= i < s.layers.len() && 0 <= j < buildings_in_tick(s, i).len() && alive(
            #[trigger] buildings_in_tick(s, i)[j],
            frame_of(s, s.descs[i]),
        ) && covers(buildings_in_tick(s, i)[j], frame_of(s, s.descs[i]), px, py)
}

/// After the first `n` layers had their turn, a cell that no living building covers shows
/// the background, and the grid has kept its size.
pub proof fn lemma_free_cell_after_layers(s: CityState, n: nat, px: int, py: int)
    requires
        n <= s.layers.len(),
        s.canvas.len() == s.size.0 * s.size.1,
        0 <= px < s.size.0,
        0 <= py < s.size.1,
        !occupied(s, px, py),
    ensures
        layers_step(s, n).canvas.len() == s.canvas.len(),
        layers_step(s, n).canvas[py * s.size.0 + px] == s.background,
    decreases n,
{
    crate::vec2d::lemma_row_in_bounds(s.size.0 as int, s.size.1 as int, py);
    if n > 0 {
        let i = n - 1;
        let p = layers_step(s, i as nat);
        lemma_free_cell_after_layers(s, i as nat, px, py);
        lemma_layers_step_frame(s, i as nat);
        let f = frame_of(s, s.descs[i]);
        let bs = buildings_in_tick(s, i);
        assert forall|j: int| 0 <= j < bs.len() && alive(#[trigger] bs[j], f) implies !covers(
            bs[j],
            f,
            px,
            py,
        ) by {
            if covers(bs[j], f, px, py) {
                assert(alive(buildings_in_tick(s, i)[j], frame_of(s, s.descs[i])));
                assert(occupied(s, px, py));
            }
        }
        lemma_pass_keeps_len(p.canvas, bs, s.descs[i], f);
        lemma_pass_leaves_the_rest(p.canvas, bs, s.descs[i], f, px, py);
    }
}

/// After a tick every cell that no living building covers shows the background: buildings
/// are painted inside the viewport and inside their own rectangles only, whatever the
/// viewport was when they spawned.
pub proof fn lemma_free_cells_show_the_background(s: CityState, px: int, py: int)
    requires
        s.canvas.len() == s.size.0 * s.size.1,
        0 <= px < s.size.0,
        0 <= py < s.size.1,
        !occupied(s, px, py),
    ensures
        tick_step(s).canvas.len() == s.size.0 * s.size.1,
        tick_step(s).canvas[py * s.size.0 + px] == s.background,
{
    lemma_free_cell_after_layers(s, s.layers.len(), px, py);
}

/// The rectangle of a living, well-formed building lies inside the viewport.
pub proof fn lemma_covered_cells_are_in_the_viewport(b: Building, f: Frame, px: int, py: int)
    requires
        b.wf(),
        f.speed >= 1,
        alive(b, f),
        covers(b, f, px, py),
    ensures
        0 <= px < f.size.0,
        0 <= py < f.size.1,
{
    let shift = crate::layer::scrolled(f.tick, b.spawn_tick, f.step, f.speed);
    let e = crate::layer::elapsed_ticks(f.tick, b.spawn_tick);
    assert(e * f.step / (f.speed as int) >= 0) by (nonlinear_arith)
        requires
            e >= 0,
            f.step >= 0,
            f.speed >= 1,
    ;
}

} // verus!
