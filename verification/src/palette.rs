//! Fixed-capacity colour sets.

use arrayvec::ArrayVec;
use vstd::prelude::*;

verus! {

/// Index of a colour in the terminal palette.
pub type PaletteColor = usize;

/// The most colours that one set can hold.
pub const COLOR_SET_CAPACITY: usize = 32;

/// An ordered set of at most 32 palette colours, stored inline.
#[verifier::external_body]
#[derive(Debug)]
pub struct ColorSet {
    inner: ArrayVec<[PaletteColor; 32]>,
}

/// The colours that a set holds, in insertion order.
pub uninterp spec fn colors_of(set: ColorSet) -> Seq<PaletteColor>;

/// `ArrayVec::new`: a set that holds nothing.
#[verifier::external_body]
fn inner_new() -> (set: ColorSet)
    ensures
        colors_of(set) == Seq::<PaletteColor>::empty(),
{
    ColorSet { inner: ArrayVec::new() }
}

/// `ArrayVec::len`: the number of colours held, never above the capacity.
#[verifier::external_body]
fn inner_len(set: &ColorSet) -> (n: usize)
    ensures
        n == colors_of(*set).len(),
        n <= COLOR_SET_CAPACITY,
{
    set.inner.len()
}

/// Indexing an `ArrayVec` through its slice: the colour at position `i`.
#[verifier::external_body]
fn inner_get(set: &ColorSet, i: usize) -> (c: PaletteColor)
    requires
        i < colors_of(*set).len(),
    ensures
        c == colors_of(*set)[i as int],
{
    set.inner[i]
}

/// `ArrayVec::push`: appends one colour; the set must not be full.
#[verifier::external_body]
fn inner_push(set: &mut ColorSet, color: PaletteColor)
    requires
        colors_of(*old(set)).len() < COLOR_SET_CAPACITY,
    ensures
        colors_of(*final(set)) == colors_of(*old(set)).push(color),
{
    set.inner.push(color)
}

impl View for ColorSet {
    type V = Seq<PaletteColor>;

    open spec fn view(&self) -> Seq<PaletteColor> {
        colors_of(*self)
    }
}

impl ColorSet {
    /// An empty set.
    pub fn new() -> (set: ColorSet)
        ensures
            set@ == Seq::<PaletteColor>::empty(),
    {
        inner_new()
    }

    /// Number of colours in the set.
    pub fn len(&self) -> (n: usize)
        ensures
            n == self@.len(),
            n <= COLOR_SET_CAPACITY,
    {
        inner_len(self)
    }

    /// The colour at position `i`, if there is one.
    pub fn get(&self, i: usize) -> (c: Option<PaletteColor>)
        ensures
            c == if i < self@.len() { Some(self@[i as int]) } else { None },
    {
        if i < inner_len(self) {
            Some(inner_get(self, i))
        } else {
            None
        }
    }

    /// The colour at position `i` of a set that has one there.
    pub fn at(&self, i: usize) -> (c: PaletteColor)
        requires
            i < self@.len(),
        ensures
            c == self@[i as int],
    {
        inner_get(self, i)
    }

    /// Appends `color` unless the set is full; says whether it was appended.
    pub fn push(&mut self, color: PaletteColor) -> (added: bool)
        ensures
            added == (old(self)@.len() < COLOR_SET_CAPACITY),
            added ==> final(self)@ == old(self)@.push(color),
            !added ==> final(self)@ == old(self)@,
    {
        if inner_len(self) < COLOR_SET_CAPACITY {
            inner_push(self, color);
            true
        } else {
            false
        }
    }
}

} // verus!
