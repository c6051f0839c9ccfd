//! The pseudo-random generator, held as the 64-bit word it carries between draws.
//!
//! The generator's arithmetic belongs to the `fastrand` crate. Every draw hands the
//! current word to `fastrand`, takes the value it produced and keeps the word it left
//! behind, so a draw is a function of the word (and of the bounds) alone. Sizes and
//! indices are drawn as 64-bit numbers, whatever the width of `usize`.

use fastrand::Rng;
use vstd::prelude::*;

verus! {

/// What `Rng::u32(..)` gives on a generator that holds `state`: the value drawn, then the
/// word the generator holds afterwards.
pub uninterp spec fn rng_u32(state: u64) -> (u32, u64);

/// What `Rng::u64(low..=high)` gives on a generator that holds `state`: the value drawn,
/// then the word the generator holds afterwards.
pub uninterp spec fn rng_u64(state: u64, low: u64, high: u64) -> (u64, u64);

/// A draw between `low` and `high`, both included, as a `usize`.
pub open spec fn rng_usize(state: u64, low: usize, high: usize) -> (usize, u64) {
    let drawn = rng_u64(state, low as u64, high as u64);
    (drawn.0 as usize, drawn.1)
}

/// A draw from the whole range of `u64`.
pub open spec fn rng_u64_any(state: u64) -> (u64, u64) {
    rng_u64(state, 0, u64::MAX)
}

/// `Rng::u32(..)` on a generator seeded with `state` (`Rng::with_seed`), together with the
/// word that `Rng::get_seed` reports after the draw. Trusted: the pair is `rng_u32(state)`.
#[verifier::external_body]
fn draw_u32(state: u64) -> (r: (u32, u64))
    ensures
        r == rng_u32(state),
{
    let rng = Rng::with_seed(state);
    let value = rng.u32(..);
    (value, rng.get_seed())
}

/// `Rng::u64(low..=high)` on a generator seeded with `state` (`Rng::with_seed`), together
/// with the word that `Rng::get_seed` reports after the draw. The range must not be empty,
/// or `fastrand` panics. Trusted: the pair is `rng_u64(state, low, high)`, and the value
/// lies in the range.
#[verifier::external_body]
fn draw_u64(state: u64, low: u64, high: u64) -> (r: (u64, u64))
    requires
        low <= high,
    ensures
        r == rng_u64(state, low, high),
        low <= r.0 <= high,
{
    let rng = Rng::with_seed(state);
    let value = rng.u64(low..=high);
    (value, rng.get_seed())
}

/// A seeded generator. Equal states give equal draws.
#[derive(Debug, Clone, Copy, PartialEq, Eq, Structural)]
pub struct Generator {
    /// The word the generator carries between draws.
    pub state: u64,
}

impl Generator {
    /// A generator that starts from `seed`.
    pub fn with_seed(seed: u64) -> (g: Generator)
        ensures
            g.state == seed,
    {
        Generator { state: seed }
    }

    /// The word the generator holds now.
    pub fn get_seed(&self) -> (s: u64)
        ensures
            s == self.state,
    {
        self.state
    }

    /// Draws a `u32` from the whole range.
    pub fn u32(&mut self) -> (value: u32)
        ensures
            value == rng_u32(old(self).state).0,
            final(self).state == rng_u32(old(self).state).1,
    {
        let (value, next) = draw_u32(self.state);
        self.state = next;
        value
    }

    /// Draws a `u64` from the whole range.
    pub fn u64(&mut self) -> (value: u64)
        ensures
            value == rng_u64_any(old(self).state).0,
            final(self).state == rng_u64_any(old(self).state).1,
    {
        let (value, next) = draw_u64(self.state, 0, u64::MAX);
        self.state = next;
        value
    }

    /// Draws a `usize` between `low` and `high`, both included.
    pub fn usize(&mut self, low: usize, high: usize) -> (value: usize)
        requires
            low <= high,
        ensures
            value == rng_usize(old(self).state, low, high).0,
            final(self).state == rng_usize(old(self).state, low, high).1,
            low <= value <= high,
    {
        let (value, next) = draw_u64(self.state, low as u64, high as u64);
        self.state = next;
        value as usize
    }
}

} // verus!
