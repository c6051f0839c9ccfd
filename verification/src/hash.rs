//! Jenkins one-at-a-time hash, fed 32 bits at a time.

use vstd::prelude::*;

verus! {

/// One mixing round of the accumulator with a single byte.
pub open spec fn mix_byte(acc: u32, byte: u32) -> u32 {
    let a: u32 = acc.wrapping_add(byte);
    let b: u32 = a.wrapping_add(a << 10);
    b ^ (b >> 6)
}

/// Byte number `i` of `word`, least significant first.
pub open spec fn byte_of(word: u32, i: u32) -> u32 {
    (word >> (8 * i)) & 0xff
}

/// The accumulator after the lowest `count` bytes of `word` went in, least significant first.
pub open spec fn absorb_bytes(acc: u32, word: u32, count: u32) -> u32
    decreases count,
{
    if count == 0 {
        acc
    } else {
        mix_byte(absorb_bytes(acc, word, (count - 1) as u32), byte_of(word, (count - 1) as u32))
    }
}

/// The accumulator after the four bytes of `word` went in, least significant first.
pub open spec fn absorb(acc: u32, word: u32) -> u32 {
    absorb_bytes(acc, word, 4)
}

/// The final avalanche that turns an accumulator into a hash value.
pub open spec fn finish(acc: u32) -> u32 {
    let a: u32 = acc.wrapping_add(acc << 3);
    let b: u32 = a ^ (a >> 11);
    b.wrapping_add(b << 15)
}

/// Streaming hash accumulator.
pub struct Hash(pub u32);

impl Hash {
    /// A fresh accumulator.
    pub fn new() -> (h: Hash)
        ensures
            h.0 == 0,
    {
        Hash(0)
    }

    /// Returns the hash of everything absorbed so far and clears the accumulator.
    pub fn reset_final(&mut self) -> (r: u32)
        ensures
            r == finish(old(self).0),
            final(self).0 == 0,
    {
        let acc: u32 = self.0;
        self.0 = 0;
        let a: u32 = acc.wrapping_add(acc << 3);
        let b: u32 = a ^ (a >> 11);
        b.wrapping_add(b << 15)
    }

    /// Absorbs the four bytes of `seed`, least significant first.
    pub fn inc_seed_u32(&mut self, seed: u32)
        ensures
            final(self).0 == absorb(old(self).0, seed),
    {
        let mut hash: u32 = self.0;
        let mut i: u32 = 0;
        while i < 4
            invariant
                i <= 4,
                hash == absorb_bytes(old(self).0, seed, i),
            decreases 4 - i,
        {
            hash = hash.wrapping_add((seed >> (8 * i)) & 0xff);
            hash = hash.wrapping_add(hash << 10);
            hash ^= hash >> 6;
            i += 1;
        }
        self.0 = hash;
    }
}

} // verus!
