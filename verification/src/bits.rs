//! Fixed-size bit sets used by the board: one 71-bit grid per wall layer,
//! backed by `bitmaps::Bitmap`, and an 81-bit square set used by the path
//! search, backed by `fixedbitset::FixedBitSet`. Contracts speak of each
//! set's contents as a `Set<int>` of the indices whose bit is true.

use vstd::prelude::*;

verus! {

/// The set of indices whose bit is true in a `BitGrid`.
pub uninterp spec fn grid_bits(g: &BitGrid) -> Set<int>;

/// 71 bits, one per linear wall-anchor square, all false at construction.
#[verifier::external_body]
#[derive(Debug, Hash)]
pub struct BitGrid {
    bits: bitmaps::Bitmap<71>,
}

impl Clone for BitGrid {
    /// Relies on bitmaps::Bitmap being `Copy`: the copy holds the same bits.
    #[verifier::external_body]
    fn clone(&self) -> (r: BitGrid)
        ensures
            grid_bits(&r) == grid_bits(self),
    {
        BitGrid { bits: self.bits }
    }
}

impl BitGrid {
    /// Relies on bitmaps::Bitmap::new: every bit of a new bitmap is false.
    #[verifier::external_body]
    pub fn new() -> (r: BitGrid)
        ensures
            grid_bits(&r) == Set::<int>::empty(),
    {
        BitGrid { bits: bitmaps::Bitmap::new() }
    }

    /// Relies on bitmaps::Bitmap::get: the value of the bit at `index`.
    #[verifier::external_body]
    pub fn get(&self, index: usize) -> (r: bool)
        requires
            index < 71,
        ensures
            r == grid_bits(self).contains(index as int),
    {
        self.bits.get(index)
    }

    /// Relies on bitmaps::Bitmap::set: writes the bit at `index`, leaving
    /// every other bit as it was.
    #[verifier::external_body]
    pub fn set(&mut self, index: usize, value: bool)
        requires
            index < 71,
        ensures
            grid_bits(final(self)) == if value {
                grid_bits(old(self)).insert(index as int)
            } else {
                grid_bits(old(self)).remove(index as int)
            },
    {
        self.bits.set(index, value);
    }
}

/// The set of indices whose bit is true in a `SquareSet`.
pub uninterp spec fn square_bits(s: &SquareSet) -> Set<int>;

/// 81 bits, one per pawn square, all false at construction. The only
/// constructor fixes the backing set's length at 81, so `insert` below never
/// reaches the out-of-bounds panic in the backing crate.
#[verifier::external_body]
pub struct SquareSet {
    bits: fixedbitset::FixedBitSet,
}

impl SquareSet {
    /// Relies on fixedbitset::FixedBitSet::with_capacity: a new set with the
    /// given number of bits, all initially clear.
    #[verifier::external_body]
    pub fn new() -> (r: SquareSet)
        ensures
            square_bits(&r) == Set::<int>::empty(),
    {
        SquareSet { bits: fixedbitset::FixedBitSet::with_capacity(81) }
    }

    /// Relies on fixedbitset::FixedBitSet::contains: whether the bit at
    /// `index` is enabled.
    #[verifier::external_body]
    pub fn contains(&self, index: usize) -> (r: bool)
        requires
            index < 81,
        ensures
            r == square_bits(self).contains(index as int),
    {
        self.bits.contains(index)
    }

    /// Relies on fixedbitset::FixedBitSet::insert: enables the bit at
    /// `index`, leaving every other bit as it was; `index` is below the
    /// length fixed by the constructor, so the call cannot panic.
    #[verifier::external_body]
    pub fn insert(&mut self, index: usize)
        requires
            index < 81,
        ensures
            square_bits(final(self)) == square_bits(old(self)).insert(index as int),
    {
        self.bits.insert(index);
    }
}

} // verus!
