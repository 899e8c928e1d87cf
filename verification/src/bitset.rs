//! Small fixed-width bit-set helpers shared by the whole crate.
//!
//! Direction sets are 6-bit words, frustum test results are 16-bit words, and
//! section visibility data arrives as a 64-bit word; all of them are
//! manipulated through the [`BitSet`] trait below.

use vstd::prelude::*;

verus! {

/// Combines a list of bit-set words into their union.
pub fn from_elements_u8(elements: &[u8]) -> (r: u8)
    ensures
        r == or_all_u8(elements@),
{
    let mut combined: u8 = 0;

    let mut i: usize = 0;
    while i < elements.len()
        invariant
            i <= elements@.len(),
            combined == or_all_u8(elements@.take(i as int)),
        decreases elements@.len() - i,
    {
        proof {
            assert(elements@.take(i + 1).drop_last() =~= elements@.take(i as int));
        }
        combined = combined | elements[i];
        i = i + 1;
    }
    proof {
        assert(elements@.take(elements@.len() as int) =~= elements@);
    }
    combined
}

/// The union of a sequence of 8-bit sets.
pub open spec fn or_all_u8(s: Seq<u8>) -> u8
    decreases s.len(),
{
    if s.len() == 0 {
        0u8
    } else {
        or_all_u8(s.drop_last()) | s.last()
    }
}

/// True when every element of `other_bitset` is also in `bitset`.
pub fn contains_u8(bitset: u8, other_bitset: u8) -> (r: bool)
    ensures
        r == (bitset & other_bitset == other_bitset),
{
    bitset & other_bitset == other_bitset
}

/// True when every element of `other_bitset` is also in `bitset`.
pub fn contains_u16(bitset: u16, other_bitset: u16) -> (r: bool)
    ensures
        r == (bitset & other_bitset == other_bitset),
{
    bitset & other_bitset == other_bitset
}

/// Single-bit access on fixed-width words.
pub trait BitSet: Sized {
    /// Number of bits in the word.
    spec fn width() -> u8;

    /// The bit at position `idx`, as a spec-level view of the word.
    spec fn bit(self, idx: u8) -> bool;

    fn get_bit(self, idx: u8) -> (r: bool)
        requires
            idx < Self::width(),
        ensures
            r == self.bit(idx),
    ;

    fn set_bit(&mut self, idx: u8)
        requires
            idx < Self::width(),
        ensures
            forall|i: u8|
                i < Self::width() ==> final(self).bit(i) == (old(self).bit(i) || i == idx),
    ;

    fn clear_bit(&mut self, idx: u8)
        requires
            idx < Self::width(),
        ensures
            forall|i: u8|
                i < Self::width() ==> final(self).bit(i) == (old(self).bit(i) && i != idx),
    ;

    fn modify_bit(&mut self, idx: u8, value: bool)
        requires
            idx < Self::width(),
        ensures
            forall|i: u8|
                i < Self::width() ==> final(self).bit(i) == (if i == idx {
                    value
                } else {
                    old(self).bit(i)
                }),
    ;

    fn or_bit(&mut self, idx: u8, value: bool)
        requires
            idx < Self::width(),
        ensures
            forall|i: u8|
                i < Self::width() ==> final(self).bit(i) == (old(self).bit(i) || (i == idx
                    && value)),
    ;

    fn and_bit(&mut self, idx: u8, value: bool)
        requires
            idx < Self::width(),
        ensures
            forall|i: u8|
                i < Self::width() ==> final(self).bit(i) == (old(self).bit(i) && i == idx
                    && value),
    ;
}

impl BitSet for u8 {
    open spec fn width() -> u8 {
        8
    }

    open spec fn bit(self, idx: u8) -> bool {
        (self >> idx) & 1 == 1
    }

    fn get_bit(self, idx: u8) -> (r: bool) {
        (self >> idx) & 1 == 1
    }

    fn set_bit(&mut self, idx: u8) {
        *self = *self | (1u8 << idx);
        proof {
            let s = *old(self);
            assert(forall|i: u8|
                i < 8 && idx < 8 ==> (((s | (1u8 << idx)) >> i) & 1 == 1) == (((s >> i) & 1 == 1)
                    || i == idx)) by (bit_vector);
        }
    }

    fn clear_bit(&mut self, idx: u8) {
        *self = *self & !(1u8 << idx);
        proof {
            let s = *old(self);
            assert(forall|i: u8|
                i < 8 && idx < 8 ==> (((s & !(1u8 << idx)) >> i) & 1 == 1) == (((s >> i) & 1 == 1)
                    && i != idx)) by (bit_vector);
        }
    }

    fn modify_bit(&mut self, idx: u8, value: bool) {
        let v: u8 = if value {
            1
        } else {
            0
        };
        *self = (*self & !(1u8 << idx)) | (v << idx);
        proof {
            let s = *old(self);
            let t = *self;
            assert(forall|i: u8|
                i < 8 ==> (((t >> i) & 1 == 1) == (if i == idx {
                    v == 1
                } else {
                    (s >> i) & 1 == 1
                }))) by (bit_vector)
                requires
                    idx < 8,
                    v < 2,
                    t == ((s & !(1u8 << idx)) | (v << idx)),
            ;
        }
    }

    fn or_bit(&mut self, idx: u8, value: bool) {
        let v: u8 = if value {
            1
        } else {
            0
        };
        *self = *self | (v << idx);
        proof {
            let s = *old(self);
            let t = *self;
            assert(forall|i: u8|
                i < 8 ==> (((t >> i) & 1 == 1) == (((s >> i) & 1 == 1) || (i == idx && v
                    == 1)))) by (bit_vector)
                requires
                    idx < 8,
                    v < 2,
                    t == (s | (v << idx)),
            ;
        }
    }

    fn and_bit(&mut self, idx: u8, value: bool) {
        let v: u8 = if value {
            1
        } else {
            0
        };
        *self = *self & (v << idx);
        proof {
            let s = *old(self);
            let t = *self;
            assert(forall|i: u8|
                i < 8 ==> (((t >> i) & 1 == 1) == (((s >> i) & 1 == 1) && i == idx && v
                    == 1))) by (bit_vector)
                requires
                    idx < 8,
                    v < 2,
                    t == (s & (v << idx)),
            ;
        }
    }
}

impl BitSet for u16 {
    open spec fn width() -> u8 {
        16
    }

    open spec fn bit(self, idx: u8) -> bool {
        (self >> idx) & 1 == 1
    }

    fn get_bit(self, idx: u8) -> (r: bool) {
        (self >> idx) & 1 == 1
    }

    fn set_bit(&mut self, idx: u8) {
        *self = *self | (1u16 << idx);
        proof {
            let s = *old(self);
            assert(forall|i: u8|
                i < 16 && idx < 16 ==> (((s | (1u16 << idx)) >> i) & 1 == 1) == (((s >> i) & 1 == 1)
                    || i == idx)) by (bit_vector);
        }
    }

    fn clear_bit(&mut self, idx: u8) {
        *self = *self & !(1u16 << idx);
        proof {
            let s = *old(self);
            assert(forall|i: u8|
                i < 16 && idx < 16 ==> (((s & !(1u16 << idx)) >> i) & 1 == 1) == (((s >> i) & 1
                    == 1) && i != idx)) by (bit_vector);
        }
    }

    fn modify_bit(&mut self, idx: u8, value: bool) {
        let v: u16 = if value {
            1
        } else {
            0
        };
        *self = (*self & !(1u16 << idx)) | (v << idx);
        proof {
            let s = *old(self);
            let t = *self;
            assert(forall|i: u8|
                i < 16 ==> (((t >> i) & 1 == 1) == (if i == idx {
                    v == 1
                } else {
                    (s >> i) & 1 == 1
                }))) by (bit_vector)
                requires
                    idx < 16,
                    v < 2,
                    t == ((s & !(1u16 << idx)) | (v << idx)),
            ;
        }
    }

    fn or_bit(&mut self, idx: u8, value: bool) {
        let v: u16 = if value {
            1
        } else {
            0
        };
        *self = *self | (v << idx);
        proof {
            let s = *old(self);
            let t = *self;
            assert(forall|i: u8|
                i < 16 ==> (((t >> i) & 1 == 1) == (((s >> i) & 1 == 1) || (i == idx && v
                    == 1)))) by (bit_vector)
                requires
                    idx < 16,
                    v < 2,
                    t == (s | (v << idx)),
            ;
        }
    }

    fn and_bit(&mut self, idx: u8, value: bool) {
        let v: u16 = if value {
            1
        } else {
            0
        };
        *self = *self & (v << idx);
        proof {
            let s = *old(self);
            let t = *self;
            assert(forall|i: u8|
                i < 16 ==> (((t >> i) & 1 == 1) == (((s >> i) & 1 == 1) && i == idx && v
                    == 1))) by (bit_vector)
                requires
                    idx < 16,
                    v < 2,
                    t == (s & (v << idx)),
            ;
        }
    }
}

impl BitSet for u64 {
    open spec fn width() -> u8 {
        64
    }

    open spec fn bit(self, idx: u8) -> bool {
        (self >> idx) & 1 == 1
    }

    fn get_bit(self, idx: u8) -> (r: bool) {
        (self >> idx) & 1 == 1
    }

    fn set_bit(&mut self, idx: u8) {
        *self = *self | (1u64 << idx);
        proof {
            let s = *old(self);
            assert(forall|i: u8|
                i < 64 && idx < 64 ==> (((s | (1u64 << idx)) >> i) & 1 == 1) == (((s >> i) & 1 == 1)
                    || i == idx)) by (bit_vector);
        }
    }

    fn clear_bit(&mut self, idx: u8) {
        *self = *self & !(1u64 << idx);
        proof {
            let s = *old(self);
            assert(forall|i: u8|
                i < 64 && idx < 64 ==> (((s & !(1u64 << idx)) >> i) & 1 == 1) == (((s >> i) & 1
                    == 1) && i != idx)) by (bit_vector);
        }
    }

    fn modify_bit(&mut self, idx: u8, value: bool) {
        let v: u64 = if value {
            1
        } else {
            0
        };
        *self = (*self & !(1u64 << idx)) | (v << idx);
        proof {
            let s = *old(self);
            let t = *self;
            assert(forall|i: u8|
                i < 64 ==> (((t >> i) & 1 == 1) == (if i == idx {
                    v == 1
                } else {
                    (s >> i) & 1 == 1
                }))) by (bit_vector)
                requires
                    idx < 64,
                    v < 2,
                    t == ((s & !(1u64 << idx)) | (v << idx)),
            ;
        }
    }

    fn or_bit(&mut self, idx: u8, value: bool) {
        let v: u64 = if value {
            1
        } else {
            0
        };
        *self = *self | (v << idx);
        proof {
            let s = *old(self);
            let t = *self;
            assert(forall|i: u8|
                i < 64 ==> (((t >> i) & 1 == 1) == (((s >> i) & 1 == 1) || (i == idx && v
                    == 1)))) by (bit_vector)
                requires
                    idx < 64,
                    v < 2,
                    t == (s | (v << idx)),
            ;
        }
    }

    fn and_bit(&mut self, idx: u8, value: bool) {
        let v: u64 = if value {
            1
        } else {
            0
        };
        *self = *self & (v << idx);
        proof {
            let s = *old(self);
            let t = *self;
            assert(forall|i: u8|
                i < 64 ==> (((t >> i) & 1 == 1) == (((s >> i) & 1 == 1) && i == idx && v
                    == 1))) by (bit_vector)
                requires
                    idx < 64,
                    v < 2,
                    t == (s & (v << idx)),
            ;
        }
    }
}

} // verus!
