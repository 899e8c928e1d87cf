//! The 512-bit section vector of one tile.
//!
//! A tile is an 8x8x8 cube of sections; each section owns one bit. The bit
//! for local section coordinates `(x, y, z)` sits at index
//! `(y << 6) | (z << 3) | x`, so each byte is an X-row at fixed `(y, z)` and
//! each 64-bit lane is a full Y-layer. The cube is stored as eight `u64`
//! lanes, one per Y-layer, which makes the per-axis shifts and face
//! extractions of the occlusion traversal cheap word operations.

use vstd::prelude::*;

verus! {

/// The bit at position `n` of a 64-bit lane.
pub open spec fn lane_bit(w: u64, n: u64) -> bool {
    (w >> n) & 1 == 1
}

/// The bit at position `n` of a byte.
pub open spec fn byte_bit(w: u8, n: u8) -> bool {
    (w >> n) & 1 == 1
}

/// One tile's worth of section bits: eight Y-layer lanes.
#[derive(Clone, Copy, Debug)]
pub struct SectionSet {
    pub l0: u64,
    pub l1: u64,
    pub l2: u64,
    pub l3: u64,
    pub l4: u64,
    pub l5: u64,
    pub l6: u64,
    pub l7: u64,
}

impl SectionSet {
    /// The lane holding Y-layer `y`.
    pub open spec fn lane(self, y: int) -> u64 {
        if y == 0 {
            self.l0
        } else if y == 1 {
            self.l1
        } else if y == 2 {
            self.l2
        } else if y == 3 {
            self.l3
        } else if y == 4 {
            self.l4
        } else if y == 5 {
            self.l5
        } else if y == 6 {
            self.l6
        } else {
            self.l7
        }
    }

    /// The section bit at local coordinates `(x, y, z)`.
    pub open spec fn bit(self, x: u64, y: u64, z: u64) -> bool
        recommends
            x < 8,
            y < 8,
            z < 8,
    {
        lane_bit(self.lane(y as int), (z * 8 + x) as u64)
    }

    /// The section bit at packed index `(y << 6) | (z << 3) | x`.
    pub open spec fn index_bit(self, i: int) -> bool
        recommends
            0 <= i < 512,
    {
        lane_bit(self.lane(i / 64), (i % 64) as u64)
    }

    /// No section is set.
    pub open spec fn is_empty_spec(self) -> bool {
        self == SectionSet::empty_spec()
    }

    pub open spec fn empty_spec() -> SectionSet {
        SectionSet { l0: 0, l1: 0, l2: 0, l3: 0, l4: 0, l5: 0, l6: 0, l7: 0 }
    }

    pub open spec fn filled_spec() -> SectionSet {
        SectionSet {
            l0: 0xFFFF_FFFF_FFFF_FFFF,
            l1: 0xFFFF_FFFF_FFFF_FFFF,
            l2: 0xFFFF_FFFF_FFFF_FFFF,
            l3: 0xFFFF_FFFF_FFFF_FFFF,
            l4: 0xFFFF_FFFF_FFFF_FFFF,
            l5: 0xFFFF_FFFF_FFFF_FFFF,
            l6: 0xFFFF_FFFF_FFFF_FFFF,
            l7: 0xFFFF_FFFF_FFFF_FFFF,
        }
    }

    pub fn empty() -> (r: SectionSet)
        ensures
            r == SectionSet::empty_spec(),
    {
        SectionSet { l0: 0, l1: 0, l2: 0, l3: 0, l4: 0, l5: 0, l6: 0, l7: 0 }
    }

    pub fn filled() -> (r: SectionSet)
        ensures
            r == SectionSet::filled_spec(),
    {
        SectionSet {
            l0: 0xFFFF_FFFF_FFFF_FFFF,
            l1: 0xFFFF_FFFF_FFFF_FFFF,
            l2: 0xFFFF_FFFF_FFFF_FFFF,
            l3: 0xFFFF_FFFF_FFFF_FFFF,
            l4: 0xFFFF_FFFF_FFFF_FFFF,
            l5: 0xFFFF_FFFF_FFFF_FFFF,
            l6: 0xFFFF_FFFF_FFFF_FFFF,
            l7: 0xFFFF_FFFF_FFFF_FFFF,
        }
    }

    /// The eight lanes as little-endian 64-bit words, the wire format of a
    /// tile's visible sections.
    pub fn to_words(&self) -> (r: [u64; 8])
        ensures
            r@ == seq![self.l0, self.l1, self.l2, self.l3, self.l4, self.l5, self.l6, self.l7],
    {
        let r = [self.l0, self.l1, self.l2, self.l3, self.l4, self.l5, self.l6, self.l7];
        proof {
            assert(r@ =~= seq![self.l0, self.l1, self.l2, self.l3, self.l4, self.l5, self.l6,
                self.l7]);
        }
        r
    }

    pub fn and(&self, other: &SectionSet) -> (r: SectionSet)
        ensures
            r == spec_and(*self, *other),
            forall|x: u64, y: u64, z: u64|
                x < 8 && y < 8 && z < 8 ==> #[trigger] r.bit(x, y, z) == (self.bit(x, y, z)
                    && other.bit(x, y, z)),
            forall|i: int|
                0 <= i < 512 ==> #[trigger] r.index_bit(i) == (self.index_bit(i)
                    && other.index_bit(i)),
    {
        let r = SectionSet {
            l0: self.l0 & other.l0,
            l1: self.l1 & other.l1,
            l2: self.l2 & other.l2,
            l3: self.l3 & other.l3,
            l4: self.l4 & other.l4,
            l5: self.l5 & other.l5,
            l6: self.l6 & other.l6,
            l7: self.l7 & other.l7,
        };
        proof {
            lemma_lane_and_or(self.l0, other.l0);
            lemma_lane_and_or(self.l1, other.l1);
            lemma_lane_and_or(self.l2, other.l2);
            lemma_lane_and_or(self.l3, other.l3);
            lemma_lane_and_or(self.l4, other.l4);
            lemma_lane_and_or(self.l5, other.l5);
            lemma_lane_and_or(self.l6, other.l6);
            lemma_lane_and_or(self.l7, other.l7);
            assert forall|x: u64, y: u64, z: u64| x < 8 && y < 8 && z < 8 implies #[trigger] r.bit(
                x,
                y,
                z,
            ) == (self.bit(x, y, z) && other.bit(x, y, z)) by {
                assert(z * 8 + x < 64);
            }
            assert forall|i: int| 0 <= i < 512 implies #[trigger] r.index_bit(i) == (
            self.index_bit(i) && other.index_bit(i)) by {
                vstd::arithmetic::div_mod::lemma_fundamental_div_mod(i, 64);
                assert(0 <= i / 64 < 8) by (nonlinear_arith)
                    requires
                        0 <= i < 512,
                ;
            }
        }
        r
    }

    pub fn or(&self, other: &SectionSet) -> (r: SectionSet)
        ensures
            r == spec_or(*self, *other),
            forall|x: u64, y: u64, z: u64|
                x < 8 && y < 8 && z < 8 ==> #[trigger] r.bit(x, y, z) == (self.bit(x, y, z)
                    || other.bit(x, y, z)),
            forall|i: int|
                0 <= i < 512 ==> #[trigger] r.index_bit(i) == (self.index_bit(i)
                    || other.index_bit(i)),
    {
        let r = SectionSet {
            l0: self.l0 | other.l0,
            l1: self.l1 | other.l1,
            l2: self.l2 | other.l2,
            l3: self.l3 | other.l3,
            l4: self.l4 | other.l4,
            l5: self.l5 | other.l5,
            l6: self.l6 | other.l6,
            l7: self.l7 | other.l7,
        };
        proof {
            lemma_lane_and_or(self.l0, other.l0);
            lemma_lane_and_or(self.l1, other.l1);
            lemma_lane_and_or(self.l2, other.l2);
            lemma_lane_and_or(self.l3, other.l3);
            lemma_lane_and_or(self.l4, other.l4);
            lemma_lane_and_or(self.l5, other.l5);
            lemma_lane_and_or(self.l6, other.l6);
            lemma_lane_and_or(self.l7, other.l7);
            assert forall|x: u64, y: u64, z: u64| x < 8 && y < 8 && z < 8 implies #[trigger] r.bit(
                x,
                y,
                z,
            ) == (self.bit(x, y, z) || other.bit(x, y, z)) by {
                assert(z * 8 + x < 64);
            }
            assert forall|i: int| 0 <= i < 512 implies #[trigger] r.index_bit(i) == (
            self.index_bit(i) || other.index_bit(i)) by {
                vstd::arithmetic::div_mod::lemma_fundamental_div_mod(i, 64);
                assert(0 <= i / 64 < 8) by (nonlinear_arith)
                    requires
                        0 <= i < 512,
                ;
            }
        }
        r
    }

    pub fn equals(&self, other: &SectionSet) -> (r: bool)
        ensures
            r == (*self == *other),
    {
        self.l0 == other.l0 && self.l1 == other.l1 && self.l2 == other.l2 && self.l3 == other.l3
            && self.l4 == other.l4 && self.l5 == other.l5 && self.l6 == other.l6 && self.l7
            == other.l7
    }

    pub fn is_empty(&self) -> (r: bool)
        ensures
            r == self.is_empty_spec(),
    {
        self.l0 == 0 && self.l1 == 0 && self.l2 == 0 && self.l3 == 0 && self.l4 == 0 && self.l5
            == 0 && self.l6 == 0 && self.l7 == 0
    }
}

/// No bit is set in a zero lane, and every bit is set in a full one.
pub proof fn lemma_lane_extremes()
    by (bit_vector)
    ensures
        forall|n: u64| n < 64 ==> !(#[trigger] lane_bit(0u64, n)),
        forall|n: u64| n < 64 ==> #[trigger] lane_bit(0xFFFF_FFFF_FFFF_FFFFu64, n),
{
}

/// Bitwise AND and OR of lanes act bit-by-bit.
pub proof fn lemma_lane_and_or(a: u64, b: u64)
    ensures
        forall|n: u64| n < 64 ==> #[trigger] lane_bit(a & b, n) == (lane_bit(a, n) && lane_bit(b, n)),
        forall|n: u64| n < 64 ==> #[trigger] lane_bit(a | b, n) == (lane_bit(a, n) || lane_bit(b, n)),
{
    assert(forall|n: u64|
        n < 64 ==> (((a & b) >> n) & 1 == 1) == (((a >> n) & 1 == 1) && ((b >> n) & 1 == 1)))
        by (bit_vector);
    assert(forall|n: u64|
        n < 64 ==> (((a | b) >> n) & 1 == 1) == (((a >> n) & 1 == 1) || ((b >> n) & 1 == 1)))
        by (bit_vector);
}


/// How each lane-level word operation moves individual bits.
///
/// Within a lane, bit `n` sits at X-row position `n % 8` of Z-row `n / 8`.
/// The X operations shift within each byte; the Z operations shift whole
/// bytes; the edge operations carry one face of the cube to the opposite
/// face, dropping everything else.
pub proof fn lemma_lane_shifts(a: u64)
    by (bit_vector)
    ensures
        forall|n: u64|
            n < 64 ==> #[trigger] lane_bit((a << 1) & 0xFEFE_FEFE_FEFE_FEFEu64, n) == (n % 8 != 0
                && lane_bit(a, (n - 1) as u64)),
        forall|n: u64|
            n < 64 ==> #[trigger] lane_bit((a >> 1) & 0x7F7F_7F7F_7F7F_7F7Fu64, n) == (n % 8 != 7
                && lane_bit(a, (n + 1) as u64)),
        forall|n: u64|
            n < 64 ==> #[trigger] lane_bit(a << 8, n) == (n >= 8 && lane_bit(a, (n - 8) as u64)),
        forall|n: u64|
            n < 64 ==> #[trigger] lane_bit(a >> 8, n) == (n < 56 && lane_bit(a, (n + 8) as u64)),
        forall|n: u64|
            n < 64 ==> #[trigger] lane_bit((a & 0x0101_0101_0101_0101u64) << 7, n) == (n % 8 == 7
                && lane_bit(a, (n - 7) as u64)),
        forall|n: u64|
            n < 64 ==> #[trigger] lane_bit((a >> 7) & 0x0101_0101_0101_0101u64, n) == (n % 8 == 0
                && lane_bit(a, (n + 7) as u64)),
        forall|n: u64|
            n < 64 ==> #[trigger] lane_bit((a & 0xFFu64) << 56, n) == (n >= 56 && lane_bit(
                a,
                (n - 56) as u64,
            )),
        forall|n: u64|
            n < 64 ==> #[trigger] lane_bit(a >> 56, n) == (n < 8 && lane_bit(a, (n + 56) as u64)),
{
}

/// Every section moved one step towards negative X; the X = 7 face empties.
pub open spec fn shift_neg_x_spec(s: SectionSet) -> SectionSet {
    SectionSet {
        l0: (s.l0 >> 1) & 0x7F7F_7F7F_7F7F_7F7F,
        l1: (s.l1 >> 1) & 0x7F7F_7F7F_7F7F_7F7F,
        l2: (s.l2 >> 1) & 0x7F7F_7F7F_7F7F_7F7F,
        l3: (s.l3 >> 1) & 0x7F7F_7F7F_7F7F_7F7F,
        l4: (s.l4 >> 1) & 0x7F7F_7F7F_7F7F_7F7F,
        l5: (s.l5 >> 1) & 0x7F7F_7F7F_7F7F_7F7F,
        l6: (s.l6 >> 1) & 0x7F7F_7F7F_7F7F_7F7F,
        l7: (s.l7 >> 1) & 0x7F7F_7F7F_7F7F_7F7F,
    }
}

pub proof fn lemma_shift_neg_x_bits(s: SectionSet)
    ensures
        forall|x: u64, y: u64, z: u64|
            x < 8 && y < 8 && z < 8 ==> #[trigger] shift_neg_x_spec(s).bit(x, y, z) == (x < 7
                && s.bit((x + 1) as u64, y, z)),
{
    lemma_lane_shifts(s.l0);
    lemma_lane_shifts(s.l1);
    lemma_lane_shifts(s.l2);
    lemma_lane_shifts(s.l3);
    lemma_lane_shifts(s.l4);
    lemma_lane_shifts(s.l5);
    lemma_lane_shifts(s.l6);
    lemma_lane_shifts(s.l7);
    assert forall|x: u64, y: u64, z: u64| x < 8 && y < 8 && z < 8 implies #[trigger] shift_neg_x_spec(
        s,
    ).bit(x, y, z) == (x < 7 && s.bit((x + 1) as u64, y, z)) by {
        let n = (z * 8 + x) as u64;
        assert(n < 64 && n % 8 == x) by (nonlinear_arith)
            requires
                x < 8 && z < 8 && n == z * 8 + x,
        ;
    }
}

pub fn shift_neg_x(sections: SectionSet) -> (r: SectionSet)
    ensures
        r == shift_neg_x_spec(sections),
{
    SectionSet {
        l0: (sections.l0 >> 1) & 0x7F7F_7F7F_7F7F_7F7F,
        l1: (sections.l1 >> 1) & 0x7F7F_7F7F_7F7F_7F7F,
        l2: (sections.l2 >> 1) & 0x7F7F_7F7F_7F7F_7F7F,
        l3: (sections.l3 >> 1) & 0x7F7F_7F7F_7F7F_7F7F,
        l4: (sections.l4 >> 1) & 0x7F7F_7F7F_7F7F_7F7F,
        l5: (sections.l5 >> 1) & 0x7F7F_7F7F_7F7F_7F7F,
        l6: (sections.l6 >> 1) & 0x7F7F_7F7F_7F7F_7F7F,
        l7: (sections.l7 >> 1) & 0x7F7F_7F7F_7F7F_7F7F,
    }
}

/// Every section moved one step towards positive X; the X = 0 face empties.
pub open spec fn shift_pos_x_spec(s: SectionSet) -> SectionSet {
    SectionSet {
        l0: (s.l0 << 1) & 0xFEFE_FEFE_FEFE_FEFE,
        l1: (s.l1 << 1) & 0xFEFE_FEFE_FEFE_FEFE,
        l2: (s.l2 << 1) & 0xFEFE_FEFE_FEFE_FEFE,
        l3: (s.l3 << 1) & 0xFEFE_FEFE_FEFE_FEFE,
        l4: (s.l4 << 1) & 0xFEFE_FEFE_FEFE_FEFE,
        l5: (s.l5 << 1) & 0xFEFE_FEFE_FEFE_FEFE,
        l6: (s.l6 << 1) & 0xFEFE_FEFE_FEFE_FEFE,
        l7: (s.l7 << 1) & 0xFEFE_FEFE_FEFE_FEFE,
    }
}

pub proof fn lemma_shift_pos_x_bits(s: SectionSet)
    ensures
        forall|x: u64, y: u64, z: u64|
            x < 8 && y < 8 && z < 8 ==> #[trigger] shift_pos_x_spec(s).bit(x, y, z) == (x > 0
                && s.bit((x - 1) as u64, y, z)),
{
    lemma_lane_shifts(s.l0);
    lemma_lane_shifts(s.l1);
    lemma_lane_shifts(s.l2);
    lemma_lane_shifts(s.l3);
    lemma_lane_shifts(s.l4);
    lemma_lane_shifts(s.l5);
    lemma_lane_shifts(s.l6);
    lemma_lane_shifts(s.l7);
    assert forall|x: u64, y: u64, z: u64| x < 8 && y < 8 && z < 8 implies #[trigger] shift_pos_x_spec(
        s,
    ).bit(x, y, z) == (x > 0 && s.bit((x - 1) as u64, y, z)) by {
        let n = (z * 8 + x) as u64;
        assert(n < 64 && n % 8 == x) by (nonlinear_arith)
            requires
                x < 8 && z < 8 && n == z * 8 + x,
        ;
    }
}

pub fn shift_pos_x(sections: SectionSet) -> (r: SectionSet)
    ensures
        r == shift_pos_x_spec(sections),
{
    SectionSet {
        l0: (sections.l0 << 1) & 0xFEFE_FEFE_FEFE_FEFE,
        l1: (sections.l1 << 1) & 0xFEFE_FEFE_FEFE_FEFE,
        l2: (sections.l2 << 1) & 0xFEFE_FEFE_FEFE_FEFE,
        l3: (sections.l3 << 1) & 0xFEFE_FEFE_FEFE_FEFE,
        l4: (sections.l4 << 1) & 0xFEFE_FEFE_FEFE_FEFE,
        l5: (sections.l5 << 1) & 0xFEFE_FEFE_FEFE_FEFE,
        l6: (sections.l6 << 1) & 0xFEFE_FEFE_FEFE_FEFE,
        l7: (sections.l7 << 1) & 0xFEFE_FEFE_FEFE_FEFE,
    }
}

/// Every section moved one step towards negative Z; the Z = 7 face empties.
pub open spec fn shift_neg_z_spec(s: SectionSet) -> SectionSet {
    SectionSet {
        l0: s.l0 >> 8,
        l1: s.l1 >> 8,
        l2: s.l2 >> 8,
        l3: s.l3 >> 8,
        l4: s.l4 >> 8,
        l5: s.l5 >> 8,
        l6: s.l6 >> 8,
        l7: s.l7 >> 8,
    }
}

pub proof fn lemma_shift_neg_z_bits(s: SectionSet)
    ensures
        forall|x: u64, y: u64, z: u64|
            x < 8 && y < 8 && z < 8 ==> #[trigger] shift_neg_z_spec(s).bit(x, y, z) == (z < 7
                && s.bit(x, y, (z + 1) as u64)),
{
    lemma_lane_shifts(s.l0);
    lemma_lane_shifts(s.l1);
    lemma_lane_shifts(s.l2);
    lemma_lane_shifts(s.l3);
    lemma_lane_shifts(s.l4);
    lemma_lane_shifts(s.l5);
    lemma_lane_shifts(s.l6);
    lemma_lane_shifts(s.l7);
    assert forall|x: u64, y: u64, z: u64| x < 8 && y < 8 && z < 8 implies #[trigger] shift_neg_z_spec(
        s,
    ).bit(x, y, z) == (z < 7 && s.bit(x, y, (z + 1) as u64)) by {
        let n = (z * 8 + x) as u64;
        assert(n < 64 && (n < 56 <==> z < 7) && (z < 7 ==> n + 8 == (z + 1) * 8 + x))
            by (nonlinear_arith)
            requires
                x < 8 && z < 8 && n == z * 8 + x,
        ;
    }
}

pub fn shift_neg_z(sections: SectionSet) -> (r: SectionSet)
    ensures
        r == shift_neg_z_spec(sections),
{
    SectionSet {
        l0: sections.l0 >> 8,
        l1: sections.l1 >> 8,
        l2: sections.l2 >> 8,
        l3: sections.l3 >> 8,
        l4: sections.l4 >> 8,
        l5: sections.l5 >> 8,
        l6: sections.l6 >> 8,
        l7: sections.l7 >> 8,
    }
}

/// Every section moved one step towards positive Z; the Z = 0 face empties.
pub open spec fn shift_pos_z_spec(s: SectionSet) -> SectionSet {
    SectionSet {
        l0: s.l0 << 8,
        l1: s.l1 << 8,
        l2: s.l2 << 8,
        l3: s.l3 << 8,
        l4: s.l4 << 8,
        l5: s.l5 << 8,
        l6: s.l6 << 8,
        l7: s.l7 << 8,
    }
}

pub proof fn lemma_shift_pos_z_bits(s: SectionSet)
    ensures
        forall|x: u64, y: u64, z: u64|
            x < 8 && y < 8 && z < 8 ==> #[trigger] shift_pos_z_spec(s).bit(x, y, z) == (z > 0
                && s.bit(x, y, (z - 1) as u64)),
{
    lemma_lane_shifts(s.l0);
    lemma_lane_shifts(s.l1);
    lemma_lane_shifts(s.l2);
    lemma_lane_shifts(s.l3);
    lemma_lane_shifts(s.l4);
    lemma_lane_shifts(s.l5);
    lemma_lane_shifts(s.l6);
    lemma_lane_shifts(s.l7);
    assert forall|x: u64, y: u64, z: u64| x < 8 && y < 8 && z < 8 implies #[trigger] shift_pos_z_spec(
        s,
    ).bit(x, y, z) == (z > 0 && s.bit(x, y, (z - 1) as u64)) by {
        let n = (z * 8 + x) as u64;
        assert(n < 64 && (n >= 8 <==> z > 0) && (z > 0 ==> n - 8 == (z - 1) * 8 + x))
            by (nonlinear_arith)
            requires
                x < 8 && z < 8 && n == z * 8 + x,
        ;
    }
}

pub fn shift_pos_z(sections: SectionSet) -> (r: SectionSet)
    ensures
        r == shift_pos_z_spec(sections),
{
    SectionSet {
        l0: sections.l0 << 8,
        l1: sections.l1 << 8,
        l2: sections.l2 << 8,
        l3: sections.l3 << 8,
        l4: sections.l4 << 8,
        l5: sections.l5 << 8,
        l6: sections.l6 << 8,
        l7: sections.l7 << 8,
    }
}

/// Every section moved one step towards negative Y; the Y = 7 layer empties.
pub open spec fn shift_neg_y_spec(s: SectionSet) -> SectionSet {
    SectionSet {
        l0: s.l1,
        l1: s.l2,
        l2: s.l3,
        l3: s.l4,
        l4: s.l5,
        l5: s.l6,
        l6: s.l7,
        l7: 0,
    }
}

pub proof fn lemma_shift_neg_y_bits(s: SectionSet)
    ensures
        forall|x: u64, y: u64, z: u64|
            x < 8 && y < 8 && z < 8 ==> #[trigger] shift_neg_y_spec(s).bit(x, y, z) == (y < 7
                && s.bit(x, (y + 1) as u64, z)),
{
    lemma_lane_extremes();
    assert forall|x: u64, y: u64, z: u64| x < 8 && y < 8 && z < 8 implies #[trigger] shift_neg_y_spec(
        s,
    ).bit(x, y, z) == (y < 7 && s.bit(x, (y + 1) as u64, z)) by {
        assert(z * 8 + x < 64);
    }
}

pub fn shift_neg_y(sections: SectionSet) -> (r: SectionSet)
    ensures
        r == shift_neg_y_spec(sections),
{
    SectionSet {
        l0: sections.l1,
        l1: sections.l2,
        l2: sections.l3,
        l3: sections.l4,
        l4: sections.l5,
        l5: sections.l6,
        l6: sections.l7,
        l7: 0,
    }
}

/// Every section moved one step towards positive Y; the Y = 0 layer empties.
pub open spec fn shift_pos_y_spec(s: SectionSet) -> SectionSet {
    SectionSet {
        l0: 0,
        l1: s.l0,
        l2: s.l1,
        l3: s.l2,
        l4: s.l3,
        l5: s.l4,
        l6: s.l5,
        l7: s.l6,
    }
}

pub proof fn lemma_shift_pos_y_bits(s: SectionSet)
    ensures
        forall|x: u64, y: u64, z: u64|
            x < 8 && y < 8 && z < 8 ==> #[trigger] shift_pos_y_spec(s).bit(x, y, z) == (y > 0
                && s.bit(x, (y - 1) as u64, z)),
{
    lemma_lane_extremes();
    assert forall|x: u64, y: u64, z: u64| x < 8 && y < 8 && z < 8 implies #[trigger] shift_pos_y_spec(
        s,
    ).bit(x, y, z) == (y > 0 && s.bit(x, (y - 1) as u64, z)) by {
        assert(z * 8 + x < 64);
    }
}

pub fn shift_pos_y(sections: SectionSet) -> (r: SectionSet)
    ensures
        r == shift_pos_y_spec(sections),
{
    SectionSet {
        l0: 0,
        l1: sections.l0,
        l2: sections.l1,
        l3: sections.l2,
        l4: sections.l3,
        l5: sections.l4,
        l6: sections.l5,
        l7: sections.l6,
    }
}

/// The X = 0 face carried over to the X = 7 face; everything else empties.
pub open spec fn edge_neg_to_pos_x_spec(s: SectionSet) -> SectionSet {
    SectionSet {
        l0: (s.l0 & 0x0101_0101_0101_0101) << 7,
        l1: (s.l1 & 0x0101_0101_0101_0101) << 7,
        l2: (s.l2 & 0x0101_0101_0101_0101) << 7,
        l3: (s.l3 & 0x0101_0101_0101_0101) << 7,
        l4: (s.l4 & 0x0101_0101_0101_0101) << 7,
        l5: (s.l5 & 0x0101_0101_0101_0101) << 7,
        l6: (s.l6 & 0x0101_0101_0101_0101) << 7,
        l7: (s.l7 & 0x0101_0101_0101_0101) << 7,
    }
}

pub proof fn lemma_edge_neg_to_pos_x_bits(s: SectionSet)
    ensures
        forall|x: u64, y: u64, z: u64|
            x < 8 && y < 8 && z < 8 ==> #[trigger] edge_neg_to_pos_x_spec(s).bit(x, y, z) == (x == 7
                && s.bit(0, y, z)),
{
    lemma_lane_shifts(s.l0);
    lemma_lane_shifts(s.l1);
    lemma_lane_shifts(s.l2);
    lemma_lane_shifts(s.l3);
    lemma_lane_shifts(s.l4);
    lemma_lane_shifts(s.l5);
    lemma_lane_shifts(s.l6);
    lemma_lane_shifts(s.l7);
    assert forall|x: u64, y: u64, z: u64|
        x < 8 && y < 8 && z < 8 implies #[trigger] edge_neg_to_pos_x_spec(s).bit(x, y, z) == (x == 7
        && s.bit(0, y, z)) by {
        let n = (z * 8 + x) as u64;
        assert(n < 64 && n % 8 == x && (x == 7 ==> n - 7 == z * 8)) by (nonlinear_arith)
            requires
                x < 8 && z < 8 && n == z * 8 + x,
        ;
    }
}

pub fn edge_neg_to_pos_x(sections: SectionSet) -> (r: SectionSet)
    ensures
        r == edge_neg_to_pos_x_spec(sections),
{
    SectionSet {
        l0: (sections.l0 & 0x0101_0101_0101_0101) << 7,
        l1: (sections.l1 & 0x0101_0101_0101_0101) << 7,
        l2: (sections.l2 & 0x0101_0101_0101_0101) << 7,
        l3: (sections.l3 & 0x0101_0101_0101_0101) << 7,
        l4: (sections.l4 & 0x0101_0101_0101_0101) << 7,
        l5: (sections.l5 & 0x0101_0101_0101_0101) << 7,
        l6: (sections.l6 & 0x0101_0101_0101_0101) << 7,
        l7: (sections.l7 & 0x0101_0101_0101_0101) << 7,
    }
}

/// The X = 7 face carried over to the X = 0 face; everything else empties.
pub open spec fn edge_pos_to_neg_x_spec(s: SectionSet) -> SectionSet {
    SectionSet {
        l0: (s.l0 >> 7) & 0x0101_0101_0101_0101,
        l1: (s.l1 >> 7) & 0x0101_0101_0101_0101,
        l2: (s.l2 >> 7) & 0x0101_0101_0101_0101,
        l3: (s.l3 >> 7) & 0x0101_0101_0101_0101,
        l4: (s.l4 >> 7) & 0x0101_0101_0101_0101,
        l5: (s.l5 >> 7) & 0x0101_0101_0101_0101,
        l6: (s.l6 >> 7) & 0x0101_0101_0101_0101,
        l7: (s.l7 >> 7) & 0x0101_0101_0101_0101,
    }
}

pub proof fn lemma_edge_pos_to_neg_x_bits(s: SectionSet)
    ensures
        forall|x: u64, y: u64, z: u64|
            x < 8 && y < 8 && z < 8 ==> #[trigger] edge_pos_to_neg_x_spec(s).bit(x, y, z) == (x == 0
                && s.bit(7, y, z)),
{
    lemma_lane_shifts(s.l0);
    lemma_lane_shifts(s.l1);
    lemma_lane_shifts(s.l2);
    lemma_lane_shifts(s.l3);
    lemma_lane_shifts(s.l4);
    lemma_lane_shifts(s.l5);
    lemma_lane_shifts(s.l6);
    lemma_lane_shifts(s.l7);
    assert forall|x: u64, y: u64, z: u64|
        x < 8 && y < 8 && z < 8 implies #[trigger] edge_pos_to_neg_x_spec(s).bit(x, y, z) == (x == 0
        && s.bit(7, y, z)) by {
        let n = (z * 8 + x) as u64;
        assert(n < 64 && n % 8 == x && (x == 0 ==> n + 7 == z * 8 + 7)) by (nonlinear_arith)
            requires
                x < 8 && z < 8 && n == z * 8 + x,
        ;
    }
}

pub fn edge_pos_to_neg_x(sections: SectionSet) -> (r: SectionSet)
    ensures
        r == edge_pos_to_neg_x_spec(sections),
{
    SectionSet {
        l0: (sections.l0 >> 7) & 0x0101_0101_0101_0101,
        l1: (sections.l1 >> 7) & 0x0101_0101_0101_0101,
        l2: (sections.l2 >> 7) & 0x0101_0101_0101_0101,
        l3: (sections.l3 >> 7) & 0x0101_0101_0101_0101,
        l4: (sections.l4 >> 7) & 0x0101_0101_0101_0101,
        l5: (sections.l5 >> 7) & 0x0101_0101_0101_0101,
        l6: (sections.l6 >> 7) & 0x0101_0101_0101_0101,
        l7: (sections.l7 >> 7) & 0x0101_0101_0101_0101,
    }
}

/// The Z = 0 face carried over to the Z = 7 face; everything else empties.
pub open spec fn edge_neg_to_pos_z_spec(s: SectionSet) -> SectionSet {
    SectionSet {
        l0: (s.l0 & 0xFF) << 56,
        l1: (s.l1 & 0xFF) << 56,
        l2: (s.l2 & 0xFF) << 56,
        l3: (s.l3 & 0xFF) << 56,
        l4: (s.l4 & 0xFF) << 56,
        l5: (s.l5 & 0xFF) << 56,
        l6: (s.l6 & 0xFF) << 56,
        l7: (s.l7 & 0xFF) << 56,
    }
}

pub proof fn lemma_edge_neg_to_pos_z_bits(s: SectionSet)
    ensures
        forall|x: u64, y: u64, z: u64|
            x < 8 && y < 8 && z < 8 ==> #[trigger] edge_neg_to_pos_z_spec(s).bit(x, y, z) == (z == 7
                && s.bit(x, y, 0)),
{
    lemma_lane_shifts(s.l0);
    lemma_lane_shifts(s.l1);
    lemma_lane_shifts(s.l2);
    lemma_lane_shifts(s.l3);
    lemma_lane_shifts(s.l4);
    lemma_lane_shifts(s.l5);
    lemma_lane_shifts(s.l6);
    lemma_lane_shifts(s.l7);
    assert forall|x: u64, y: u64, z: u64|
        x < 8 && y < 8 && z < 8 implies #[trigger] edge_neg_to_pos_z_spec(s).bit(x, y, z) == (z == 7
        && s.bit(x, y, 0)) by {
        let n = (z * 8 + x) as u64;
        assert(n < 64 && (n >= 56 <==> z == 7) && (z == 7 ==> n - 56 == x)) by (nonlinear_arith)
            requires
                x < 8 && z < 8 && n == z * 8 + x,
        ;
    }
}

pub fn edge_neg_to_pos_z(sections: SectionSet) -> (r: SectionSet)
    ensures
        r == edge_neg_to_pos_z_spec(sections),
{
    SectionSet {
        l0: (sections.l0 & 0xFF) << 56,
        l1: (sections.l1 & 0xFF) << 56,
        l2: (sections.l2 & 0xFF) << 56,
        l3: (sections.l3 & 0xFF) << 56,
        l4: (sections.l4 & 0xFF) << 56,
        l5: (sections.l5 & 0xFF) << 56,
        l6: (sections.l6 & 0xFF) << 56,
        l7: (sections.l7 & 0xFF) << 56,
    }
}

/// The Z = 7 face carried over to the Z = 0 face; everything else empties.
pub open spec fn edge_pos_to_neg_z_spec(s: SectionSet) -> SectionSet {
    SectionSet {
        l0: s.l0 >> 56,
        l1: s.l1 >> 56,
        l2: s.l2 >> 56,
        l3: s.l3 >> 56,
        l4: s.l4 >> 56,
        l5: s.l5 >> 56,
        l6: s.l6 >> 56,
        l7: s.l7 >> 56,
    }
}

pub proof fn lemma_edge_pos_to_neg_z_bits(s: SectionSet)
    ensures
        forall|x: u64, y: u64, z: u64|
            x < 8 && y < 8 && z < 8 ==> #[trigger] edge_pos_to_neg_z_spec(s).bit(x, y, z) == (z == 0
                && s.bit(x, y, 7)),
{
    lemma_lane_shifts(s.l0);
    lemma_lane_shifts(s.l1);
    lemma_lane_shifts(s.l2);
    lemma_lane_shifts(s.l3);
    lemma_lane_shifts(s.l4);
    lemma_lane_shifts(s.l5);
    lemma_lane_shifts(s.l6);
    lemma_lane_shifts(s.l7);
    assert forall|x: u64, y: u64, z: u64|
        x < 8 && y < 8 && z < 8 implies #[trigger] edge_pos_to_neg_z_spec(s).bit(x, y, z) == (z == 0
        && s.bit(x, y, 7)) by {
        let n = (z * 8 + x) as u64;
        assert(n < 64 && (n < 8 <==> z == 0) && (z == 0 ==> n + 56 == 7 * 8 + x))
            by (nonlinear_arith)
            requires
                x < 8 && z < 8 && n == z * 8 + x,
        ;
    }
}

pub fn edge_pos_to_neg_z(sections: SectionSet) -> (r: SectionSet)
    ensures
        r == edge_pos_to_neg_z_spec(sections),
{
    SectionSet {
        l0: sections.l0 >> 56,
        l1: sections.l1 >> 56,
        l2: sections.l2 >> 56,
        l3: sections.l3 >> 56,
        l4: sections.l4 >> 56,
        l5: sections.l5 >> 56,
        l6: sections.l6 >> 56,
        l7: sections.l7 >> 56,
    }
}

/// The Y = 0 layer carried over to the Y = 7 layer; everything else empties.
pub open spec fn edge_neg_to_pos_y_spec(s: SectionSet) -> SectionSet {
    SectionSet { l0: 0, l1: 0, l2: 0, l3: 0, l4: 0, l5: 0, l6: 0, l7: s.l0 }
}

pub proof fn lemma_edge_neg_to_pos_y_bits(s: SectionSet)
    ensures
        forall|x: u64, y: u64, z: u64|
            x < 8 && y < 8 && z < 8 ==> #[trigger] edge_neg_to_pos_y_spec(s).bit(x, y, z) == (y == 7
                && s.bit(x, 0, z)),
{
    lemma_lane_extremes();
    assert forall|x: u64, y: u64, z: u64|
        x < 8 && y < 8 && z < 8 implies #[trigger] edge_neg_to_pos_y_spec(s).bit(x, y, z) == (y == 7
        && s.bit(x, 0, z)) by {
        assert(z * 8 + x < 64);
    }
}

pub fn edge_neg_to_pos_y(sections: SectionSet) -> (r: SectionSet)
    ensures
        r == edge_neg_to_pos_y_spec(sections),
{
    SectionSet { l0: 0, l1: 0, l2: 0, l3: 0, l4: 0, l5: 0, l6: 0, l7: sections.l0 }
}

/// The Y = 7 layer carried over to the Y = 0 layer; everything else empties.
pub open spec fn edge_pos_to_neg_y_spec(s: SectionSet) -> SectionSet {
    SectionSet { l0: s.l7, l1: 0, l2: 0, l3: 0, l4: 0, l5: 0, l6: 0, l7: 0 }
}

pub proof fn lemma_edge_pos_to_neg_y_bits(s: SectionSet)
    ensures
        forall|x: u64, y: u64, z: u64|
            x < 8 && y < 8 && z < 8 ==> #[trigger] edge_pos_to_neg_y_spec(s).bit(x, y, z) == (y == 0
                && s.bit(x, 7, z)),
{
    lemma_lane_extremes();
    assert forall|x: u64, y: u64, z: u64|
        x < 8 && y < 8 && z < 8 implies #[trigger] edge_pos_to_neg_y_spec(s).bit(x, y, z) == (y == 0
        && s.bit(x, 7, z)) by {
        assert(z * 8 + x < 64);
    }
}

pub fn edge_pos_to_neg_y(sections: SectionSet) -> (r: SectionSet)
    ensures
        r == edge_pos_to_neg_y_spec(sections),
{
    SectionSet { l0: sections.l7, l1: 0, l2: 0, l3: 0, l4: 0, l5: 0, l6: 0, l7: 0 }
}


impl SectionSet {
    /// The lane holding Y-layer `i`, as an executable accessor.
    pub fn get_lane(&self, i: usize) -> (r: u64)
        requires
            i < 8,
        ensures
            r == self.lane(i as int),
    {
        match i {
            0 => self.l0,
            1 => self.l1,
            2 => self.l2,
            3 => self.l3,
            4 => self.l4,
            5 => self.l5,
            6 => self.l6,
            _ => self.l7,
        }
    }
}

/// Packs local section coordinates into the bit index `(y << 6) | (z << 3) | x`.
pub fn section_index(x: u8, y: u8, z: u8) -> (r: u16)
    requires
        x < 8,
        y < 8,
        z < 8,
    ensures
        r == y * 64 + z * 8 + x,
        r < 512,
{
    (y as u16) * 64 + (z as u16) * 8 + (x as u16)
}

/// A packed section index splits into its lane and its position in the lane.
pub proof fn lemma_index_split(i: u16)
    by (bit_vector)
    ensures
        i < 512 ==> (i >> 6) == i / 64 && (i & 63) == i % 64 && i / 64 < 8,
{
}

/// Reads the section bit at a packed index.
pub fn get_bit(sections: &SectionSet, index: u16) -> (r: bool)
    requires
        index < 512,
    ensures
        r == sections.index_bit(index as int),
{
    proof {
        lemma_index_split(index);
    }
    let lane = sections.get_lane((index >> 6) as usize);
    let bit_idx = (index & 63) as u8;
    (lane >> bit_idx) & 1 == 1
}

/// After `set_bit`, the addressed section is set and no other bit changes.
pub fn set_bit(sections: &mut SectionSet, index: u16)
    requires
        index < 512,
    ensures
        forall|i: int|
            0 <= i < 512 ==> #[trigger] final(sections).index_bit(i) == (old(
                sections,
            ).index_bit(i) || i == index),
{
    proof {
        lemma_index_split(index);
    }
    let lane_idx = (index >> 6) as usize;
    let bit_idx = (index & 63) as u8;
    set_lane_bit(sections, lane_idx, bit_idx);
}

/// After `clear_bit`, the addressed section is clear and no other bit changes.
pub fn clear_bit(sections: &mut SectionSet, index: u16)
    requires
        index < 512,
    ensures
        forall|i: int|
            0 <= i < 512 ==> #[trigger] final(sections).index_bit(i) == (old(
                sections,
            ).index_bit(i) && i != index),
{
    proof {
        lemma_index_split(index);
    }
    let lane_idx = (index >> 6) as usize;
    let bit_idx = (index & 63) as u8;
    clear_lane_bit(sections, lane_idx, bit_idx);
}

/// After `modify_bit`, the addressed section holds `value` and no other bit
/// changes.
pub fn modify_bit(sections: &mut SectionSet, index: u16, value: bool)
    requires
        index < 512,
    ensures
        forall|i: int|
            0 <= i < 512 ==> #[trigger] final(sections).index_bit(i) == (if i == index {
                value
            } else {
                old(sections).index_bit(i)
            }),
{
    proof {
        lemma_index_split(index);
    }
    let lane_idx = (index >> 6) as usize;
    let bit_idx = (index & 63) as u8;
    modify_lane_bit(sections, lane_idx, bit_idx, value);
}

/// After `or_bit`, the addressed section gains `value` and no other bit
/// changes.
pub fn or_bit(sections: &mut SectionSet, index: u16, value: bool)
    requires
        index < 512,
    ensures
        forall|i: int|
            0 <= i < 512 ==> #[trigger] final(sections).index_bit(i) == (old(
                sections,
            ).index_bit(i) || (i == index && value)),
{
    proof {
        lemma_index_split(index);
    }
    let lane_idx = (index >> 6) as usize;
    let bit_idx = (index & 63) as u8;
    or_lane_bit(sections, lane_idx, bit_idx, value);
}

fn set_lane_bit(sections: &mut SectionSet, lane_idx: usize, bit_idx: u8)
    requires
        lane_idx < 8,
        bit_idx < 64,
    ensures
        forall|i: int|
            0 <= i < 512 ==> #[trigger] final(sections).index_bit(i) == (old(
                sections,
            ).index_bit(i) || i == lane_idx * 64 + bit_idx),
{
    let ghost target = lane_idx as int * 64 + bit_idx as int;
    let s = sections.get_lane(lane_idx);
    let t = s | (1u64 << bit_idx);
    put_lane(sections, lane_idx, t);
    proof {
        assert(forall|n: u64|
            n < 64 ==> (((t >> n) & 1 == 1) == (((s >> n) & 1 == 1) || n == bit_idx)))
            by (bit_vector)
            requires
                bit_idx < 64,
                t == (s | (1u64 << bit_idx)),
        ;
        lemma_lane_update_index_bits(*old(sections), *sections, lane_idx as int);
        assert forall|i: int| 0 <= i < 512 implies #[trigger] sections.index_bit(i) == (old(
            sections,
        ).index_bit(i) || i == target) by {
            lemma_index_decompose(i, lane_idx as int, bit_idx);
            vstd::arithmetic::div_mod::lemma_fundamental_div_mod(i, 64);
        }
    }
}

fn clear_lane_bit(sections: &mut SectionSet, lane_idx: usize, bit_idx: u8)
    requires
        lane_idx < 8,
        bit_idx < 64,
    ensures
        forall|i: int|
            0 <= i < 512 ==> #[trigger] final(sections).index_bit(i) == (old(
                sections,
            ).index_bit(i) && i != lane_idx * 64 + bit_idx),
{
    let ghost target = lane_idx as int * 64 + bit_idx as int;
    let s = sections.get_lane(lane_idx);
    let t = s & !(1u64 << bit_idx);
    put_lane(sections, lane_idx, t);
    proof {
        assert(forall|n: u64|
            n < 64 ==> (((t >> n) & 1 == 1) == (((s >> n) & 1 == 1) && n != bit_idx)))
            by (bit_vector)
            requires
                bit_idx < 64,
                t == (s & !(1u64 << bit_idx)),
        ;
        lemma_lane_update_index_bits(*old(sections), *sections, lane_idx as int);
        assert forall|i: int| 0 <= i < 512 implies #[trigger] sections.index_bit(i) == (old(
            sections,
        ).index_bit(i) && i != target) by {
            lemma_index_decompose(i, lane_idx as int, bit_idx);
            vstd::arithmetic::div_mod::lemma_fundamental_div_mod(i, 64);
        }
    }
}

fn modify_lane_bit(sections: &mut SectionSet, lane_idx: usize, bit_idx: u8, value: bool)
    requires
        lane_idx < 8,
        bit_idx < 64,
    ensures
        forall|i: int|
            0 <= i < 512 ==> #[trigger] final(sections).index_bit(i) == (if i == lane_idx * 64
                + bit_idx {
                value
            } else {
                old(sections).index_bit(i)
            }),
{
    let ghost target = lane_idx as int * 64 + bit_idx as int;
    let s = sections.get_lane(lane_idx);
    let v: u64 = if value {
        1
    } else {
        0
    };
    let t = (s & !(1u64 << bit_idx)) | (v << bit_idx);
    put_lane(sections, lane_idx, t);
    proof {
        assert(forall|n: u64|
            n < 64 ==> (((t >> n) & 1 == 1) == (if n == bit_idx {
                v == 1
            } else {
                (s >> n) & 1 == 1
            }))) by (bit_vector)
            requires
                bit_idx < 64,
                v < 2,
                t == ((s & !(1u64 << bit_idx)) | (v << bit_idx)),
        ;
        lemma_lane_update_index_bits(*old(sections), *sections, lane_idx as int);
        assert forall|i: int| 0 <= i < 512 implies #[trigger] sections.index_bit(i) == (if i
            == target {
            value
        } else {
            old(sections).index_bit(i)
        }) by {
            lemma_index_decompose(i, lane_idx as int, bit_idx);
            vstd::arithmetic::div_mod::lemma_fundamental_div_mod(i, 64);
        }
    }
}

fn or_lane_bit(sections: &mut SectionSet, lane_idx: usize, bit_idx: u8, value: bool)
    requires
        lane_idx < 8,
        bit_idx < 64,
    ensures
        forall|i: int|
            0 <= i < 512 ==> #[trigger] final(sections).index_bit(i) == (old(
                sections,
            ).index_bit(i) || (i == lane_idx * 64 + bit_idx && value)),
{
    let ghost target = lane_idx as int * 64 + bit_idx as int;
    let s = sections.get_lane(lane_idx);
    let v: u64 = if value {
        1
    } else {
        0
    };
    let t = s | (v << bit_idx);
    put_lane(sections, lane_idx, t);
    proof {
        assert(forall|n: u64|
            n < 64 ==> (((t >> n) & 1 == 1) == (((s >> n) & 1 == 1) || (n == bit_idx && v == 1))))
            by (bit_vector)
            requires
                bit_idx < 64,
                v < 2,
                t == (s | (v << bit_idx)),
        ;
        lemma_lane_update_index_bits(*old(sections), *sections, lane_idx as int);
        assert forall|i: int| 0 <= i < 512 implies #[trigger] sections.index_bit(i) == (old(
            sections,
        ).index_bit(i) || (i == target && value)) by {
            lemma_index_decompose(i, lane_idx as int, bit_idx);
            vstd::arithmetic::div_mod::lemma_fundamental_div_mod(i, 64);
        }
    }
}

/// Writes one lane of the cube, leaving the other lanes alone.
fn put_lane(sections: &mut SectionSet, i: usize, w: u64)
    requires
        i < 8,
    ensures
        final(sections).lane(i as int) == w,
        forall|j: int| 0 <= j < 8 && j != i ==> final(sections).lane(j) == old(sections).lane(j),
{
    match i {
        0 => sections.l0 = w,
        1 => sections.l1 = w,
        2 => sections.l2 = w,
        3 => sections.l3 = w,
        4 => sections.l4 = w,
        5 => sections.l5 = w,
        6 => sections.l6 = w,
        _ => sections.l7 = w,
    }
}

/// An index addresses the updated lane exactly when its quotient matches, and
/// then its position in that lane is its remainder.
proof fn lemma_index_decompose(i: int, lane_idx: int, bit_idx: u8)
    requires
        0 <= i < 512,
        0 <= lane_idx < 8,
        bit_idx < 64,
    ensures
        (i == lane_idx * 64 + bit_idx) == (i / 64 == lane_idx && i % 64 == bit_idx),
{
    vstd::arithmetic::div_mod::lemma_fundamental_div_mod(i, 64);
    if i / 64 == lane_idx && i % 64 == bit_idx {
        assert(i == lane_idx * 64 + bit_idx);
    }
    if i == lane_idx * 64 + bit_idx {
        vstd::arithmetic::div_mod::lemma_fundamental_div_mod_converse(
            i,
            64,
            lane_idx,
            bit_idx as int,
        );
    }
}

/// Two cubes that differ in one lane agree on every section bit outside it,
/// and inside it agree with the lane's own bits.
proof fn lemma_lane_update_index_bits(a: SectionSet, b: SectionSet, lane_idx: int)
    requires
        0 <= lane_idx < 8,
        forall|j: int| 0 <= j < 8 && j != lane_idx ==> a.lane(j) == b.lane(j),
    ensures
        forall|i: int|
            0 <= i < 512 && i / 64 != lane_idx ==> #[trigger] a.index_bit(i) == b.index_bit(i),
        forall|i: int|
            0 <= i < 512 && i / 64 == lane_idx ==> #[trigger] b.index_bit(i) == lane_bit(
                b.lane(lane_idx),
                (i % 64) as u64,
            ),
        forall|i: int|
            0 <= i < 512 && i / 64 == lane_idx ==> #[trigger] a.index_bit(i) == lane_bit(
                a.lane(lane_idx),
                (i % 64) as u64,
            ),
{
    assert forall|i: int| 0 <= i < 512 && i / 64 != lane_idx implies #[trigger] a.index_bit(i)
        == b.index_bit(i) by {
        vstd::arithmetic::div_mod::lemma_fundamental_div_mod(i, 64);
        assert(0 <= i / 64 < 8) by (nonlinear_arith)
            requires
                0 <= i < 512,
        ;
    }
}


/// The set of packed indices of the sections a cube holds.
pub open spec fn bits_set(s: SectionSet) -> Set<int> {
    Set::new(|i: int| 0 <= i < 512 && s.index_bit(i))
}

/// A cube holds at most 512 sections.
pub proof fn lemma_bits_set_bounded(s: SectionSet)
    ensures
        bits_set(s).finite(),
        bits_set(s).len() <= 512,
{
    vstd::set_lib::lemma_int_range(0, 512);
    vstd::set_lib::lemma_len_subset(bits_set(s), vstd::set_lib::set_int_range(0, 512));
}

/// Two lanes with the same bits are the same word.
proof fn lemma_lane_eq_from_bits(a: u64, b: u64)
    requires
        forall|n: u64| n < 64 ==> ((a >> n) & 1) == ((b >> n) & 1),
    ensures
        a == b,
{
    if a != b {
        let d = a ^ b;
        assert(d != 0) by (bit_vector)
            requires
                a != b,
                d == (a ^ b),
        ;
        vstd::std_specs::bits::axiom_u64_trailing_zeros(d);
        let n = vstd::std_specs::bits::u64_trailing_zeros(d) as u64;
        assert(((a >> n) & 1) != ((b >> n) & 1)) by (bit_vector)
            requires
                d == (a ^ b),
                n < 64,
                (d >> n) & 1u64 == 1u64,
        ;
    }
}

/// One lane of two cubes with the same section bits is the same word.
proof fn lemma_lane_eq_k(a: SectionSet, b: SectionSet, k: int)
    requires
        0 <= k < 8,
        forall|i: int| 0 <= i < 512 ==> a.index_bit(i) == b.index_bit(i),
    ensures
        a.lane(k) == b.lane(k),
{
    let la = a.lane(k);
    let lb = b.lane(k);
    assert forall|n: u64| n < 64 implies ((la >> n) & 1) == ((lb >> n) & 1) by {
        let i = 64 * k + n;
        vstd::arithmetic::div_mod::lemma_fundamental_div_mod_converse(i, 64, k, n as int);
        assert(a.index_bit(i) == b.index_bit(i));
        assert(((la >> n) & 1) == ((lb >> n) & 1)) by (bit_vector)
            requires
                n < 64,
                ((la >> n) & 1 == 1) == ((lb >> n) & 1 == 1),
        ;
    }
    lemma_lane_eq_from_bits(la, lb);
}

/// Two cubes with the same section bits are equal.
pub proof fn lemma_bits_eq(a: SectionSet, b: SectionSet)
    requires
        forall|i: int| 0 <= i < 512 ==> a.index_bit(i) == b.index_bit(i),
    ensures
        a == b,
{
    lemma_lane_eq_k(a, b, 0);
    lemma_lane_eq_k(a, b, 1);
    lemma_lane_eq_k(a, b, 2);
    lemma_lane_eq_k(a, b, 3);
    lemma_lane_eq_k(a, b, 4);
    lemma_lane_eq_k(a, b, 5);
    lemma_lane_eq_k(a, b, 6);
    lemma_lane_eq_k(a, b, 7);
}

/// A cube that keeps every section of another and differs from it holds
/// strictly more sections.
pub proof fn lemma_strict_growth(a: SectionSet, b: SectionSet)
    requires
        forall|i: int| 0 <= i < 512 && a.index_bit(i) ==> b.index_bit(i),
        a != b,
    ensures
        bits_set(a).len() < bits_set(b).len(),
{
    lemma_bits_set_bounded(a);
    lemma_bits_set_bounded(b);
    if forall|i: int| 0 <= i < 512 ==> a.index_bit(i) == b.index_bit(i) {
        lemma_bits_eq(a, b);
    }
    let w = choose|i: int| 0 <= i < 512 && a.index_bit(i) != b.index_bit(i);
    assert(b.index_bit(w) && !a.index_bit(w));
    assert(bits_set(a).subset_of(bits_set(b).remove(w)));
    vstd::set_lib::lemma_len_subset(bits_set(a), bits_set(b).remove(w));
    assert(bits_set(b).remove(w).len() == bits_set(b).len() - 1) by {
        assert(bits_set(b).contains(w));
    }
}


/// Two cubes that agree on every section coordinate are equal.
pub proof fn lemma_eq_from_coords(a: SectionSet, b: SectionSet)
    requires
        forall|x: u64, y: u64, z: u64|
            x < 8 && y < 8 && z < 8 ==> #[trigger] a.bit(x, y, z) == b.bit(x, y, z),
    ensures
        a == b,
{
    assert forall|i: int| 0 <= i < 512 implies a.index_bit(i) == b.index_bit(i) by {
        vstd::arithmetic::div_mod::lemma_fundamental_div_mod(i, 64);
        let y = i / 64;
        let rest = i % 64;
        vstd::arithmetic::div_mod::lemma_fundamental_div_mod(rest, 8);
        let z = rest / 8;
        let x = rest % 8;
        assert(0 <= y < 8 && 0 <= z < 8 && 0 <= x < 8) by (nonlinear_arith)
            requires
                0 <= i < 512,
                y == i / 64,
                rest == i % 64,
                0 <= rest < 64,
                z == rest / 8,
                x == rest % 8,
                0 <= x < 8,
                rest == 8 * z + x,
        ;
        assert(rest == z * 8 + x);
        assert(a.index_bit(i) == a.bit(x as u64, y as u64, z as u64));
        assert(b.index_bit(i) == b.bit(x as u64, y as u64, z as u64));
        assert(a.bit(x as u64, y as u64, z as u64) == b.bit(x as u64, y as u64, z as u64));
    }
    lemma_bits_eq(a, b);
}


/// Lane-wise intersection at the specification level.
pub open spec fn spec_and(a: SectionSet, b: SectionSet) -> SectionSet {
    SectionSet {
        l0: a.l0 & b.l0,
        l1: a.l1 & b.l1,
        l2: a.l2 & b.l2,
        l3: a.l3 & b.l3,
        l4: a.l4 & b.l4,
        l5: a.l5 & b.l5,
        l6: a.l6 & b.l6,
        l7: a.l7 & b.l7,
    }
}


/// Lane-wise union at the specification level.
pub open spec fn spec_or(a: SectionSet, b: SectionSet) -> SectionSet {
    SectionSet {
        l0: a.l0 | b.l0,
        l1: a.l1 | b.l1,
        l2: a.l2 | b.l2,
        l3: a.l3 | b.l3,
        l4: a.l4 | b.l4,
        l5: a.l5 | b.l5,
        l6: a.l6 | b.l6,
        l7: a.l7 | b.l7,
    }
}

/// The lane holding index `i` and the position inside it are in range.
proof fn lemma_index_lane_bounds(i: int)
    requires
        0 <= i < 512,
    ensures
        0 <= i / 64 < 8,
        0 <= i % 64 < 64,
{
    assert(0 <= i / 64 < 8 && 0 <= i % 64 < 64) by (nonlinear_arith)
        requires
            0 <= i < 512,
    ;
}

/// The union of two cubes holds each index of either.
pub proof fn lemma_spec_or_bits(a: SectionSet, b: SectionSet)
    ensures
        forall|i: int|
            0 <= i < 512 ==> #[trigger] spec_or(a, b).index_bit(i) == (a.index_bit(i)
                || b.index_bit(i)),
{
    assert forall|i: int| 0 <= i < 512 implies #[trigger] spec_or(a, b).index_bit(i) == (
    a.index_bit(i) || b.index_bit(i)) by {
        lemma_index_lane_bounds(i);
        let y = i / 64;
        assert(spec_or(a, b).lane(y) == (a.lane(y) | b.lane(y)));
        lemma_lane_and_or(a.lane(y), b.lane(y));
    }
}

/// The intersection of two cubes holds each index of both.
pub proof fn lemma_spec_and_bits(a: SectionSet, b: SectionSet)
    ensures
        forall|i: int|
            0 <= i < 512 ==> #[trigger] spec_and(a, b).index_bit(i) == (a.index_bit(i)
                && b.index_bit(i)),
{
    assert forall|i: int| 0 <= i < 512 implies #[trigger] spec_and(a, b).index_bit(i) == (
    a.index_bit(i) && b.index_bit(i)) by {
        lemma_index_lane_bounds(i);
        let y = i / 64;
        assert(spec_and(a, b).lane(y) == (a.lane(y) & b.lane(y)));
        lemma_lane_and_or(a.lane(y), b.lane(y));
    }
}

/// The cube holding exactly the section at index `si`.
pub open spec fn single_bit_spec(si: int) -> SectionSet
    recommends
        0 <= si < 512,
{
    SectionSet {
        l0: if si / 64 == 0 {
            1u64 << ((si % 64) as u64)
        } else {
            0
        },
        l1: if si / 64 == 1 {
            1u64 << ((si % 64) as u64)
        } else {
            0
        },
        l2: if si / 64 == 2 {
            1u64 << ((si % 64) as u64)
        } else {
            0
        },
        l3: if si / 64 == 3 {
            1u64 << ((si % 64) as u64)
        } else {
            0
        },
        l4: if si / 64 == 4 {
            1u64 << ((si % 64) as u64)
        } else {
            0
        },
        l5: if si / 64 == 5 {
            1u64 << ((si % 64) as u64)
        } else {
            0
        },
        l6: if si / 64 == 6 {
            1u64 << ((si % 64) as u64)
        } else {
            0
        },
        l7: if si / 64 == 7 {
            1u64 << ((si % 64) as u64)
        } else {
            0
        },
    }
}

/// The single-section cube holds exactly its own index.
pub proof fn lemma_single_bit_bits(si: int)
    requires
        0 <= si < 512,
    ensures
        forall|i: int|
            0 <= i < 512 ==> #[trigger] single_bit_spec(si).index_bit(i) == (i == si),
{
    lemma_lane_extremes();
    assert(forall|m: u64, n: u64|
        m < 64 && n < 64 ==> #[trigger] lane_bit(1u64 << m, n) == (m == n)) by (bit_vector);
    assert forall|i: int| 0 <= i < 512 implies #[trigger] single_bit_spec(si).index_bit(i) == (i
        == si) by {
        lemma_index_lane_bounds(i);
        lemma_index_lane_bounds(si);
        vstd::arithmetic::div_mod::lemma_fundamental_div_mod(i, 64);
        vstd::arithmetic::div_mod::lemma_fundamental_div_mod(si, 64);
        if i / 64 == si / 64 {
            assert(single_bit_spec(si).lane(i / 64) == 1u64 << ((si % 64) as u64));
        } else {
            assert(single_bit_spec(si).lane(i / 64) == 0u64);
        }
    }
}

/// The empty cube holds no section at any index.
pub proof fn lemma_empty_has_no_bits()
    ensures
        forall|i: int| 0 <= i < 512 ==> !(#[trigger] SectionSet::empty_spec().index_bit(i)),
{
    lemma_lane_extremes();
    assert forall|i: int| 0 <= i < 512 implies !(#[trigger] SectionSet::empty_spec().index_bit(
        i,
    )) by {
        vstd::arithmetic::div_mod::lemma_fundamental_div_mod(i, 64);
        assert(0 <= i / 64 < 8) by (nonlinear_arith)
            requires
                0 <= i < 512,
        ;
    }
}

} // verus!
