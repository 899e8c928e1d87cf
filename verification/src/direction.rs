//! The six face directions of a section cube, as one-bit flags.
//!
//! A direction set is a 6-bit word: bit 0 is negative X, bit 1 negative Y,
//! bit 2 negative Z, and bits 3 to 5 the positive X, Y and Z faces. Rotating
//! the two halves of the word swaps every direction with its opposite.

use vstd::prelude::*;

use crate::sections::byte_bit;

verus! {

pub const NEG_X: u8 = 0b000001;

pub const NEG_Y: u8 = 0b000010;

pub const NEG_Z: u8 = 0b000100;

pub const POS_X: u8 = 0b001000;

pub const POS_Y: u8 = 0b010000;

pub const POS_Z: u8 = 0b100000;

pub const ALL_DIRECTIONS: u8 = 0b111111;

pub const DIRECTION_COUNT: usize = 6;

/// A word holding exactly one direction flag.
pub open spec fn is_single_dir(d: u8) -> bool {
    d == NEG_X || d == NEG_Y || d == NEG_Z || d == POS_X || d == POS_Y || d == POS_Z
}

/// A word holding only direction flags.
pub open spec fn is_dir_set(d: u8) -> bool {
    d & ALL_DIRECTIONS == d
}

/// The ordinal of a single direction: 0 to 2 for the negative faces, 3 to 5
/// for the positive ones.
pub open spec fn dir_index_spec(d: u8) -> int
    recommends
        is_single_dir(d),
{
    if d == NEG_X {
        0
    } else if d == NEG_Y {
        1
    } else if d == NEG_Z {
        2
    } else if d == POS_X {
        3
    } else if d == POS_Y {
        4
    } else {
        5
    }
}

/// The single direction with the given ordinal.
pub open spec fn dir_from_index_spec(i: int) -> u8
    recommends
        0 <= i < 6,
{
    if i == 0 {
        NEG_X
    } else if i == 1 {
        NEG_Y
    } else if i == 2 {
        NEG_Z
    } else if i == 3 {
        POS_X
    } else if i == 4 {
        POS_Y
    } else {
        POS_Z
    }
}

/// Each direction set maps to the set of its opposite faces.
pub open spec fn opposite_spec(d: u8) -> u8 {
    ((d << 3) | (d >> 3)) & ALL_DIRECTIONS
}

/// Swaps the negative and positive halves of a direction set, turning every
/// contained direction into its opposite.
pub fn opposite(d: u8) -> (r: u8)
    ensures
        r == opposite_spec(d),
        is_dir_set(r),
        is_single_dir(d) ==> is_single_dir(r) && dir_index_spec(r) == (dir_index_spec(d) + 3) % 6,
{
    proof {
        lemma_opposite_props(d);
    }
    ((d << 3) | (d >> 3)) & ALL_DIRECTIONS
}

proof fn lemma_opposite_props(d: u8)
    by (bit_vector)
    ensures
        (((d << 3) | (d >> 3)) & 0b111111u8) & 0b111111 == ((d << 3) | (d >> 3)) & 0b111111u8,
        d == 0b000001u8 ==> ((d << 3) | (d >> 3)) & 0b111111u8 == 0b001000,
        d == 0b000010u8 ==> ((d << 3) | (d >> 3)) & 0b111111u8 == 0b010000,
        d == 0b000100u8 ==> ((d << 3) | (d >> 3)) & 0b111111u8 == 0b100000,
        d == 0b001000u8 ==> ((d << 3) | (d >> 3)) & 0b111111u8 == 0b000001,
        d == 0b010000u8 ==> ((d << 3) | (d >> 3)) & 0b111111u8 == 0b000010,
        d == 0b100000u8 ==> ((d << 3) | (d >> 3)) & 0b111111u8 == 0b000100,
{
}

/// The directions other than those in `d`.
pub fn all_except(d: u8) -> (r: u8)
    ensures
        r == (ALL_DIRECTIONS & !d),
        is_dir_set(r),
{
    proof {
        assert((0b111111u8 & !d) & 0b111111 == 0b111111u8 & !d) by (bit_vector);
    }
    ALL_DIRECTIONS & !d
}

/// The ordinal of a single direction.
pub fn to_index(d: u8) -> (r: usize)
    requires
        is_single_dir(d),
    ensures
        r == dir_index_spec(d),
        r < 6,
{
    match d {
        NEG_X => 0,
        NEG_Y => 1,
        NEG_Z => 2,
        POS_X => 3,
        POS_Y => 4,
        _ => 5,
    }
}

/// The single direction with the given ordinal.
pub fn from_index(i: usize) -> (r: u8)
    requires
        i < 6,
    ensures
        r == dir_from_index_spec(i as int),
        is_single_dir(r),
        dir_index_spec(r) == i,
{
    match i {
        0 => NEG_X,
        1 => NEG_Y,
        2 => NEG_Z,
        3 => POS_X,
        4 => POS_Y,
        _ => POS_Z,
    }
}

/// The axis ordinal of a direction ordinal: X, Y and Z faces share an axis
/// with their opposites.
pub fn index_dir_to_axis(dir_index: usize) -> (r: usize)
    requires
        dir_index < 6,
    ensures
        r == dir_index % 3,
        r < 3,
{
    dir_index % 3
}

/// Removes the lowest direction from a non-empty set and returns it.
pub fn take_one(dir_set: &mut u8) -> (r: u8)
    requires
        *old(dir_set) != 0,
        is_dir_set(*old(dir_set)),
    ensures
        is_single_dir(r),
        r & *old(dir_set) == r,
        *old(dir_set) & r == r,
        *final(dir_set) == *old(dir_set) & !r,
        *final(dir_set) < *old(dir_set),
        is_dir_set(*final(dir_set)),
        forall|e: int| 0 <= e < dir_index_spec(r) ==> !dir_in_set(*old(dir_set), e),
{
    let d = *dir_set;
    let r: u8 = if d & NEG_X != 0 {
        NEG_X
    } else if d & NEG_Y != 0 {
        NEG_Y
    } else if d & NEG_Z != 0 {
        NEG_Z
    } else if d & POS_X != 0 {
        POS_X
    } else if d & POS_Y != 0 {
        POS_Y
    } else {
        POS_Z
    };
    *dir_set = d & !r;
    proof {
        lemma_take_one(d, r);
        assert forall|e: int| 0 <= e < dir_index_spec(r) implies !dir_in_set(d, e) by {
            assert(e == 0 || e == 1 || e == 2 || e == 3 || e == 4);
        }
    }
    r
}

proof fn lemma_take_one(d: u8, r: u8)
    by (bit_vector)
    requires
        d != 0,
        d & 0b111111 == d,
        r == (if d & 0b000001u8 != 0 {
            0b000001u8
        } else if d & 0b000010u8 != 0 {
            0b000010u8
        } else if d & 0b000100u8 != 0 {
            0b000100u8
        } else if d & 0b001000u8 != 0 {
            0b001000u8
        } else if d & 0b010000u8 != 0 {
            0b010000u8
        } else {
            0b100000u8
        }),
    ensures
        r & d == r,
        d & r == r,
        (d & !r) < d,
        (d & !r) & 0b111111 == d & !r,
        r == 0b000010u8 ==> !byte_bit(d, 0),
        r == 0b000100u8 ==> !byte_bit(d, 0) && !byte_bit(d, 1),
        r == 0b001000u8 ==> !byte_bit(d, 0) && !byte_bit(d, 1) && !byte_bit(d, 2),
        r == 0b010000u8 ==> !byte_bit(d, 0) && !byte_bit(d, 1) && !byte_bit(d, 2) && !byte_bit(
            d,
            3,
        ),
        r == 0b100000u8 ==> !byte_bit(d, 0) && !byte_bit(d, 1) && !byte_bit(d, 2) && !byte_bit(
            d,
            3,
        ) && !byte_bit(d, 4),
{
}


/// Membership of a direction ordinal in a direction set, as a bit of the
/// 6-bit word.
pub open spec fn dir_in_set(set: u8, d: int) -> bool {
    byte_bit(set, d as u8)
}

/// The bits of the direction constants and of the full set.
pub proof fn lemma_dir_set_bits()
    by (bit_vector)
    ensures
        forall|d: u8| d < 8 ==> #[trigger] byte_bit(0b000001u8, d) == (d == 0),
        forall|d: u8| d < 8 ==> #[trigger] byte_bit(0b000010u8, d) == (d == 1),
        forall|d: u8| d < 8 ==> #[trigger] byte_bit(0b000100u8, d) == (d == 2),
        forall|d: u8| d < 8 ==> #[trigger] byte_bit(0b001000u8, d) == (d == 3),
        forall|d: u8| d < 8 ==> #[trigger] byte_bit(0b010000u8, d) == (d == 4),
        forall|d: u8| d < 8 ==> #[trigger] byte_bit(0b100000u8, d) == (d == 5),
        forall|d: u8| d < 8 ==> #[trigger] byte_bit(0b111111u8, d) == (d < 6),
        forall|d: u8| d < 8 ==> !(#[trigger] byte_bit(0u8, d)),
        0b111111u8 & 0b111111 == 0b111111u8,
{
}

/// Union of direction words acts bit-by-bit.
pub proof fn lemma_dir_or(a: u8, b: u8)
    by (bit_vector)
    ensures
        forall|d: u8| d < 8 ==> #[trigger] byte_bit(a | b, d) == (byte_bit(a, d) || byte_bit(b, d)),
        (a & 0b111111 == a && b & 0b111111 == b) ==> ((a | b) & 0b111111) == (a | b),
{
}

/// Set difference on direction words acts bit-by-bit.
pub proof fn lemma_dir_andnot(a: u8, b: u8)
    by (bit_vector)
    ensures
        forall|d: u8| d < 8 ==> #[trigger] byte_bit(a & !b, d) == (byte_bit(a, d) && !byte_bit(b, d)),
        a & 0b111111 == a ==> ((a & !b) & 0b111111) == (a & !b),
{
}

/// Rotating the two halves of a direction set moves each membership bit to
/// the opposite direction's position.
pub proof fn lemma_opposite_bits(s: u8)
    by (bit_vector)
    requires
        s & 0b111111 == s,
    ensures
        forall|d: u8|
            d < 3 ==> #[trigger] byte_bit(((s << 3) | (s >> 3)) & 0b111111u8, d) == byte_bit(
                s,
                (d + 3) as u8,
            ),
        forall|d: u8|
            3 <= d < 6 ==> #[trigger] byte_bit(((s << 3) | (s >> 3)) & 0b111111u8, d) == byte_bit(
                s,
                (d - 3) as u8,
            ),
        forall|d: u8| 6 <= d < 8 ==> !(#[trigger] byte_bit(((s << 3) | (s >> 3)) & 0b111111u8, d)),
{
}

/// Containment of a single direction in a set is membership of its ordinal.
pub proof fn lemma_contains_single(s: u8, r: u8)
    requires
        is_single_dir(r),
    ensures
        (s & r == r) == dir_in_set(s, dir_index_spec(r)),
{
    assert((s & r == r) == byte_bit(
        s,
        (if r == 1 {
            0u8
        } else if r == 2 {
            1u8
        } else if r == 4 {
            2u8
        } else if r == 8 {
            3u8
        } else if r == 16 {
            4u8
        } else {
            5u8
        }),
    )) by (bit_vector)
        requires
            r == 1 || r == 2 || r == 4 || r == 8 || r == 16 || r == 32,
    ;
}

/// A single direction's set holds exactly its own ordinal.
pub proof fn lemma_single_dir_bits(r: u8)
    requires
        is_single_dir(r),
    ensures
        forall|d: int| 0 <= d < 8 ==> #[trigger] dir_in_set(r, d) == (d == dir_index_spec(r)),
{
    lemma_dir_set_bits();
}

} // verus!
