//! The fifteen unordered pairs of distinct face directions.
//!
//! Sight through a section couples two of its faces; with six faces there are
//! fifteen unordered pairs. Each pair gets a dense index, the triangular
//! pair number of the two direction ordinals, and the host serializes a
//! section's visibility as a 64-bit word with one meaningful bit per pair at
//! a fixed position.

use vstd::prelude::*;

use crate::direction::dir_index_spec;
use crate::direction::is_single_dir;
use crate::direction::to_index;

verus! {

pub const UNIQUE_CONNECTION_COUNT: usize = 15;

/// The dense index of the unordered pair with direction ordinals
/// `l > s`: the pairs are laid out by larger ordinal first, so the pair
/// comes after the `l * (l - 1) / 2` pairs of smaller larger-ordinals.
pub open spec fn pair_index_spec(l: int, s: int) -> int
    recommends
        0 <= s < l < 6,
{
    l * (l - 1) / 2 + s
}

/// The dense index of the unordered pair `{dir_1, dir_2}` of distinct single
/// directions.
pub open spec fn connection_index_spec(dir_1: u8, dir_2: u8) -> int
    recommends
        is_single_dir(dir_1),
        is_single_dir(dir_2),
        dir_1 != dir_2,
{
    if dir_index_spec(dir_1) > dir_index_spec(dir_2) {
        pair_index_spec(dir_index_spec(dir_1), dir_index_spec(dir_2))
    } else {
        pair_index_spec(dir_index_spec(dir_2), dir_index_spec(dir_1))
    }
}

/// Returns the array index of the mutual connection between `dir_1` and
/// `dir_2`.
pub fn connection_index(dir_1: u8, dir_2: u8) -> (r: usize)
    requires
        is_single_dir(dir_1),
        is_single_dir(dir_2),
        dir_1 != dir_2,
    ensures
        r == connection_index_spec(dir_1, dir_2),
        r < 15,
{
    let dir_1_idx = to_index(dir_1);
    let dir_2_idx = to_index(dir_2);

    let (large_idx, small_idx) = if dir_1 > dir_2 {
        (dir_1_idx, dir_2_idx)
    } else {
        (dir_2_idx, dir_1_idx)
    };

    proof {
        assert(0b1100usize >> 1usize == 6 && 0b1100usize >> 2usize == 3 && 0b1100usize >> 3usize
            == 1 && 0b1100usize >> 4usize == 0 && 0b1100usize >> 5usize == 0) by (bit_vector);
    }
    (large_idx * 4) + small_idx + (0b1100usize >> large_idx) - 10
}

/// The bit of the host's 64-bit visibility word that carries the pair with
/// the given dense index. The host orders directions as -Y, +Y, -Z, +Z, -X,
/// +X and stores the pair of host ordinals `(s, l)` at bit `s * 8 + l`.
pub open spec fn connection_bit_index_spec(array_idx: int) -> u8
    recommends
        0 <= array_idx < 15,
{
    if array_idx == 0 {
        4
    } else if array_idx == 1 {
        20
    } else if array_idx == 2 {
        2
    } else if array_idx == 3 {
        37
    } else if array_idx == 4 {
        5
    } else if array_idx == 5 {
        21
    } else if array_idx == 6 {
        12
    } else if array_idx == 7 {
        1
    } else if array_idx == 8 {
        10
    } else if array_idx == 9 {
        13
    } else if array_idx == 10 {
        28
    } else if array_idx == 11 {
        3
    } else if array_idx == 12 {
        19
    } else if array_idx == 13 {
        29
    } else {
        11
    }
}

/// The host-word bit position for a dense pair index.
pub fn connection_bit_index(array_idx: usize) -> (r: u8)
    requires
        array_idx < 15,
    ensures
        r == connection_bit_index_spec(array_idx as int),
        r < 64,
{
    match array_idx {
        0 => 4,
        1 => 20,
        2 => 2,
        3 => 37,
        4 => 5,
        5 => 21,
        6 => 12,
        7 => 1,
        8 => 10,
        9 => 13,
        10 => 28,
        11 => 3,
        12 => 19,
        13 => 29,
        _ => 11,
    }
}

} // verus!
