//! Coordinate spaces of the tile graph.
//!
//! Global section and block coordinates are signed and unbounded; the graph
//! stores tiles in a finite 3D array whose X and Z axes wrap modulo the
//! graph's horizontal tile length, while Y is bounds-checked and does not
//! wrap. A tile position is packed into a dense 16-bit index in Y-Z-X order.

use vstd::prelude::*;

use crate::direction::is_single_dir;
use crate::direction::NEG_X;
use crate::direction::NEG_Y;
use crate::direction::NEG_Z;
use crate::direction::POS_X;
use crate::direction::POS_Y;

verus! {

/// Floor division, defined for any sign of `a`.
pub fn div_euclid_i32(a: i32, m: i32) -> (r: i32)
    requires
        1 < m <= 256,
    ensures
        r == (a as int) / (m as int),
{
    if a >= 0 {
        a / m
    } else {
        let b = -1 - a;
        let r = -1 - (b / m);
        proof {
            let q = (b as int) / (m as int);
            let s = (b as int) % (m as int);
            vstd::arithmetic::div_mod::lemma_fundamental_div_mod(b as int, m as int);
            assert(a as int == (-1 - q) * (m as int) + ((m as int) - 1 - s)) by (nonlinear_arith)
                requires
                    b == -1 - a && b == q * m + s,
            ;
            vstd::arithmetic::div_mod::lemma_fundamental_div_mod_converse(
                a as int,
                m as int,
                -1 - q,
                m - 1 - s,
            );
        }
        r
    }
}

/// The remainder of floor division: always in `[0, m)`.
pub fn rem_euclid_i32(a: i32, m: i32) -> (r: i32)
    requires
        1 < m <= 16384,
    ensures
        r == (a as int) % (m as int),
        0 <= r < m,
{
    if a >= 0 {
        a % m
    } else {
        let b = -1 - a;
        let r = m - 1 - (b % m);
        proof {
            let q = (b as int) / (m as int);
            let s = (b as int) % (m as int);
            vstd::arithmetic::div_mod::lemma_fundamental_div_mod(b as int, m as int);
            assert(a as int == (-1 - q) * (m as int) + ((m as int) - 1 - s)) by (nonlinear_arith)
                requires
                    b == -1 - a && b == q * m + s,
            ;
            vstd::arithmetic::div_mod::lemma_fundamental_div_mod_converse(
                a as int,
                m as int,
                -1 - q,
                m - 1 - s,
            );
        }
        r
    }
}

/// The position of a tile in the graph's local array, in tile units.
#[derive(Clone, Copy, Debug, PartialEq, Eq, Structural)]
pub struct LocalTileCoords {
    pub x: i8,
    pub y: i8,
    pub z: i8,
}

impl LocalTileCoords {
    pub fn from_xyz(x: i8, y: i8, z: i8) -> (r: LocalTileCoords)
        ensures
            r == (LocalTileCoords { x, y, z }),
    {
        LocalTileCoords { x, y, z }
    }

    /// Moves one tile along a single direction. The stepped coordinate moves
    /// by exactly one and the other two stay put.
    pub fn step(self, direction: u8) -> (r: LocalTileCoords)
        requires
            is_single_dir(direction),
            direction == NEG_X ==> self.x > i8::MIN,
            direction == NEG_Y ==> self.y > i8::MIN,
            direction == NEG_Z ==> self.z > i8::MIN,
            direction == POS_X ==> self.x < i8::MAX,
            direction == POS_Y ==> self.y < i8::MAX,
            direction == crate::direction::POS_Z ==> self.z < i8::MAX,
        ensures
            r.x == self.x + (if direction == POS_X {
                1int
            } else if direction == NEG_X {
                -1int
            } else {
                0int
            }),
            r.y == self.y + (if direction == POS_Y {
                1int
            } else if direction == NEG_Y {
                -1int
            } else {
                0int
            }),
            r.z == self.z + (if direction == crate::direction::POS_Z {
                1int
            } else if direction == NEG_Z {
                -1int
            } else {
                0int
            }),
    {
        match direction {
            NEG_X => LocalTileCoords { x: self.x - 1, y: self.y, z: self.z },
            NEG_Y => LocalTileCoords { x: self.x, y: self.y - 1, z: self.z },
            NEG_Z => LocalTileCoords { x: self.x, y: self.y, z: self.z - 1 },
            POS_X => LocalTileCoords { x: self.x + 1, y: self.y, z: self.z },
            POS_Y => LocalTileCoords { x: self.x, y: self.y + 1, z: self.z },
            _ => LocalTileCoords { x: self.x, y: self.y, z: self.z + 1 },
        }
    }

    /// The local block coordinates of this tile's lowest corner.
    pub fn to_local_block_coords(self) -> (r: (i32, i32, i32))
        ensures
            r.0 == self.x * 128,
            r.1 == self.y * 128,
            r.2 == self.z * 128,
    {
        ((self.x as i32) * 128, (self.y as i32) * 128, (self.z as i32) * 128)
    }
}

/// A tile's dense position in the graph's storage array.
#[derive(Clone, Copy, Debug, PartialEq, Eq, Structural, Hash)]
pub struct LocalTileIndex(pub u16);

impl LocalTileIndex {
    pub fn to_usize(self) -> (r: usize)
        ensures
            r == self.0,
    {
        self.0 as usize
    }
}

/// The shape of the graph: its tile dimensions and the world's vertical
/// section extents.
#[derive(Clone, Copy, Debug)]
pub struct GraphCoordSpace {
    pub y_length_tiles: u8,
    pub xz_length_tiles: u8,
    pub world_bottom_section_y: i8,
    pub world_top_section_y: i8,
}

impl GraphCoordSpace {
    pub open spec fn xz(self) -> int {
        self.xz_length_tiles as int
    }

    pub open spec fn y_len(self) -> int {
        self.y_length_tiles as int
    }

    /// Total number of tiles the graph stores.
    pub open spec fn total_tiles(self) -> int {
        self.y_len() * self.xz() * self.xz()
    }

    /// Sections of world height.
    pub open spec fn y_length_sections(self) -> int {
        self.world_top_section_y - self.world_bottom_section_y + 1
    }

    /// Dimensions at least 2 so a wrap-step cannot revisit the tile just
    /// left, at most 64 per axis, a total that a 16-bit index can address,
    /// and a world height the tile rows can hold.
    pub open spec fn wf(self) -> bool {
        &&& 2 <= self.y_len() <= 64
        &&& 2 <= self.xz() <= 64
        &&& self.total_tiles() <= 65536
        &&& 1 <= self.y_length_sections() <= 8 * self.y_len()
    }

    /// A tile position whose every coordinate lies inside the stored array.
    pub open spec fn in_array(self, c: LocalTileCoords) -> bool {
        &&& 0 <= c.x < self.xz()
        &&& 0 <= c.y < self.y_len()
        &&& 0 <= c.z < self.xz()
    }

    /// The packed Y-Z-X index of a tile position, with X and Z wrapped into
    /// the array.
    pub open spec fn spec_pack(self, c: LocalTileCoords) -> int
        recommends
            self.wf(),
            0 <= c.y < self.y_len(),
    {
        (c.y as int) * self.xz() * self.xz() + ((c.z as int) % self.xz()) * self.xz() + ((c.x as int) % self.xz())
    }

    /// The tile position a packed index addresses.
    pub open spec fn spec_unpack(self, i: int) -> LocalTileCoords
        recommends
            self.wf(),
            0 <= i < self.total_tiles(),
    {
        LocalTileCoords {
            x: (i % self.xz()) as i8,
            y: (i / (self.xz() * self.xz())) as i8,
            z: ((i / self.xz()) % self.xz()) as i8,
        }
    }

    /// The lengths provided must be at least 2 and at most 64, and the total
    /// tile count must fit a 16-bit index.
    pub fn new(
        y_length_tiles: u8,
        xz_length_tiles: u8,
        world_bottom_section_y: i8,
        world_top_section_y: i8,
    ) -> (r: GraphCoordSpace)
        requires
            2 <= y_length_tiles <= 64,
            2 <= xz_length_tiles <= 64,
            y_length_tiles as int * xz_length_tiles as int * xz_length_tiles as int <= 65536,
            1 <= world_top_section_y - world_bottom_section_y + 1 <= 8 * y_length_tiles,
        ensures
            r == (GraphCoordSpace {
                y_length_tiles,
                xz_length_tiles,
                world_bottom_section_y,
                world_top_section_y,
            }),
            r.wf(),
    {
        GraphCoordSpace { y_length_tiles, xz_length_tiles, world_bottom_section_y, world_top_section_y }
    }

    /// Packs a tile position into its dense index, wrapping X and Z into the
    /// array. The Y coordinate must already be in bounds.
    pub fn pack_index(&self, coords: LocalTileCoords) -> (r: LocalTileIndex)
        requires
            self.wf(),
            0 <= coords.y < self.y_len(),
        ensures
            r.0 == self.spec_pack(coords),
            r.0 < self.total_tiles(),
    {
        let xz = self.xz_length_tiles as i32;
        let x_wrapped = rem_euclid_i32(coords.x as i32, xz) as u32;
        let z_wrapped = rem_euclid_i32(coords.z as i32, xz) as u32;
        let y = coords.y as u32;
        proof {
            assert((coords.y as int) * (self.xz_length_tiles as int) <= 4032) by (nonlinear_arith)
                requires
                    0 <= coords.y <= 63 && self.xz_length_tiles <= 64,
            ;
            assert(((coords.y as int) * (self.xz_length_tiles as int) + (z_wrapped as int)) * (
            self.xz_length_tiles as int) <= 262080) by (nonlinear_arith)
                requires
                    0 <= coords.y,
                    0 <= z_wrapped < 64,
                    (coords.y as int) * (self.xz_length_tiles as int) <= 4032,
                    0 < self.xz_length_tiles <= 64,
            ;
        }
        let r32 = ((y * (self.xz_length_tiles as u32) + z_wrapped) * (self.xz_length_tiles as u32))
            + x_wrapped;
        proof {
            let xzi = self.xz();
            let zw = coords.z as int % xzi;
            let xw = coords.x as int % xzi;
            assert(((coords.y as int) * xzi + zw) * xzi + xw == (coords.y as int) * xzi * xzi + zw
                * xzi + xw) by (nonlinear_arith);
            assert((coords.y as int) * xzi * xzi + zw * xzi + xw < self.total_tiles())
                by (nonlinear_arith)
                requires
                    0 <= coords.y < self.y_len(),
                    0 <= zw < xzi,
                    0 <= xw < xzi,
                    2 <= xzi,
                    self.total_tiles() == self.y_len() * xzi * xzi,
            ;
        }
        LocalTileIndex(r32 as u16)
    }

    /// Whether a tile position's Y coordinate lies inside the graph.
    pub fn tile_coords_in_bounds(&self, coords: LocalTileCoords) -> (r: bool)
        ensures
            r == (0 <= coords.y < self.y_len()),
    {
        let y = coords.y as i16;
        (y >= 0) && (y < self.y_length_tiles as i16)
    }

    /// The tile holding a global section.
    pub open spec fn spec_section_tile(self, x: int, y: int, z: int) -> LocalTileCoords {
        LocalTileCoords {
            x: ((x / 8) % self.xz()) as i8,
            y: ((y - self.world_bottom_section_y) / 8) as i8,
            z: ((z / 8) % self.xz()) as i8,
        }
    }

    /// The packed in-tile bit index of a global section.
    pub open spec fn spec_section_in_tile_index(self, x: int, y: int, z: int) -> int {
        ((y - self.world_bottom_section_y) % 8) * 64 + (z % 8) * 8 + (x % 8)
    }

    /// Calculates the tile coordinates in the graph and the section
    /// coordinates in that tile where the given global section sits. The
    /// section's Y must lie inside the world's vertical extents.
    pub fn section_to_tile_coords(&self, x: i32, y: i32, z: i32) -> (r: (
        LocalTileCoords,
        (u8, u8, u8),
    ))
        requires
            self.wf(),
            self.world_bottom_section_y <= y <= self.world_top_section_y,
        ensures
            r.0 == self.spec_section_tile(x as int, y as int, z as int),
            r.0.x == ((x as int) / 8) % self.xz(),
            r.0.y == (y - self.world_bottom_section_y) / 8,
            r.0.z == ((z as int) / 8) % self.xz(),
            self.in_array(r.0),
            r.1.0 == (x as int) % 8,
            r.1.1 == (y - self.world_bottom_section_y) % 8,
            r.1.2 == (z as int) % 8,
            r.1.0 < 8 && r.1.1 < 8 && r.1.2 < 8,
            r.1.1 * 64 + r.1.2 * 8 + r.1.0 == self.spec_section_in_tile_index(
                x as int,
                y as int,
                z as int,
            ),
    {
        let shifted_y = y - (self.world_bottom_section_y as i32);
        let xz = self.xz_length_tiles as i32;

        let scaled_x = div_euclid_i32(x, 8);
        let scaled_y = shifted_y / 8;
        let scaled_z = div_euclid_i32(z, 8);

        let tile = LocalTileCoords {
            x: rem_euclid_i32(scaled_x, xz) as i8,
            y: scaled_y as i8,
            z: rem_euclid_i32(scaled_z, xz) as i8,
        };
        let sec = (
            rem_euclid_i32(x, 8) as u8,
            (shifted_y % 8) as u8,
            rem_euclid_i32(z, 8) as u8,
        );
        proof {
            assert(0 <= shifted_y <= 8 * self.y_len() - 1);
            assert(0 <= shifted_y / 8 < self.y_len()) by (nonlinear_arith)
                requires
                    0 <= shifted_y <= 8 * self.y_len() - 1,
            ;
        }
        (tile, sec)
    }

    /// Converts global block coordinates to local block coordinates: X and Z
    /// wrap around the graph's horizontal block length, Y is shifted so the
    /// world bottom becomes zero.
    pub fn block_to_local_coords(&self, x: i32, y: i32, z: i32) -> (r: (i32, i32, i32))
        requires
            self.wf(),
            i32::MIN + 2048 <= y,
            y <= i32::MAX - 2048,
        ensures
            r.0 == (x as int) % (self.xz() * 128),
            r.1 == y - self.world_bottom_section_y * 16,
            r.2 == (z as int) % (self.xz() * 128),
            0 <= r.0 < self.xz() * 128,
            0 <= r.2 < self.xz() * 128,
    {
        let m = (self.xz_length_tiles as i32) * 128;
        let world_bottom_block_y = (self.world_bottom_section_y as i32) * 16;
        (rem_euclid_i32(x, m), y - world_bottom_block_y, rem_euclid_i32(z, m))
    }
}

/// Packing is a bijection between in-array tile positions and indices below
/// the tile total: unpacking a packed position returns it unchanged.
pub proof fn lemma_pack_unpack(cs: GraphCoordSpace, c: LocalTileCoords)
    requires
        cs.wf(),
        cs.in_array(c),
    ensures
        0 <= cs.spec_pack(c) < cs.total_tiles(),
        cs.spec_unpack(cs.spec_pack(c)) == c,
{
    let xz = cs.xz();
    let i = cs.spec_pack(c);
    vstd::arithmetic::div_mod::lemma_small_mod(c.x as nat, xz as nat);
    vstd::arithmetic::div_mod::lemma_small_mod(c.z as nat, xz as nat);
    assert(i == ((c.y as int) * xz + c.z) * xz + c.x) by (nonlinear_arith)
        requires
            i == (c.y as int) * xz * xz + ((c.z as int) % xz) * xz + ((c.x as int) % xz),
            (c.x as int) % xz == c.x as int,
            (c.z as int) % xz == c.z as int,
    ;
    assert(0 <= i < cs.total_tiles()) by (nonlinear_arith)
        requires
            i == ((c.y as int) * xz + c.z) * xz + c.x,
            0 <= c.x < xz,
            0 <= c.y < cs.y_len(),
            0 <= c.z < xz,
            cs.total_tiles() == cs.y_len() * xz * xz,
    ;
    vstd::arithmetic::div_mod::lemma_fundamental_div_mod_converse(
        i,
        xz,
        (c.y as int) * xz + c.z,
        c.x as int,
    );
    assert(i / xz == (c.y as int) * xz + c.z && i % xz == c.x);
    vstd::arithmetic::div_mod::lemma_fundamental_div_mod_converse(
        i / xz,
        xz,
        c.y as int,
        c.z as int,
    );
    assert((i / xz) % xz == c.z && (i / xz) / xz == c.y);
    assert(i / (xz * xz) == (i / xz) / xz) by {
        vstd::arithmetic::div_mod::lemma_div_denominator(i, xz, xz);
    }
}

/// Packing ignores X and Z wrapping: positions that wrap onto the same array
/// cell share the packed index.
pub proof fn lemma_pack_wraps(cs: GraphCoordSpace, c: LocalTileCoords, w: LocalTileCoords)
    requires
        cs.wf(),
        0 <= c.y < cs.y_len(),
        w.y == c.y,
        w.x == (c.x as int) % cs.xz(),
        w.z == (c.z as int) % cs.xz(),
    ensures
        cs.spec_pack(w) == cs.spec_pack(c),
{
    let xz = cs.xz();
    vstd::arithmetic::div_mod::lemma_mod_twice(c.x as int, xz);
    vstd::arithmetic::div_mod::lemma_mod_twice(c.z as int, xz);
    assert((c.x as int % xz) % xz == c.x as int % xz);
    assert((c.z as int % xz) % xz == c.z as int % xz);
}

} // verus!
