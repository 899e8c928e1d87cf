//! Per-frame search state derived from the camera.
//!
//! The host splits the camera position into integer block coordinates and
//! computes, with its own floating-point arithmetic, how far the search may
//! reach along each axis in blocks. Everything else - local coordinates, the
//! camera's area relative to the world, the iteration start tile, per-face
//! step counts and the outward direction masks - is integer work done here.

use vstd::prelude::*;

use crate::coords::div_euclid_i32;
use crate::coords::rem_euclid_i32;
use crate::coords::GraphCoordSpace;
use crate::coords::LocalTileCoords;
use crate::tile::gen_outward_direction_masks;
use crate::tile::DirectionSets;

verus! {

/// Bit of a combined test result meaning the fog cylinder cuts the tile.
pub const FOG_BIT: u16 = 0b01000000;

/// Bit of a combined test result meaning the world top cuts the tile.
pub const HEIGHT_BIT: u16 = 0b10000000;

/// The low six bits of a combined test result: which frustum planes still
/// cut the tile.
pub const FRUSTUM_PLANE_BITS: u16 = 0b00111111;

/// The outcome of testing one tile against frustum, fog and world height.
///
/// The all-ones value means the tile is conclusively outside. Any other
/// value is a bit set: the low six bits name the frustum planes that still
/// cut the tile, and two more bits mark a partial fog or height cut.
#[derive(Clone, Copy, Debug, PartialEq, Eq, Structural)]
pub struct CombinedTestResults(pub u16);

impl CombinedTestResults {
    pub open spec fn is_outside_spec(self) -> bool {
        self.0 == 0xFFFF
    }

    /// No test cut the tile at all.
    pub fn all_inside() -> (r: CombinedTestResults)
        ensures
            r.0 == 0,
    {
        CombinedTestResults(0)
    }

    /// Some test conclusively rejected the tile.
    pub fn outside() -> (r: CombinedTestResults)
        ensures
            r.0 == 0xFFFF,
            r.is_outside_spec(),
    {
        CombinedTestResults(0xFFFF)
    }

    pub fn is_outside(&self) -> (r: bool)
        ensures
            r == self.is_outside_spec(),
    {
        self.0 == 0xFFFF
    }

    /// Whether the test marked by `bit` cut the tile only partially.
    pub fn is_partial(&self, bit: u16) -> (r: bool)
        ensures
            r == (self.0 & bit == bit),
    {
        crate::bitset::contains_u16(self.0, bit)
    }

    /// Records a partial cut by the test marked by `bit`.
    pub fn set_partial(&mut self, bit: u16, value: bool)
        ensures
            final(self).0 == (old(self).0 | (if value {
                bit
            } else {
                0u16
            })),
    {
        if value {
            self.0 = self.0 | bit;
        } else {
            proof {
                let s = self.0;
                assert(s | 0u16 == s) by (bit_vector);
            }
        }
    }

    /// Records which frustum planes still cut the tile.
    pub fn set_intersecting_planes(&mut self, value: u8)
        ensures
            final(self).0 == (old(self).0 | value as u16),
    {
        self.0 = self.0 | (value as u16);
    }

    /// The frustum planes that still cut the tile.
    pub fn get_intersecting_planes(&self) -> (r: u8)
        ensures
            r == (self.0 & FRUSTUM_PLANE_BITS) as u8,
    {
        (self.0 & FRUSTUM_PLANE_BITS) as u8
    }
}

/// Where the camera sits relative to the world's vertical extents.
#[derive(Clone, Copy, Debug, PartialEq, Eq, Structural)]
pub enum CameraArea {
    Inside,
    Above,
    Below,
}

/// Per-direction tile step counts of the search, by direction ordinal.
#[derive(Clone, Copy, Debug)]
pub struct DirectionSteps {
    pub neg_x: u8,
    pub neg_y: u8,
    pub neg_z: u8,
    pub pos_x: u8,
    pub pos_y: u8,
    pub pos_z: u8,
}

impl DirectionSteps {
    pub open spec fn get(self, d: int) -> u8 {
        if d == 0 {
            self.neg_x
        } else if d == 1 {
            self.neg_y
        } else if d == 2 {
            self.neg_z
        } else if d == 3 {
            self.pos_x
        } else if d == 4 {
            self.pos_y
        } else {
            self.pos_z
        }
    }

    pub fn get_dir(&self, d: usize) -> (r: u8)
        requires
            d < 6,
        ensures
            r == self.get(d as int),
    {
        match d {
            0 => self.neg_x,
            1 => self.neg_y,
            2 => self.neg_z,
            3 => self.pos_x,
            4 => self.pos_y,
            _ => self.pos_z,
        }
    }
}

/// Tile steps outward to a positive-direction end block.
pub open spec fn pos_step_count(end_block: int, start_tile: int) -> int {
    if end_block / 128 >= start_tile {
        end_block / 128 - start_tile
    } else {
        0
    }
}

/// Tile steps outward to a negative-direction end block.
pub open spec fn neg_step_count(end_block: int, start_tile: int) -> int {
    if start_tile >= end_block / 128 {
        start_tile - end_block / 128
    } else {
        0
    }
}

pub open spec fn clamp_spec(v: int, lo: int, hi: int) -> int {
    if v < lo {
        lo
    } else if v > hi {
        hi
    } else {
        v
    }
}

/// Everything one cull derives from the camera before visiting tiles.
pub struct GraphSearchContext {
    /// Global minus local camera block position, in section units: turns a
    /// local section position back into a global one.
    pub global_section_offset: (i32, i32, i32),
    /// Camera block position in local coordinates.
    pub camera_pos_int: (i32, i32, i32),
    pub camera_area: CameraArea,
    /// The camera's section within its tile.
    pub camera_section_in_tile: (u8, u8, u8),
    /// The tile the outward iteration starts from.
    pub iter_start_tile_coords: LocalTileCoords,
    pub direction_step_counts: DirectionSteps,
    pub use_occlusion_culling: bool,
    /// Per face, the sections outward of the camera's section.
    pub outward_direction_masks: DirectionSets,
}

impl GraphSearchContext {
    /// The derived context is consistent with a graph shape: the start tile
    /// and the step counts keep every visited tile's Y inside the stored
    /// array.
    pub open spec fn wf(self, cs: GraphCoordSpace) -> bool {
        &&& 0 <= self.iter_start_tile_coords.x < cs.xz()
        &&& 0 <= self.iter_start_tile_coords.z < cs.xz()
        &&& (match self.camera_area {
            CameraArea::Inside => 0 <= self.iter_start_tile_coords.y < cs.y_len(),
            CameraArea::Above => self.iter_start_tile_coords.y == cs.y_len(),
            CameraArea::Below => self.iter_start_tile_coords.y == -1,
        })
        &&& self.iter_start_tile_coords.y - self.direction_step_counts.get(1) >= 0 || (
        self.camera_area == CameraArea::Below && self.direction_step_counts.get(1) == 0)
        &&& self.iter_start_tile_coords.y + self.direction_step_counts.get(4) <= cs.y_len() - 1 || (
        self.camera_area == CameraArea::Above && self.direction_step_counts.get(4) == 0)
        &&& self.camera_area == CameraArea::Above ==> self.direction_step_counts.get(1) >= 1
        &&& self.camera_area == CameraArea::Below ==> self.direction_step_counts.get(4) >= 1
        &&& self.direction_step_counts.get(0) <= 128
        &&& self.direction_step_counts.get(2) <= 128
        &&& self.direction_step_counts.get(3) <= 128
        &&& self.direction_step_counts.get(5) <= 128
        &&& self.camera_section_in_tile.0 < 8
        &&& self.camera_section_in_tile.1 < 8
        &&& self.camera_section_in_tile.2 < 8
        &&& -134217728 <= self.global_section_offset.0 <= 134217728
        &&& -134217728 <= self.global_section_offset.1 <= 134217728
        &&& -134217728 <= self.global_section_offset.2 <= 134217728
        &&& self.iter_start_tile_coords.x - self.direction_step_counts.get(0) >= -64
        &&& self.iter_start_tile_coords.x + self.direction_step_counts.get(3) <= 127
        &&& self.iter_start_tile_coords.z - self.direction_step_counts.get(2) >= -64
        &&& self.iter_start_tile_coords.z + self.direction_step_counts.get(5) <= 127
    }

    /// Derives the per-frame state. The host supplies the floored global
    /// camera block position and, per axis, the last block the search may
    /// reach in the positive and negative directions (local coordinates,
    /// from its own distance arithmetic). Both reaches must stay within one
    /// wrap of the graph, and the camera's Y must leave room for the world
    /// shift.
    pub fn new(
        coord_space: &GraphCoordSpace,
        global_camera_block: (i32, i32, i32),
        iter_end_pos_blocks: (u16, u16, u16),
        iter_end_neg_blocks: (i16, i16, i16),
        use_occlusion_culling: bool,
    ) -> (r: GraphSearchContext)
        requires
            coord_space.wf(),
            iter_end_pos_blocks.0 < coord_space.xz() * 256,
            iter_end_pos_blocks.2 < coord_space.xz() * 256,
            iter_end_neg_blocks.0 >= -(coord_space.xz() * 128),
            iter_end_neg_blocks.2 >= -(coord_space.xz() * 128),
            iter_end_neg_blocks.0 < coord_space.xz() * 128,
            iter_end_neg_blocks.2 < coord_space.xz() * 128,
            i32::MIN + 16384 <= global_camera_block.0 <= i32::MAX - 16384,
            i32::MIN + 16384 <= global_camera_block.1 <= i32::MAX - 16384,
            i32::MIN + 16384 <= global_camera_block.2 <= i32::MAX - 16384,
        ensures
            r.wf(*coord_space),
            r.camera_pos_int.0 == (global_camera_block.0 as int) % (coord_space.xz() * 128),
            r.camera_pos_int.1 == global_camera_block.1 - coord_space.world_bottom_section_y * 16,
            r.camera_pos_int.2 == (global_camera_block.2 as int) % (coord_space.xz() * 128),
            r.global_section_offset.0 == (global_camera_block.0 - r.camera_pos_int.0) / 16,
            r.global_section_offset.1 == (global_camera_block.1 - r.camera_pos_int.1) / 16,
            r.global_section_offset.2 == (global_camera_block.2 - r.camera_pos_int.2) / 16,
            r.camera_area == (if global_camera_block.1 > (coord_space.world_top_section_y + 1) * 16
                - 1 {
                CameraArea::Above
            } else if global_camera_block.1 < coord_space.world_bottom_section_y * 16 {
                CameraArea::Below
            } else {
                CameraArea::Inside
            }),
            r.iter_start_tile_coords.x == r.camera_pos_int.0 / 128,
            r.iter_start_tile_coords.z == r.camera_pos_int.2 / 128,
            r.camera_area == CameraArea::Inside ==> r.iter_start_tile_coords.y
                == r.camera_pos_int.1 / 128,
            r.camera_section_in_tile.0 == (r.camera_pos_int.0 / 16) % 8,
            r.camera_section_in_tile.1 == (r.camera_pos_int.1 / 16) % 8,
            r.camera_section_in_tile.2 == (r.camera_pos_int.2 / 16) % 8,
            r.direction_step_counts.get(3) == pos_step_count(
                iter_end_pos_blocks.0 as int,
                r.iter_start_tile_coords.x as int,
            ),
            r.direction_step_counts.get(5) == pos_step_count(
                iter_end_pos_blocks.2 as int,
                r.iter_start_tile_coords.z as int,
            ),
            r.direction_step_counts.get(4) == pos_step_count(
                clamp_spec(
                    iter_end_pos_blocks.1 as int,
                    0,
                    coord_space.y_length_sections() * 16 - 1,
                ),
                r.iter_start_tile_coords.y as int,
            ),
            r.direction_step_counts.get(0) == neg_step_count(
                iter_end_neg_blocks.0 as int,
                r.iter_start_tile_coords.x as int,
            ),
            r.direction_step_counts.get(2) == neg_step_count(
                iter_end_neg_blocks.2 as int,
                r.iter_start_tile_coords.z as int,
            ),
            r.direction_step_counts.get(1) == neg_step_count(
                clamp_spec(
                    iter_end_neg_blocks.1 as int,
                    0,
                    coord_space.y_length_sections() * 16 - 1,
                ),
                r.iter_start_tile_coords.y as int,
            ),
            r.use_occlusion_culling == use_occlusion_culling,
            forall|x: u64, y: u64, z: u64|
                x < 8 && y < 8 && z < 8 ==> #[trigger] r.outward_direction_masks.get(0).bit(
                    x,
                    y,
                    z,
                ) == (x <= r.camera_section_in_tile.0),
            forall|x: u64, y: u64, z: u64|
                x < 8 && y < 8 && z < 8 ==> #[trigger] r.outward_direction_masks.get(1).bit(
                    x,
                    y,
                    z,
                ) == (y <= r.camera_section_in_tile.1),
            forall|x: u64, y: u64, z: u64|
                x < 8 && y < 8 && z < 8 ==> #[trigger] r.outward_direction_masks.get(2).bit(
                    x,
                    y,
                    z,
                ) == (z <= r.camera_section_in_tile.2),
            forall|x: u64, y: u64, z: u64|
                x < 8 && y < 8 && z < 8 ==> #[trigger] r.outward_direction_masks.get(3).bit(
                    x,
                    y,
                    z,
                ) == (x >= r.camera_section_in_tile.0),
            forall|x: u64, y: u64, z: u64|
                x < 8 && y < 8 && z < 8 ==> #[trigger] r.outward_direction_masks.get(4).bit(
                    x,
                    y,
                    z,
                ) == (y >= r.camera_section_in_tile.1),
            forall|x: u64, y: u64, z: u64|
                x < 8 && y < 8 && z < 8 ==> #[trigger] r.outward_direction_masks.get(5).bit(
                    x,
                    y,
                    z,
                ) == (z >= r.camera_section_in_tile.2),
    {
        let (gx, gy, gz) = global_camera_block;
        let (lx, ly, lz) = coord_space.block_to_local_coords(gx, gy, gz);

        let offset_x = div_euclid_i32(gx - lx, 16);
        let offset_y = div_euclid_i32(gy - ly, 16);
        let offset_z = div_euclid_i32(gz - lz, 16);

        let start_x = div_euclid_i32(lx, 128);
        let start_z = div_euclid_i32(lz, 128);

        let global_top_block_y = ((coord_space.world_top_section_y as i32) + 1) * 16 - 1;
        let global_bottom_block_y = (coord_space.world_bottom_section_y as i32) * 16;
        let local_top_block_y = global_top_block_y - global_bottom_block_y;

        let camera_area = if gy > global_top_block_y {
            CameraArea::Above
        } else if gy < global_bottom_block_y {
            CameraArea::Below
        } else {
            CameraArea::Inside
        };
        let start_y: i32 = match camera_area {
            CameraArea::Above => coord_space.y_length_tiles as i32,
            CameraArea::Below => -1,
            CameraArea::Inside => div_euclid_i32(ly, 128),
        };
        proof {
            assert(0 <= lx / 128 < coord_space.xz()) by (nonlinear_arith)
                requires
                    0 <= lx < coord_space.xz() * 128,
            ;
            assert(0 <= lz / 128 < coord_space.xz()) by (nonlinear_arith)
                requires
                    0 <= lz < coord_space.xz() * 128,
            ;
            if camera_area == CameraArea::Inside {
                assert(0 <= ly / 128 < coord_space.y_len()) by (nonlinear_arith)
                    requires
                        0 <= ly <= coord_space.y_length_sections() * 16 - 1,
                        coord_space.y_length_sections() <= 8 * coord_space.y_len(),
                        2 <= coord_space.y_len(),
                ;
            }
        }

        let pos_x_steps = pos_steps(iter_end_pos_blocks.0 as i32, start_x);
        let pos_z_steps = pos_steps(iter_end_pos_blocks.2 as i32, start_z);
        let end_pos_y = clamp_i32(iter_end_pos_blocks.1 as i32, 0, local_top_block_y);
        let pos_y_steps = pos_steps(end_pos_y, start_y);

        let neg_x_steps = neg_steps(iter_end_neg_blocks.0 as i32, start_x);
        let neg_z_steps = neg_steps(iter_end_neg_blocks.2 as i32, start_z);
        let end_neg_y = clamp_i32(iter_end_neg_blocks.1 as i32, 0, local_top_block_y);
        let neg_y_steps = neg_steps(end_neg_y, start_y);

        proof {
            assert(end_pos_y / 128 <= coord_space.y_len() - 1) by (nonlinear_arith)
                requires
                    0 <= end_pos_y <= coord_space.y_length_sections() * 16 - 1,
                    coord_space.y_length_sections() <= 8 * coord_space.y_len(),
                    2 <= coord_space.y_len(),
            ;
            assert(end_neg_y / 128 >= 0) by (nonlinear_arith)
                requires
                    0 <= end_neg_y,
            ;
            assert(end_neg_y / 128 <= coord_space.y_len() - 1) by (nonlinear_arith)
                requires
                    0 <= end_neg_y <= coord_space.y_length_sections() * 16 - 1,
                    coord_space.y_length_sections() <= 8 * coord_space.y_len(),
                    2 <= coord_space.y_len(),
            ;
        }

        let cam_sec_x = rem_euclid_i32(div_euclid_i32(lx, 16), 8) as u8;
        let cam_sec_y = rem_euclid_i32(div_euclid_i32(ly, 16), 8) as u8;
        let cam_sec_z = rem_euclid_i32(div_euclid_i32(lz, 16), 8) as u8;
        let camera_section_in_tile = (cam_sec_x, cam_sec_y, cam_sec_z);
        let outward_direction_masks = gen_outward_direction_masks(camera_section_in_tile);

        let r = GraphSearchContext {
            global_section_offset: (offset_x, offset_y, offset_z),
            camera_pos_int: (lx, ly, lz),
            camera_area,
            camera_section_in_tile,
            iter_start_tile_coords: LocalTileCoords {
                x: start_x as i8,
                y: start_y as i8,
                z: start_z as i8,
            },
            direction_step_counts: DirectionSteps {
                neg_x: neg_x_steps,
                neg_y: neg_y_steps,
                neg_z: neg_z_steps,
                pos_x: pos_x_steps,
                pos_y: pos_y_steps,
                pos_z: pos_z_steps,
            },
            use_occlusion_culling,
            outward_direction_masks,
        };
        r
    }
}

/// Steps from a start tile to the tile of a positive-direction end block;
/// zero when the end lies at or behind the start.
fn pos_steps(end_block: i32, start_tile: i32) -> (r: u8)
    requires
        0 <= end_block < 16384,
        -1 <= start_tile <= 64,
    ensures
        r == pos_step_count(end_block as int, start_tile as int),
{
    let end_tile = end_block / 128;
    proof {
        assert(0 <= end_block as int / 128 <= 127) by (nonlinear_arith)
            requires
                0 <= end_block < 16384,
        ;
    }
    if end_tile >= start_tile {
        (end_tile - start_tile) as u8
    } else {
        0
    }
}

/// Steps from a start tile to the tile of a negative-direction end block;
/// zero when the end lies at or ahead of the start.
fn neg_steps(end_block: i32, start_tile: i32) -> (r: u8)
    requires
        -16384 <= end_block < 16384,
        -1 <= start_tile <= 64,
    ensures
        r == neg_step_count(end_block as int, start_tile as int),
{
    let end_tile = div_euclid_i32(end_block, 128);
    proof {
        assert(-128 <= end_block as int / 128 <= 127) by (nonlinear_arith)
            requires
                -16384 <= end_block < 16384,
        ;
    }
    if start_tile >= end_tile {
        (start_tile - end_tile) as u8
    } else {
        0
    }
}

fn clamp_i32(v: i32, lo: i32, hi: i32) -> (r: i32)
    requires
        lo <= hi,
    ensures
        r == clamp_spec(v as int, lo as int, hi as int),
{
    if v < lo {
        lo
    } else if v > hi {
        hi
    } else {
        v
    }
}


/// The world-height test of one tile: above the stored rows the tile is
/// conclusively outside; on the topmost row it is partially cut when height
/// checks are on.
pub fn test_coords(
    coord_space: &GraphCoordSpace,
    tile_y: i8,
    results: &mut CombinedTestResults,
)
    requires
        coord_space.wf(),
    ensures
        tile_y > coord_space.y_len() - 1 ==> final(results).0 == 0xFFFF,
        tile_y <= coord_space.y_len() - 1 ==> final(results).0 == (old(results).0 | (if tile_y
            == coord_space.y_len() - 1 {
            HEIGHT_BIT
        } else {
            0u16
        })),
{
    let world_max_y = (coord_space.y_length_tiles - 1) as i8;

    if tile_y > world_max_y {
        *results = CombinedTestResults::outside();
        return ;
    }

    results.set_partial(HEIGHT_BIT, tile_y == world_max_y);
}

} // verus!
