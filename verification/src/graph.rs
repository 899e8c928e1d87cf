//! The tile graph and the outward octant search that culls it.
//!
//! Tiles live in a dense array indexed in Y-Z-X order; X and Z wrap, Y does
//! not. A cull visits the camera's tile, then six axial rays, twelve planar
//! quadrants and eight octants, so that each visited tile's incoming
//! neighbors were processed before it. Every visited tile runs the frustum,
//! fog and height cuts (voxelized by the host into one mask), the occlusion
//! flood fill, and is emitted when any section stays visible.

use vstd::prelude::*;

use crate::bitset::BitSet;
use crate::context::CameraArea;
use crate::context::CombinedTestResults;
use crate::context::GraphSearchContext;
use crate::context::HEIGHT_BIT;
use crate::coords::GraphCoordSpace;
use crate::coords::LocalTileCoords;
use crate::direction::dir_in_set;
use crate::direction::dir_index_spec;
use crate::direction::is_dir_set;
use crate::direction::is_single_dir;
use crate::direction::ALL_DIRECTIONS;
use crate::direction::NEG_X;
use crate::direction::NEG_Y;
use crate::direction::NEG_Z;
use crate::direction::POS_X;
use crate::direction::POS_Y;
use crate::direction::POS_Z;
use crate::sections::spec_and;
use crate::sections::SectionSet;
use crate::tile::AngleMasks;
use crate::tile::DirectionSets;
use crate::tile::Tile;
use crate::visibility::connection_bit_index;
use crate::visibility::connection_bit_index_spec;

verus! {

/// One emitted tile of a cull: the global section coordinates of its lowest
/// corner and its visible sections in wire bit order.
pub struct FFITile {
    pub origin_section_coords: (i32, i32, i32),
    pub visible_sections: SectionSet,
}

/// Chunks of reach the host's storage keeps around the camera.
pub open spec fn storage_distance_spec(render_distance: u8) -> int {
    (if render_distance < 2 {
        2
    } else {
        render_distance as int
    }) + 3
}

/// Tiles per horizontal axis for a render distance: sections rounded up to
/// whole tiles, at least 2.
pub open spec fn xz_length_tiles_spec(render_distance: u8) -> int {
    let sections = storage_distance_spec(render_distance) * 2 + 1;
    let tiles = (sections + 7) / 8;
    if tiles < 2 {
        2
    } else {
        tiles
    }
}

/// Tiles of world height: sections rounded up to whole tiles, at least 2.
pub open spec fn y_length_tiles_spec(world_bottom_section_y: i8, world_top_section_y: i8) -> int {
    let sections = world_top_section_y - world_bottom_section_y + 1;
    let tiles = (sections + 7) / 8;
    if tiles < 2 {
        2
    } else {
        tiles
    }
}

/// The graph of tiles and the per-cull output list.
pub struct Graph {
    pub tiles: Vec<Tile>,
    pub coord_space: GraphCoordSpace,
    pub do_height_checks: bool,
    pub top_tile_visibility_mask: SectionSet,
    pub oob_above_incoming_sections: SectionSet,
    pub visible_tiles: Vec<FFITile>,
}

impl Graph {
    pub open spec fn wf(self) -> bool {
        &&& self.coord_space.wf()
        &&& self.tiles@.len() == self.coord_space.total_tiles()
        &&& forall|k: int| 0 <= k < self.tiles@.len() ==> (#[trigger] self.tiles@[k]).wf()
        &&& self.do_height_checks == (self.coord_space.y_length_sections() % 8 != 0)
    }

    /// The tile stored at a packed index.
    pub open spec fn tile_at(self, k: int) -> Tile {
        self.tiles@[k]
    }

    /// Creates the graph for a render distance and world vertical extents.
    /// The storage distance and tile dimensions follow the host's chunk
    /// storage: `max(render_distance, 2) + 3` chunks of reach, axes rounded
    /// up to whole tiles and kept at least 2 tiles long.
    pub fn new(render_distance: u8, world_bottom_section_y: i8, world_top_section_y: i8) -> (r:
        Graph)
        requires
            world_top_section_y >= world_bottom_section_y,
            xz_length_tiles_spec(render_distance) <= 64,
            y_length_tiles_spec(world_bottom_section_y, world_top_section_y)
                * xz_length_tiles_spec(render_distance) * xz_length_tiles_spec(render_distance)
                <= 65536,
        ensures
            r.wf(),
            r.coord_space.xz() == xz_length_tiles_spec(render_distance),
            r.coord_space.y_len() == y_length_tiles_spec(
                world_bottom_section_y,
                world_top_section_y,
            ),
            r.coord_space.world_bottom_section_y == world_bottom_section_y,
            r.coord_space.world_top_section_y == world_top_section_y,
            r.visible_tiles@.len() == 0,
            forall|k: int|
                0 <= k < r.tiles@.len() ==> {
                    &&& forall|ci: int|
                        0 <= ci < 15 ==> (#[trigger] r.tile_at(k)).conn(ci)
                            == SectionSet::empty_spec()
                    &&& r.tile_at(k).outgoing_dir_section_sets == crate::tile::dirsets_empty_spec()
                    &&& !r.tile_at(k).processed
                },
            // the top tile row's masks follow the world's remaining section
            // height
            forall|x: u64, y: u64, z: u64|
                x < 8 && y < 8 && z < 8 ==> #[trigger] r.top_tile_visibility_mask.bit(x, y, z) == (
                r.coord_space.y_length_sections() % 8 == 0 || y < r.coord_space.y_length_sections()
                    % 8),
            forall|x: u64, y: u64, z: u64|
                x < 8 && y < 8 && z < 8 ==> #[trigger] r.oob_above_incoming_sections.bit(x, y, z)
                    == (y >= crate::masks::oob_above_start(
                    (r.coord_space.y_length_sections() % 8) as u16,
                )),
    {
        let storage_distance: u16 = if render_distance < 2 {
            2
        } else {
            render_distance as u16
        } + 3;
        let y_length_sections: u16 = (world_top_section_y as i16 - world_bottom_section_y as i16
            + 1) as u16;
        let xz_length_sections: u16 = storage_distance * 2 + 1;

        let y_length_tiles: u16 = {
            let t = (y_length_sections + 7) / 8;
            if t < 2 {
                2
            } else {
                t
            }
        };
        let xz_length_tiles: u16 = {
            let t = (xz_length_sections + 7) / 8;
            if t < 2 {
                2
            } else {
                t
            }
        };
        proof {
            assert(y_length_tiles <= 64) by {
                assert((y_length_sections + 7) / 8 <= 32);
            }
            assert(8 * (((y_length_sections as int) + 7) / 8) >= y_length_sections);
            assert(xz_length_tiles as int == xz_length_tiles_spec(render_distance));
            assert(y_length_tiles as int == y_length_tiles_spec(
                world_bottom_section_y,
                world_top_section_y,
            ));
            assert((y_length_tiles as int) * (xz_length_tiles as int) * (xz_length_tiles as int)
                <= 65536);
            assert((y_length_tiles as int) * (xz_length_tiles as int) <= 65536) by (nonlinear_arith)
                requires
                    (y_length_tiles as int) * (xz_length_tiles as int) * (xz_length_tiles as int)
                        <= 65536,
                    2 <= xz_length_tiles <= 64,
                    2 <= y_length_tiles <= 64,
            ;
        }

        let graph_total_tiles: usize = (y_length_tiles as usize) * (xz_length_tiles as usize)
            * (xz_length_tiles as usize);

        let mut tiles: Vec<Tile> = Vec::new();
        let mut i: usize = 0;
        while i < graph_total_tiles
            invariant
                i <= graph_total_tiles,
                tiles@.len() == i,
                forall|k: int|
                    0 <= k < i ==> {
                        &&& (#[trigger] tiles@[k]).wf()
                        &&& forall|ci: int|
                            0 <= ci < 15 ==> (#[trigger] tiles@[k].conn(ci))
                                == SectionSet::empty_spec()
                        &&& tiles@[k].outgoing_dir_section_sets
                            == crate::tile::dirsets_empty_spec()
                        &&& !tiles@[k].processed
                    },
            decreases graph_total_tiles - i,
        {
            tiles.push(Tile::new());
            i = i + 1;
        }

        let section_height_in_top_tile: u16 = y_length_sections % 8;
        let do_height_checks = section_height_in_top_tile != 0;
        let top_tile_visibility_mask = if do_height_checks {
            crate::masks::gen_top_tile_visibility_mask(section_height_in_top_tile)
        } else {
            SectionSet::filled()
        };
        let oob_above_incoming_sections = crate::masks::gen_oob_above_incoming_sections(
            section_height_in_top_tile,
        );

        let r = Graph {
            tiles,
            coord_space: GraphCoordSpace::new(
                y_length_tiles as u8,
                xz_length_tiles as u8,
                world_bottom_section_y,
                world_top_section_y,
            ),
            do_height_checks,
            top_tile_visibility_mask,
            oob_above_incoming_sections,
            visible_tiles: Vec::new(),
        };
        proof {
            crate::sections::lemma_lane_extremes();
            let rem = r.coord_space.y_length_sections() % 8;
            assert(rem == section_height_in_top_tile);
            assert forall|x: u64, y: u64, z: u64| x < 8 && y < 8 && z < 8 implies #[trigger] r
                .top_tile_visibility_mask.bit(x, y, z) == (rem == 0 || y < rem) by {
                assert(top_tile_visibility_mask.bit(x, y, z) == (rem == 0 || y < rem)) by {
                    if rem == 0 {
                        assert(z * 8 + x < 64);
                    }
                }
            }
            assert forall|x: u64, y: u64, z: u64| x < 8 && y < 8 && z < 8 implies #[trigger] r
                .oob_above_incoming_sections.bit(x, y, z) == (y >= crate::masks::oob_above_start(
                rem as u16,
            )) by {
                assert(oob_above_incoming_sections.bit(x, y, z) == (y
                    >= crate::masks::oob_above_start(section_height_in_top_tile)));
            }
        }
        r
    }

    /// Clears the per-cull state: the output list and every processed flag.
    /// The connection cubes and the stale outgoing cubes stay; each visit
    /// rewrites its own tile's outgoing cubes before reading them.
    pub fn clear(&mut self)
        requires
            old(self).wf(),
        ensures
            final(self).wf(),
            final(self).coord_space == old(self).coord_space,
            final(self).do_height_checks == old(self).do_height_checks,
            final(self).top_tile_visibility_mask == old(self).top_tile_visibility_mask,
            final(self).oob_above_incoming_sections == old(self).oob_above_incoming_sections,
            final(self).visible_tiles@.len() == 0,
            final(self).tiles@ == cleared_tiles_spec(old(self).tiles@),
            forall|k: int|
                0 <= k < final(self).tiles@.len() ==> {
                    &&& (#[trigger] final(self).tile_at(k)).connection_section_sets == old(
                        self,
                    ).tile_at(k).connection_section_sets
                    &&& !final(self).tile_at(k).processed
                },
    {
        self.visible_tiles.clear();

        let ghost g0 = *self;
        let n = self.tiles.len();
        let mut i: usize = 0;
        while i < n
            invariant
                n == self.tiles@.len(),
                self.tiles@.len() == g0.tiles@.len(),
                i <= n,
                self.coord_space == g0.coord_space,
                self.do_height_checks == g0.do_height_checks,
                self.top_tile_visibility_mask == g0.top_tile_visibility_mask,
                self.oob_above_incoming_sections == g0.oob_above_incoming_sections,
                self.visible_tiles@.len() == 0,
                forall|k: int| i <= k < n ==> #[trigger] self.tiles@[k] == g0.tiles@[k],
                forall|k: int|
                    0 <= k < i ==> #[trigger] self.tiles@[k] == cleared_tiles_spec(g0.tiles@)[k],
            decreases n - i,
        {
            self.tiles[i].processed = false;
            proof {
                assert(self.tiles@[i as int] == cleared_tiles_spec(g0.tiles@)[i as int]);
            }
            i = i + 1;
        }
        proof {
            assert(self.tiles@ =~= cleared_tiles_spec(g0.tiles@));
            assert forall|k: int| 0 <= k < self.tiles@.len() implies {
                &&& (#[trigger] self.tile_at(k)).connection_section_sets == g0.tile_at(
                    k,
                ).connection_section_sets
                &&& !self.tile_at(k).processed
            } by {
                assert(self.tiles@[k] == cleared_tiles_spec(g0.tiles@)[k]);
            }
            assert forall|k: int| 0 <= k < self.tiles@.len() implies (#[trigger] self.tiles@[k]).wf()
                by {
                assert(self.tiles@[k].connection_section_sets == g0.tiles@[k].connection_section_sets);
            }
        }
    }

    /// Stores one section's visibility word: for each of the fifteen face
    /// pairs, the section's bit in that pair's connection cube is set to the
    /// pair's bit of the host word. The section's Y must lie inside the
    /// world.
    pub fn set_section(&mut self, x: i32, y: i32, z: i32, visibility_data: u64)
        requires
            old(self).wf(),
            old(self).coord_space.world_bottom_section_y <= y <= old(
                self,
            ).coord_space.world_top_section_y,
        ensures
            final(self).wf(),
            final(self).coord_space == old(self).coord_space,
            final(self).visible_tiles == old(self).visible_tiles,
            forall|k: int|
                0 <= k < final(self).tiles@.len() && k != final(self).coord_space.spec_pack(
                    final(self).coord_space.spec_section_tile(x as int, y as int, z as int),
                ) ==> #[trigger] final(self).tiles@[k] == old(self).tiles@[k],
            ({
                let c = final(self).coord_space.spec_section_tile(x as int, y as int, z as int);
                let k = final(self).coord_space.spec_pack(c);
                let si = final(self).coord_space.spec_section_in_tile_index(
                    x as int,
                    y as int,
                    z as int,
                );
                &&& final(self).tile_at(k).processed == old(self).tile_at(k).processed
                &&& final(self).tile_at(k).outgoing_dir_section_sets == old(self).tile_at(
                    k,
                ).outgoing_dir_section_sets
                &&& forall|p: int, i: int|
                    0 <= p < 15 && 0 <= i < 512 ==> #[trigger] final(self).tile_at(k).conn(
                        p,
                    ).index_bit(i) == (if i == si {
                        visibility_data.bit(connection_bit_index_spec(p))
                    } else {
                        old(self).tile_at(k).conn(p).index_bit(i)
                    })
            }),
    {
        let (tile_coords, section) = self.coord_space.section_to_tile_coords(x, y, z);
        let tile_index = self.coord_space.pack_index(tile_coords);
        let section_idx = crate::sections::section_index(section.0, section.1, section.2);

        let k = tile_index.to_usize();
        let ghost g0 = *self;
        let mut p: usize = 0;
        while p < 15
            invariant
                g0.wf(),
                self.tiles@.len() == g0.tiles@.len(),
                k < self.tiles@.len(),
                section_idx < 512,
                p <= 15,
                self.coord_space == g0.coord_space,
                self.do_height_checks == g0.do_height_checks,
                self.top_tile_visibility_mask == g0.top_tile_visibility_mask,
                self.oob_above_incoming_sections == g0.oob_above_incoming_sections,
                self.visible_tiles == g0.visible_tiles,
                forall|j: int| 0 <= j < self.tiles@.len() && j != k ==> #[trigger] self.tiles@[j]
                    == g0.tiles@[j],
                self.tiles@[k as int].wf(),
                self.tiles@[k as int].processed == g0.tiles@[k as int].processed,
                self.tiles@[k as int].outgoing_dir_section_sets == g0.tiles@[k as
                    int].outgoing_dir_section_sets,
                forall|q: int, i: int|
                    0 <= q < 15 && 0 <= i < 512 ==> #[trigger] self.tiles@[k as int].conn(
                        q,
                    ).index_bit(i) == (if q < p && i == section_idx {
                        visibility_data.bit(connection_bit_index_spec(q))
                    } else {
                        g0.tiles@[k as int].conn(q).index_bit(i)
                    }),
            decreases 15 - p,
        {
            let bit_idx = connection_bit_index(p);
            let value = visibility_data.get_bit(bit_idx);
            let ghost t_prev = self.tiles@[k as int];
            let mut cube = self.tiles[k].connection_section_sets[p];
            crate::sections::modify_bit(&mut cube, section_idx, value);
            self.tiles[k].connection_section_sets[p] = cube;
            proof {
                assert(self.tiles@[k as int].connection_section_sets@ =~= t_prev
                    .connection_section_sets@.update(p as int, cube));
                assert forall|q: int, i: int| 0 <= q < 15 && 0 <= i < 512 implies #[trigger] self
                    .tiles@[k as int].conn(q).index_bit(i) == (if q < p + 1 && i == section_idx {
                    visibility_data.bit(connection_bit_index_spec(q))
                } else {
                    g0.tiles@[k as int].conn(q).index_bit(i)
                }) by {
                    if q == p {
                        assert(self.tiles@[k as int].conn(q) == cube);
                        assert(t_prev.conn(q).index_bit(i) == g0.tiles@[k as int].conn(
                            q,
                        ).index_bit(i));
                    } else {
                        assert(self.tiles@[k as int].conn(q) == t_prev.conn(q));
                    }
                }
            }
            p = p + 1;
        }
    }
}


/// Step-safety of a tile position for its incoming faces: each incoming
/// neighbor must be one representable step away.
pub open spec fn visit_coords_ok(c: LocalTileCoords, incoming_dirs: u8) -> bool {
    &&& dir_in_set(incoming_dirs, 0) ==> c.x > i8::MIN
    &&& dir_in_set(incoming_dirs, 1) ==> c.y > i8::MIN
    &&& dir_in_set(incoming_dirs, 2) ==> c.z > i8::MIN
    &&& dir_in_set(incoming_dirs, 3) ==> c.x < i8::MAX
    &&& dir_in_set(incoming_dirs, 4) ==> c.y < i8::MAX
    &&& dir_in_set(incoming_dirs, 5) ==> c.z < i8::MAX
}

/// An emitted tile corresponds to some processed tile of the graph under the
/// cull's context.
pub open spec fn entry_ok(g: Graph, context: GraphSearchContext, t: FFITile) -> bool {
    exists|c: LocalTileCoords|
        {
            &&& 0 <= c.y < g.coord_space.y_len()
            &&& t.origin_section_coords.0 == context.global_section_offset.0 + c.x * 8
            &&& t.origin_section_coords.1 == context.global_section_offset.1 + c.y * 8
            &&& t.origin_section_coords.2 == context.global_section_offset.2 + c.z * 8
            &&& g.tiles@[#[trigger] g.coord_space.spec_pack(c)].processed
        }
}

/// The per-cull output invariants: every emitted tile maps to a processed
/// tile, no two emitted tiles share an origin, and every emitted tile has at
/// least one visible section.
pub open spec fn cull_inv(g: Graph, context: GraphSearchContext) -> bool {
    &&& forall|k: int|
        0 <= k < g.visible_tiles@.len() ==> entry_ok(g, context, #[trigger] g.visible_tiles@[k])
    &&& forall|k1: int, k2: int|
        0 <= k1 < k2 < g.visible_tiles@.len() ==> (#[trigger] g.visible_tiles@[k1]).origin_section_coords
            != (#[trigger] g.visible_tiles@[k2]).origin_section_coords
    &&& forall|k: int|
        0 <= k < g.visible_tiles@.len() ==> (#[trigger] g.visible_tiles@[k]).visible_sections
            != SectionSet::empty_spec()
}

/// The incoming edge of the tile at `coords` from the direction with
/// ordinal `d`, over the tiles' current outgoing cubes: the facing
/// neighbor's outgoing sections carried across, or the out-of-bounds entry
/// masks at the world's vertical boundary.
pub open spec fn incoming_edge_spec(
    tiles: Seq<Tile>,
    cs: GraphCoordSpace,
    oob_above: SectionSet,
    camera_area: CameraArea,
    coords: LocalTileCoords,
    d: int,
) -> SectionSet {
    if d == 4 && coords.y == cs.y_len() - 1 {
        if camera_area == CameraArea::Above {
            oob_above
        } else {
            SectionSet::empty_spec()
        }
    } else if d == 1 && coords.y == 0 {
        if camera_area == CameraArea::Below {
            crate::masks::oob_below_spec()
        } else {
            SectionSet::empty_spec()
        }
    } else {
        let n = cs.spec_pack(
            LocalTileCoords {
                x: (coords.x + (if d == 3 {
                    1int
                } else if d == 0 {
                    -1int
                } else {
                    0int
                })) as i8,
                y: (coords.y + (if d == 4 {
                    1int
                } else if d == 1 {
                    -1int
                } else {
                    0int
                })) as i8,
                z: (coords.z + (if d == 5 {
                    1int
                } else if d == 2 {
                    -1int
                } else {
                    0int
                })) as i8,
            },
        );
        let og = tiles[n].outgoing_dir_section_sets.get((d + 3) % 6);
        if d == 0 {
            crate::sections::edge_pos_to_neg_x_spec(og)
        } else if d == 1 {
            crate::sections::edge_pos_to_neg_y_spec(og)
        } else if d == 2 {
            crate::sections::edge_pos_to_neg_z_spec(og)
        } else if d == 3 {
            crate::sections::edge_neg_to_pos_x_spec(og)
        } else if d == 4 {
            crate::sections::edge_neg_to_pos_y_spec(og)
        } else {
            crate::sections::edge_neg_to_pos_z_spec(og)
        }
    }
}

/// The accumulated incoming edges of the faces with ordinal at least `e`:
/// each present face's edge clipped by the visibility mask, merged into the
/// running union and stored in that face's cube.
pub open spec fn edges_acc_spec(
    tiles: Seq<Tile>,
    cs: GraphCoordSpace,
    oob_above: SectionSet,
    camera_area: CameraArea,
    coords: LocalTileCoords,
    dirs: u8,
    vis: SectionSet,
    start: SectionSet,
    sets: DirectionSets,
    e: int,
) -> (SectionSet, DirectionSets)
    decreases 6 - e,
{
    if e < 0 || e >= 6 {
        (start, sets)
    } else if dir_in_set(dirs, e) {
        let edge = spec_and(
            incoming_edge_spec(tiles, cs, oob_above, camera_area, coords, e),
            vis,
        );
        edges_acc_spec(
            tiles,
            cs,
            oob_above,
            camera_area,
            coords,
            dirs,
            vis,
            crate::sections::spec_or(start, edge),
            sets.set_spec(e, edge),
            e + 1,
        )
    } else {
        edges_acc_spec(tiles, cs, oob_above, camera_area, coords, dirs, vis, start, sets, e + 1)
    }
}

/// Faces absent from the set leave the accumulated edges alone.
proof fn lemma_edges_acc_skip(
    tiles: Seq<Tile>,
    cs: GraphCoordSpace,
    oob_above: SectionSet,
    camera_area: CameraArea,
    coords: LocalTileCoords,
    dirs: u8,
    vis: SectionSet,
    start: SectionSet,
    sets: DirectionSets,
    e1: int,
    e2: int,
)
    requires
        0 <= e1 <= e2 <= 6,
        forall|e: int| e1 <= e < e2 ==> !dir_in_set(dirs, e),
    ensures
        edges_acc_spec(tiles, cs, oob_above, camera_area, coords, dirs, vis, start, sets, e1)
            == edges_acc_spec(tiles, cs, oob_above, camera_area, coords, dirs, vis, start, sets, e2),
    decreases e2 - e1,
{
    if e1 < e2 {
        assert(edges_acc_spec(tiles, cs, oob_above, camera_area, coords, dirs, vis, start, sets, e1)
            == edges_acc_spec(
            tiles,
            cs,
            oob_above,
            camera_area,
            coords,
            dirs,
            vis,
            start,
            sets,
            e1 + 1,
        ));
        lemma_edges_acc_skip(
            tiles,
            cs,
            oob_above,
            camera_area,
            coords,
            dirs,
            vis,
            start,
            sets,
            e1 + 1,
            e2,
        );
    }
}

impl Graph {
    /// The incoming edge of a tile from its neighbor one step along
    /// `direction`: the neighbor's outgoing sections on the facing side,
    /// carried across to this tile's matching face. At the world's vertical
    /// boundary there is no neighbor; traversal instead enters through the
    /// out-of-bounds masks when the camera is beyond that boundary.
    pub fn get_incoming_edge(
        &self,
        camera_area: CameraArea,
        coords: LocalTileCoords,
        direction: u8,
    ) -> (r: SectionSet)
        requires
            self.wf(),
            is_single_dir(direction),
            0 <= coords.y < self.coord_space.y_len(),
            direction == NEG_X ==> coords.x > i8::MIN,
            direction == NEG_Z ==> coords.z > i8::MIN,
            direction == POS_X ==> coords.x < i8::MAX,
            direction == POS_Z ==> coords.z < i8::MAX,
        ensures
            r == incoming_edge_spec(
                self.tiles@,
                self.coord_space,
                self.oob_above_incoming_sections,
                camera_area,
                coords,
                dir_index_spec(direction),
            ),
            direction == POS_Y && coords.y == self.coord_space.y_len() - 1 ==> r == (
            if camera_area == CameraArea::Above {
                self.oob_above_incoming_sections
            } else {
                SectionSet::empty_spec()
            }),
            direction == NEG_Y && coords.y == 0 && camera_area != CameraArea::Below ==> r
                == SectionSet::empty_spec(),
            direction == NEG_Y && coords.y == 0 && camera_area == CameraArea::Below ==> (forall|
                x: u64,
                y: u64,
                z: u64,
            |
                x < 8 && y < 8 && z < 8 ==> #[trigger] r.bit(x, y, z) == (y == 0)),
            !(direction == POS_Y && coords.y == self.coord_space.y_len() - 1) && !(direction
                == NEG_Y && coords.y == 0) ==> ({
                let n = self.coord_space.spec_pack(
                    LocalTileCoords {
                        x: (coords.x + (if direction == POS_X {
                            1int
                        } else if direction == NEG_X {
                            -1int
                        } else {
                            0int
                        })) as i8,
                        y: (coords.y + (if direction == POS_Y {
                            1int
                        } else if direction == NEG_Y {
                            -1int
                        } else {
                            0int
                        })) as i8,
                        z: (coords.z + (if direction == POS_Z {
                            1int
                        } else if direction == NEG_Z {
                            -1int
                        } else {
                            0int
                        })) as i8,
                    },
                );
                let og = self.tiles@[n].outgoing_dir_section_sets.get(
                    (dir_index_spec(direction) + 3) % 6,
                );
                r == (if direction == NEG_X {
                    crate::sections::edge_pos_to_neg_x_spec(og)
                } else if direction == NEG_Y {
                    crate::sections::edge_pos_to_neg_y_spec(og)
                } else if direction == NEG_Z {
                    crate::sections::edge_pos_to_neg_z_spec(og)
                } else if direction == POS_X {
                    crate::sections::edge_neg_to_pos_x_spec(og)
                } else if direction == POS_Y {
                    crate::sections::edge_neg_to_pos_y_spec(og)
                } else {
                    crate::sections::edge_neg_to_pos_z_spec(og)
                })
            }),
    {
        let top_tile_y = (self.coord_space.y_length_tiles - 1) as i8;
        if direction == POS_Y && coords.y == top_tile_y {
            if camera_area == CameraArea::Above {
                return self.oob_above_incoming_sections;
            } else {
                return SectionSet::empty();
            }
        }
        if direction == NEG_Y && coords.y == 0 {
            if camera_area == CameraArea::Below {
                return crate::masks::oob_below_incoming_sections();
            } else {
                return SectionSet::empty();
            }
        }

        let neighbor_coords = coords.step(direction);
        let neighbor_index = self.coord_space.pack_index(neighbor_coords);
        let opposite_dir = crate::direction::opposite(direction);
        let opp_idx = crate::direction::to_index(opposite_dir);
        let neighbor_outgoing = self.tiles[neighbor_index.to_usize()]
            .outgoing_dir_section_sets
            .get_dir(opp_idx);

        match direction {
            NEG_X => crate::sections::edge_pos_to_neg_x(neighbor_outgoing),
            NEG_Y => crate::sections::edge_pos_to_neg_y(neighbor_outgoing),
            NEG_Z => crate::sections::edge_pos_to_neg_z(neighbor_outgoing),
            POS_X => crate::sections::edge_neg_to_pos_x(neighbor_outgoing),
            POS_Y => crate::sections::edge_neg_to_pos_y(neighbor_outgoing),
            _ => crate::sections::edge_neg_to_pos_z(neighbor_outgoing),
        }
    }

    /// Gathers the incoming edge of every incoming face, clipped by the
    /// tile's visibility mask, into the per-face cubes and their union.
    fn get_incoming_edges(
        &self,
        camera_area: CameraArea,
        coords: LocalTileCoords,
        incoming_dirs: u8,
        visibility_mask: SectionSet,
        traverse_start_sections: &mut SectionSet,
        incoming_dir_section_sets: &mut DirectionSets,
    )
        requires
            self.wf(),
            is_dir_set(incoming_dirs),
            0 <= coords.y < self.coord_space.y_len(),
            visit_coords_ok(coords, incoming_dirs),
            *old(traverse_start_sections) == SectionSet::empty_spec(),
            forall|e: int|
                0 <= e < 6 ==> #[trigger] old(incoming_dir_section_sets).get(e)
                    == SectionSet::empty_spec(),
        ensures
            forall|e: int, i: int|
                0 <= e < 6 && 0 <= i < 512 && #[trigger] final(incoming_dir_section_sets).get(
                    e,
                ).index_bit(i) ==> visibility_mask.index_bit(i),
            forall|i: int|
                0 <= i < 512 && #[trigger] final(traverse_start_sections).index_bit(i)
                    ==> visibility_mask.index_bit(i),
            ({
                let r = edges_acc_spec(
                    self.tiles@,
                    self.coord_space,
                    self.oob_above_incoming_sections,
                    camera_area,
                    coords,
                    incoming_dirs,
                    visibility_mask,
                    *old(traverse_start_sections),
                    *old(incoming_dir_section_sets),
                    0,
                );
                &&& *final(traverse_start_sections) == r.0
                &&& *final(incoming_dir_section_sets) == r.1
            }),
    {
        proof {
            crate::sections::lemma_empty_has_no_bits();
            assert(forall|e: u8|
                e < 8 && crate::sections::byte_bit(incoming_dirs, e) ==> e < 6) by (bit_vector)
                requires
                    incoming_dirs & 0b111111 == incoming_dirs,
            ;
        }
        let ghost start0 = *traverse_start_sections;
        let ghost sets0 = *incoming_dir_section_sets;
        let ghost target = edges_acc_spec(
            self.tiles@,
            self.coord_space,
            self.oob_above_incoming_sections,
            camera_area,
            coords,
            incoming_dirs,
            visibility_mask,
            start0,
            sets0,
            0,
        );
        let mut dirs = incoming_dirs;
        let ghost mut m: int = 0;
        while dirs != 0
            invariant
                self.wf(),
                is_dir_set(dirs),
                0 <= coords.y < self.coord_space.y_len(),
                0 <= m <= 6,
                forall|e: int|
                    m <= e < 6 ==> #[trigger] dir_in_set(dirs, e) == dir_in_set(incoming_dirs, e),
                forall|e: int|
                    0 <= e < 8 && #[trigger] dir_in_set(dirs, e) ==> m <= e < 6 && dir_in_set(
                        incoming_dirs,
                        e,
                    ),
                edges_acc_spec(
                    self.tiles@,
                    self.coord_space,
                    self.oob_above_incoming_sections,
                    camera_area,
                    coords,
                    incoming_dirs,
                    visibility_mask,
                    *traverse_start_sections,
                    *incoming_dir_section_sets,
                    m,
                ) == target,
                visit_coords_ok(coords, incoming_dirs),
                forall|e: int, i: int|
                    0 <= e < 6 && 0 <= i < 512 && #[trigger] incoming_dir_section_sets.get(
                        e,
                    ).index_bit(i) ==> visibility_mask.index_bit(i),
                forall|i: int|
                    0 <= i < 512 && #[trigger] traverse_start_sections.index_bit(i)
                        ==> visibility_mask.index_bit(i),
            decreases dirs,
        {
            let ghost dirs0 = dirs;
            let ghost m0 = m;
            let ghost start_pre = *traverse_start_sections;
            let ghost sets_pre = *incoming_dir_section_sets;
            let direction = crate::direction::take_one(&mut dirs);
            let d_idx = crate::direction::to_index(direction);
            proof {
                crate::direction::lemma_single_dir_bits(direction);
                crate::direction::lemma_contains_single(dirs0, direction);
                crate::direction::lemma_dir_andnot(dirs0, direction);
                assert(dir_in_set(dirs0, d_idx as int));
                assert(dir_in_set(incoming_dirs, d_idx as int));
                assert forall|e: int| 0 <= e < 8 implies #[trigger] dir_in_set(dirs, e) == (
                dir_in_set(dirs0, e) && e != d_idx) by {
                    assert(dirs == (dirs0 & !direction));
                    assert(crate::sections::byte_bit(dirs0 & !direction, e as u8) == (
                    crate::sections::byte_bit(dirs0, e as u8) && !crate::sections::byte_bit(
                        direction,
                        e as u8,
                    )));
                    assert(dir_in_set(direction, e) == (e == d_idx));
                }
            }
            let edge = self.get_incoming_edge(camera_area, coords, direction);
            let incoming_edge = edge.and(&visibility_mask);
            *traverse_start_sections = traverse_start_sections.or(&incoming_edge);
            incoming_dir_section_sets.set_dir(d_idx, incoming_edge);
            proof {
                assert(m0 <= d_idx < 6);
                assert forall|e: int| m0 <= e < d_idx implies !dir_in_set(incoming_dirs, e) by {
                    assert(!dir_in_set(dirs0, e));
                }
                lemma_edges_acc_skip(
                    self.tiles@,
                    self.coord_space,
                    self.oob_above_incoming_sections,
                    camera_area,
                    coords,
                    incoming_dirs,
                    visibility_mask,
                    start_pre,
                    sets_pre,
                    m0,
                    d_idx as int,
                );
                assert(incoming_edge == spec_and(
                    incoming_edge_spec(
                        self.tiles@,
                        self.coord_space,
                        self.oob_above_incoming_sections,
                        camera_area,
                        coords,
                        d_idx as int,
                    ),
                    visibility_mask,
                ));
                assert(edges_acc_spec(
                    self.tiles@,
                    self.coord_space,
                    self.oob_above_incoming_sections,
                    camera_area,
                    coords,
                    incoming_dirs,
                    visibility_mask,
                    start_pre,
                    sets_pre,
                    d_idx as int,
                ) == edges_acc_spec(
                    self.tiles@,
                    self.coord_space,
                    self.oob_above_incoming_sections,
                    camera_area,
                    coords,
                    incoming_dirs,
                    visibility_mask,
                    *traverse_start_sections,
                    *incoming_dir_section_sets,
                    d_idx as int + 1,
                ));
                m = d_idx as int + 1;
            }
        }
        proof {
            crate::direction::lemma_dir_set_bits();
            assert forall|e: int| m <= e < 6 implies !dir_in_set(incoming_dirs, e) by {
                assert(!dir_in_set(0u8, e));
            }
            lemma_edges_acc_skip(
                self.tiles@,
                self.coord_space,
                self.oob_above_incoming_sections,
                camera_area,
                coords,
                incoming_dirs,
                visibility_mask,
                *traverse_start_sections,
                *incoming_dir_section_sets,
                m,
                6,
            );
        }
    }
}


/// A visit's frustum-and-fog cut, clipped by the world-height mask when the
/// height test cut the tile partially.
pub open spec fn pt_cut_spec(
    top_mask: SectionSet,
    test_result: CombinedTestResults,
    cut_mask: SectionSet,
) -> SectionSet {
    if test_result.0 & HEIGHT_BIT == HEIGHT_BIT {
        spec_and(cut_mask, top_mask)
    } else {
        cut_mask
    }
}

/// What one fresh tile visit computes, over the graph's current tiles: the
/// visited tile's new outgoing cubes, its visible sections, and whether it
/// is emitted. A rejected tile, and one whose gathered incoming edges are
/// empty, emits nothing and leaves empty outgoing cubes; without occlusion
/// culling the tile is emitted exactly when its cut is nonempty; with it,
/// the flood fill's fixed point decides.
pub open spec fn pt_result_spec(
    tiles: Seq<Tile>,
    cs: GraphCoordSpace,
    top_mask: SectionSet,
    oob_above: SectionSet,
    context: GraphSearchContext,
    coords: LocalTileCoords,
    incoming_dirs: u8,
    traversal_dirs: u8,
    test_result: CombinedTestResults,
    cut_mask: SectionSet,
    angles: AngleMasks,
) -> (DirectionSets, SectionSet, bool) {
    let k = cs.spec_pack(coords);
    let t = tiles[k];
    let cut = pt_cut_spec(top_mask, test_result, cut_mask);
    if test_result.is_outside_spec() {
        (crate::tile::dirsets_empty_spec(), SectionSet::empty_spec(), false)
    } else if !context.use_occlusion_culling {
        (t.outgoing_dir_section_sets, cut, cut != SectionSet::empty_spec())
    } else if incoming_dirs == 0 {
        let si = context.camera_section_in_tile.1 * 64 + context.camera_section_in_tile.2 * 8
            + context.camera_section_in_tile.0;
        let seed = crate::tile::center_seed_spec(
            t.connection_section_sets@,
            crate::tile::dirsets_empty_spec(),
            si as int,
        );
        let r = crate::tile::fill_fix_spec(
            t.connection_section_sets@,
            traversal_dirs,
            seed,
            crate::tile::dirsets_empty_spec(),
            context.outward_direction_masks,
            angles,
            cut,
        );
        let vis = crate::tile::union_with_spec(
            crate::sections::single_bit_spec(si as int),
            r.1,
        );
        (r.0, vis, vis != SectionSet::empty_spec())
    } else {
        let tiles1 = tiles.update(
            k,
            Tile {
                connection_section_sets: t.connection_section_sets,
                outgoing_dir_section_sets: crate::tile::dirsets_empty_spec(),
                processed: true,
            },
        );
        let e = edges_acc_spec(
            tiles1,
            cs,
            oob_above,
            context.camera_area,
            coords,
            incoming_dirs,
            cut,
            SectionSet::empty_spec(),
            crate::tile::dirsets_empty_spec(),
            0,
        );
        if e.0 == SectionSet::empty_spec() {
            (crate::tile::dirsets_empty_spec(), SectionSet::empty_spec(), false)
        } else {
            let r = crate::tile::fill_fix_spec(
                t.connection_section_sets@,
                traversal_dirs,
                crate::tile::dirsets_empty_spec(),
                e.1,
                context.outward_direction_masks,
                angles,
                cut,
            );
            let vis = crate::tile::union_with_spec(e.0, r.1);
            (r.0, vis, vis != SectionSet::empty_spec())
        }
    }
}

/// The tile stored at `k` once a visit has processed it: connections kept,
/// outgoing cubes replaced, processed flag raised.
pub open spec fn processed_tile_spec(t: Tile, outgoing: DirectionSets) -> Tile {
    Tile {
        connection_section_sets: t.connection_section_sets,
        outgoing_dir_section_sets: outgoing,
        processed: true,
    }
}

impl Graph {
    /// Processes one visited tile: applies the host-voxelized frustum/fog
    /// cut and the height cut, runs the occlusion flood fill from the
    /// incoming edges (or from the camera's own section in the center tile),
    /// and emits the tile when any section stays visible. A tile already
    /// processed in this cull is left alone.
    pub fn process_tile(
        &mut self,
        context: &GraphSearchContext,
        coords: LocalTileCoords,
        incoming_dirs: u8,
        traversal_dirs: u8,
        test_result: CombinedTestResults,
        cut_mask: SectionSet,
        angle_visibility_masks: &AngleMasks,
    )
        requires
            old(self).wf(),
            context.wf(old(self).coord_space),
            cull_inv(*old(self), *context),
            0 <= coords.y < old(self).coord_space.y_len(),
            -128 < coords.x,
            -128 < coords.z,
            is_dir_set(incoming_dirs),
            visit_coords_ok(coords, incoming_dirs),
            traversal_dirs == ALL_DIRECTIONS & !incoming_dirs,
        ensures
            final(self).wf(),
            cull_inv(*final(self), *context),
            final(self).coord_space == old(self).coord_space,
            final(self).do_height_checks == old(self).do_height_checks,
            final(self).top_tile_visibility_mask == old(self).top_tile_visibility_mask,
            final(self).oob_above_incoming_sections == old(self).oob_above_incoming_sections,
            final(self).tiles@.len() == old(self).tiles@.len(),
            forall|k: int|
                0 <= k < final(self).tiles@.len() ==> (#[trigger] final(self).tile_at(
                    k,
                )).connection_section_sets == old(self).tile_at(k).connection_section_sets,
            forall|k: int|
                0 <= k < final(self).tiles@.len() && old(self).tile_at(k).processed
                    ==> (#[trigger] final(self).tile_at(k)).processed,
            old(self).visible_tiles@.len() <= final(self).visible_tiles@.len() <= old(
                self,
            ).visible_tiles@.len() + 1,
            forall|k: int|
                0 <= k < old(self).visible_tiles@.len() ==> #[trigger] final(self).visible_tiles@[k]
                    == old(self).visible_tiles@[k],
            final(self).tile_at(old(self).coord_space.spec_pack(coords)).processed,
            // an already-processed tile, or one rejected outright, emits nothing
            old(self).tile_at(old(self).coord_space.spec_pack(coords)).processed
                || test_result.is_outside_spec() ==> final(self).visible_tiles
                == old(self).visible_tiles,
            // without occlusion culling the emitted sections are exactly the
            // frustum-and-fog cut clipped by the height mask
            ({
                let cut = if test_result.0 & HEIGHT_BIT == HEIGHT_BIT {
                    spec_and(cut_mask, old(self).top_tile_visibility_mask)
                } else {
                    cut_mask
                };
                (!old(self).tile_at(old(self).coord_space.spec_pack(coords)).processed
                    && !test_result.is_outside_spec() && !context.use_occlusion_culling) ==> (
                if cut != SectionSet::empty_spec() {
                    final(self).visible_tiles@ == old(self).visible_tiles@.push(
                        FFITile {
                            origin_section_coords: (
                                (context.global_section_offset.0 + coords.x * 8) as i32,
                                (context.global_section_offset.1 + coords.y * 8) as i32,
                                (context.global_section_offset.2 + coords.z * 8) as i32,
                            ),
                            visible_sections: cut,
                        },
                    )
                } else {
                    final(self).visible_tiles@ == old(self).visible_tiles@
                })
            }),
            // one visit is exactly one step of the cull's specification fold
            ({
                let k = old(self).coord_space.spec_pack(coords);
                let r = pt_result_spec(
                    old(self).tiles@,
                    old(self).coord_space,
                    old(self).top_tile_visibility_mask,
                    old(self).oob_above_incoming_sections,
                    *context,
                    coords,
                    incoming_dirs,
                    traversal_dirs,
                    test_result,
                    cut_mask,
                    *angle_visibility_masks,
                );
                if old(self).tiles@[k].processed {
                    *final(self) == *old(self)
                } else {
                    &&& final(self).tiles@ == old(self).tiles@.update(
                        k,
                        processed_tile_spec(old(self).tiles@[k], r.0),
                    )
                    &&& final(self).visible_tiles@ == (if r.2 {
                        old(self).visible_tiles@.push(
                            FFITile {
                                origin_section_coords: (
                                    (context.global_section_offset.0 + coords.x * 8) as i32,
                                    (context.global_section_offset.1 + coords.y * 8) as i32,
                                    (context.global_section_offset.2 + coords.z * 8) as i32,
                                ),
                                visible_sections: r.1,
                            },
                        )
                    } else {
                        old(self).visible_tiles@
                    })
                }
            }),
    {
        proof {
            crate::direction::lemma_dir_set_bits();
            crate::direction::lemma_dir_andnot(ALL_DIRECTIONS, incoming_dirs);
        }
        let index = self.coord_space.pack_index(coords);
        let k = index.to_usize();
        let ghost kk = old(self).coord_space.spec_pack(coords);
        let ghost r_spec = pt_result_spec(
            old(self).tiles@,
            old(self).coord_space,
            old(self).top_tile_visibility_mask,
            old(self).oob_above_incoming_sections,
            *context,
            coords,
            incoming_dirs,
            traversal_dirs,
            test_result,
            cut_mask,
            *angle_visibility_masks,
        );

        if self.tiles[k].processed {
            return ;
        }
        self.tiles[k].processed = true;
        proof {
            lemma_cull_inv_monotone(*old(self), *self, *context);
        }

        if test_result.is_outside() {
            self.tiles[k].outgoing_dir_section_sets = DirectionSets::all_empty();
            proof {
                lemma_cull_inv_monotone(*old(self), *self, *context);
                assert(r_spec.0 == crate::tile::dirsets_empty_spec() && !r_spec.2);
                assert(self.tiles@[kk as int] == processed_tile_spec(
                    old(self).tiles@[kk as int],
                    r_spec.0,
                ));
                assert(self.tiles@ =~= old(self).tiles@.update(
                    kk as int,
                    processed_tile_spec(old(self).tiles@[kk as int], r_spec.0),
                ));
            }
            return ;
        }

        let mut visible_sections = cut_mask;
        if test_result.is_partial(HEIGHT_BIT) {
            visible_sections = visible_sections.and(&self.top_tile_visibility_mask);
        }
        proof {
            assert(visible_sections == pt_cut_spec(
                old(self).top_tile_visibility_mask,
                test_result,
                cut_mask,
            ));
        }

        if context.use_occlusion_culling {
            let mut traverse_start_sections = SectionSet::empty();
            let mut incoming_sets = DirectionSets::all_empty();
            self.tiles[k].outgoing_dir_section_sets = DirectionSets::all_empty();
            proof {
                crate::sections::lemma_empty_has_no_bits();
                assert(self.tiles@ =~= old(self).tiles@.update(
                    kk as int,
                    processed_tile_spec(
                        old(self).tiles@[kk as int],
                        crate::tile::dirsets_empty_spec(),
                    ),
                ));
            }

            if incoming_dirs == 0 {
                let si = crate::sections::section_index(
                    context.camera_section_in_tile.0,
                    context.camera_section_in_tile.1,
                    context.camera_section_in_tile.2,
                );
                crate::sections::set_bit(&mut traverse_start_sections, si);
                proof {
                    crate::sections::lemma_single_bit_bits(si as int);
                    crate::sections::lemma_bits_eq(
                        traverse_start_sections,
                        crate::sections::single_bit_spec(si as int),
                    );
                }
                Tile::setup_center_tile(&mut self.tiles[k], si);
                proof {
                    assert(self.tiles@[kk as int].outgoing_dir_section_sets
                        == crate::tile::center_seed_spec(
                        old(self).tiles@[kk as int].connection_section_sets@,
                        crate::tile::dirsets_empty_spec(),
                        si as int,
                    ));
                }
            } else {
                self.get_incoming_edges(
                    context.camera_area,
                    coords,
                    incoming_dirs,
                    visible_sections,
                    &mut traverse_start_sections,
                    &mut incoming_sets,
                );
                proof {
                    let tiles1 = old(self).tiles@.update(
                        kk as int,
                        processed_tile_spec(
                            old(self).tiles@[kk as int],
                            crate::tile::dirsets_empty_spec(),
                        ),
                    );
                    let e = edges_acc_spec(
                        tiles1,
                        old(self).coord_space,
                        old(self).oob_above_incoming_sections,
                        context.camera_area,
                        coords,
                        incoming_dirs,
                        visible_sections,
                        SectionSet::empty_spec(),
                        crate::tile::dirsets_empty_spec(),
                        0,
                    );
                    assert(traverse_start_sections == e.0 && incoming_sets == e.1);
                }
                if traverse_start_sections.is_empty() {
                    self.tiles[k].outgoing_dir_section_sets = DirectionSets::all_empty();
                    proof {
                        lemma_cull_inv_monotone(*old(self), *self, *context);
                        assert(r_spec.0 == crate::tile::dirsets_empty_spec() && !r_spec.2);
                        assert(self.tiles@ =~= old(self).tiles@.update(
                            kk as int,
                            processed_tile_spec(old(self).tiles@[kk as int], r_spec.0),
                        ));
                    }
                    return ;
                }
            }

            Tile::traverse(
                &mut self.tiles[k],
                traversal_dirs,
                traverse_start_sections,
                incoming_sets,
                &context.outward_direction_masks,
                angle_visibility_masks,
                &mut visible_sections,
            );
            proof {
                lemma_cull_inv_monotone(*old(self), *self, *context);
                assert(self.tiles@[kk as int].outgoing_dir_section_sets == r_spec.0);
                assert(visible_sections == r_spec.1);
            }
        }

        proof {
            assert(self.tiles@ =~= old(self).tiles@.update(
                kk as int,
                processed_tile_spec(old(self).tiles@[kk as int], r_spec.0),
            ));
            assert(visible_sections == r_spec.1);
            assert(r_spec.2 == (visible_sections != SectionSet::empty_spec()));
            assert(self.visible_tiles@ == old(self).visible_tiles@);
        }

        if !visible_sections.is_empty() {
            let origin = (
                context.global_section_offset.0 + (coords.x as i32) * 8,
                context.global_section_offset.1 + (coords.y as i32) * 8,
                context.global_section_offset.2 + (coords.z as i32) * 8,
            );
            let ghost g_before = *self;
            self.visible_tiles.push(
                FFITile { origin_section_coords: origin, visible_sections },
            );
            proof {
                lemma_cull_inv_push(
                    g_before,
                    *self,
                    *context,
                    coords,
                    self.visible_tiles@.last(),
                );
            }
        }
    }
}

/// The emitted-tile invariants survive any change that only raises
/// processed flags and leaves the output list alone.
proof fn lemma_cull_inv_monotone(a: Graph, b: Graph, context: GraphSearchContext)
    requires
        cull_inv(a, context),
        a.coord_space.wf(),
        a.tiles@.len() == a.coord_space.total_tiles(),
        b.visible_tiles == a.visible_tiles,
        b.coord_space == a.coord_space,
        b.tiles@.len() == a.tiles@.len(),
        forall|k: int|
            0 <= k < a.tiles@.len() && a.tiles@[k].processed ==> (#[trigger] b.tiles@[k]).processed,
    ensures
        cull_inv(b, context),
{
    assert forall|k: int| 0 <= k < b.visible_tiles@.len() implies entry_ok(
        b,
        context,
        #[trigger] b.visible_tiles@[k],
    ) by {
        let t = a.visible_tiles@[k];
        let c = choose|c: LocalTileCoords|
            {
                &&& 0 <= c.y < a.coord_space.y_len()
                &&& t.origin_section_coords.0 == context.global_section_offset.0 + c.x * 8
                &&& t.origin_section_coords.1 == context.global_section_offset.1 + c.y * 8
                &&& t.origin_section_coords.2 == context.global_section_offset.2 + c.z * 8
                &&& a.tiles@[#[trigger] a.coord_space.spec_pack(c)].processed
            };
        crate::coords::lemma_pack_unpack(
            a.coord_space,
            LocalTileCoords {
                x: ((c.x as int) % a.coord_space.xz()) as i8,
                y: c.y,
                z: ((c.z as int) % a.coord_space.xz()) as i8,
            },
        );
        crate::coords::lemma_pack_wraps(
            a.coord_space,
            c,
            LocalTileCoords {
                x: ((c.x as int) % a.coord_space.xz()) as i8,
                y: c.y,
                z: ((c.z as int) % a.coord_space.xz()) as i8,
            },
        );
        assert(0 <= a.coord_space.spec_pack(c) < a.tiles@.len());
        assert(b.tiles@[b.coord_space.spec_pack(c)].processed);
    }
}

/// Pushing a fresh tile keeps the emitted-tile invariants: its origin names
/// a tile processed now for the first time, so no earlier entry can share
/// it.
proof fn lemma_cull_inv_push(
    a: Graph,
    b: Graph,
    context: GraphSearchContext,
    coords: LocalTileCoords,
    t: FFITile,
)
    requires
        cull_inv(a, context),
        a.coord_space.wf(),
        b.coord_space == a.coord_space,
        b.tiles == a.tiles,
        a.tiles@.len() == a.coord_space.total_tiles(),
        b.visible_tiles@ == a.visible_tiles@.push(t),
        0 <= coords.y < a.coord_space.y_len(),
        t.origin_section_coords.0 == context.global_section_offset.0 + coords.x * 8,
        t.origin_section_coords.1 == context.global_section_offset.1 + coords.y * 8,
        t.origin_section_coords.2 == context.global_section_offset.2 + coords.z * 8,
        a.tiles@[a.coord_space.spec_pack(coords)].processed,
        t.visible_sections != SectionSet::empty_spec(),
        // the pushed tile was unprocessed when this cull step began
        forall|k: int|
            0 <= k < a.visible_tiles@.len() ==> #[trigger] a.visible_tiles@[k].origin_section_coords
                != t.origin_section_coords,
    ensures
        cull_inv(b, context),
{
    assert forall|k: int| 0 <= k < b.visible_tiles@.len() implies entry_ok(
        b,
        context,
        #[trigger] b.visible_tiles@[k],
    ) by {
        if k < a.visible_tiles@.len() {
            assert(b.visible_tiles@[k] == a.visible_tiles@[k]);
            assert(entry_ok(a, context, a.visible_tiles@[k]));
        } else {
            assert(b.visible_tiles@[k] == t);
            assert(a.tiles@[#[trigger] a.coord_space.spec_pack(coords)].processed);
        }
    }
}



/// One tile visit of a planned search: where, and from which faces incoming
/// edges may arrive.
#[derive(Clone, Copy, Debug)]
pub struct TileVisit {
    pub coords: LocalTileCoords,
    pub incoming_dirs: u8,
    pub traversal_dirs: u8,
}

/// A visit the per-tile processing can accept.
pub open spec fn visit_wf(v: TileVisit, cs: GraphCoordSpace) -> bool {
    &&& 0 <= v.coords.y < cs.y_len()
    &&& -128 < v.coords.x
    &&& -128 < v.coords.z
    &&& is_dir_set(v.incoming_dirs)
    &&& visit_coords_ok(v.coords, v.incoming_dirs)
    &&& v.traversal_dirs == ALL_DIRECTIONS & !v.incoming_dirs
}

/// The position one step along the direction with ordinal `d`.
pub open spec fn step_coords_spec(c: LocalTileCoords, d: int) -> LocalTileCoords {
    LocalTileCoords {
        x: (c.x + (if d == 3 {
            1int
        } else if d == 0 {
            -1int
        } else {
            0int
        })) as i8,
        y: (c.y + (if d == 4 {
            1int
        } else if d == 1 {
            -1int
        } else {
            0int
        })) as i8,
        z: (c.z + (if d == 5 {
            1int
        } else if d == 2 {
            -1int
        } else {
            0int
        })) as i8,
    }
}

/// The position a signed per-axis tile offset away from a start position.
pub open spec fn offset_coords_spec(start: LocalTileCoords, ox: int, oy: int, oz: int) -> LocalTileCoords {
    LocalTileCoords { x: (start.x + ox) as i8, y: (start.y + oy) as i8, z: (start.z + oz) as i8 }
}

/// The plan holds a visit at the given position.
pub open spec fn plan_has_coords(plan: Seq<TileVisit>, c: LocalTileCoords) -> bool {
    exists|p: int| 0 <= p < plan.len() && (#[trigger] plan[p]).coords == c
}

/// Visit `j` finds its incoming neighbor along `d` earlier in the plan,
/// unless that edge enters through the world's vertical boundary, where the
/// out-of-bounds masks stand in for a neighbor.
pub open spec fn visit_pred_ok(plan: Seq<TileVisit>, j: int, d: int, cs: GraphCoordSpace) -> bool {
    let c = plan[j].coords;
    ||| (d == 4 && c.y == cs.y_len() - 1)
    ||| (d == 1 && c.y == 0)
    ||| exists|p: int| 0 <= p < j && (#[trigger] plan[p]).coords == step_coords_spec(c, d)
}

/// Predecessors first: every visit's incoming neighbors were visited
/// earlier, so their outgoing cubes are populated before they are read.
pub open spec fn plan_preds_ok(plan: Seq<TileVisit>, cs: GraphCoordSpace) -> bool {
    forall|j: int, d: int|
        0 <= j < plan.len() && 0 <= d < 6 && #[trigger] dir_in_set(plan[j].incoming_dirs, d)
            ==> visit_pred_ok(plan, j, d, cs)
}

/// A membership fact survives any extension that keeps the prefix, with the
/// witness still inside the old prefix.
proof fn lemma_plan_has_prefix(pre: Seq<TileVisit>, post: Seq<TileVisit>, c: LocalTileCoords)
    requires
        pre.len() <= post.len(),
        forall|k: int| 0 <= k < pre.len() ==> post[k] == pre[k],
        plan_has_coords(pre, c),
    ensures
        plan_has_coords(post, c),
        exists|p: int| 0 <= p < pre.len() && (#[trigger] post[p]).coords == c,
{
    let p = choose|p: int| 0 <= p < pre.len() && (#[trigger] pre[p]).coords == c;
    assert(post[p].coords == c);
}

/// Predecessors-first survives appending visits whose own predecessors are
/// in place.
proof fn lemma_preds_extend(pre: Seq<TileVisit>, post: Seq<TileVisit>, cs: GraphCoordSpace)
    requires
        pre.len() <= post.len(),
        forall|k: int| 0 <= k < pre.len() ==> post[k] == pre[k],
        plan_preds_ok(pre, cs),
        forall|j: int, d: int|
            pre.len() <= j < post.len() && 0 <= d < 6 && #[trigger] dir_in_set(
                post[j].incoming_dirs,
                d,
            ) ==> visit_pred_ok(post, j, d, cs),
    ensures
        plan_preds_ok(post, cs),
{
    assert forall|j: int, d: int|
        0 <= j < post.len() && 0 <= d < 6 && #[trigger] dir_in_set(post[j].incoming_dirs, d)
            implies visit_pred_ok(post, j, d, cs) by {
        if j < pre.len() {
            assert(dir_in_set(pre[j].incoming_dirs, d));
            assert(visit_pred_ok(pre, j, d, cs));
            if !((d == 4 && pre[j].coords.y == cs.y_len() - 1) || (d == 1 && pre[j].coords.y
                == 0)) {
                let p = choose|p: int|
                    0 <= p < j && (#[trigger] pre[p]).coords == step_coords_spec(pre[j].coords, d);
                assert(post[p].coords == step_coords_spec(post[j].coords, d));
            }
        }
    }
}

/// Whether a region whose outward vertical direction is `dir_y` is walked
/// for a camera area.
pub open spec fn region_active_spec(area: CameraArea, dir_y: u8) -> bool {
    match area {
        CameraArea::Inside => true,
        CameraArea::Above => dir_y == NEG_Y,
        CameraArea::Below => dir_y == POS_Y,
    }
}

/// How far one region axis reaches: nowhere for an inactive axis, else the
/// context's step count for its direction.
pub open spec fn region_span_spec(context: GraphSearchContext, dir: u8) -> int {
    if dir == 0 {
        0
    } else {
        context.direction_step_counts.get(dir_index_spec(dir)) as int
    }
}

/// The step offsets one region axis takes.
pub open spec fn axis_range_spec(context: GraphSearchContext, dir: u8, k: int) -> bool {
    if dir == 0 {
        k == 0
    } else {
        1 <= k <= region_span_spec(context, dir)
    }
}

/// The tile a region visits at step offsets `(ky, kz, kx)` from the start.
pub open spec fn region_coords_spec(
    start: LocalTileCoords,
    dir_y: u8,
    dir_z: u8,
    dir_x: u8,
    ky: int,
    kz: int,
    kx: int,
) -> LocalTileCoords {
    LocalTileCoords {
        x: (start.x + (if dir_x == POS_X {
            kx
        } else if dir_x == NEG_X {
            -kx
        } else {
            0
        })) as i8,
        y: (start.y + (if dir_y == POS_Y {
            ky
        } else if dir_y == NEG_Y {
            -ky
        } else {
            0
        })) as i8,
        z: (start.z + (if dir_z == POS_Z {
            kz
        } else if dir_z == NEG_Z {
            -kz
        } else {
            0
        })) as i8,
    }
}

/// One host-voxelized geometry bundle for a visit: the combined test result,
/// the frustum-and-fog cut mask, and the per-axis angle masks.
pub struct TileGeometry {
    pub test_result: CombinedTestResults,
    pub cut_mask: SectionSet,
    pub angle_visibility_masks: AngleMasks,
}

/// Whether an iteration region is entered: outside the world the search only
/// descends (or ascends) into it through the matching vertical faces.
pub fn should_process(incoming_dirs: u8, camera_area: CameraArea) -> (r: bool)
    ensures
        r == (match camera_area {
            CameraArea::Inside => true,
            CameraArea::Above => incoming_dirs & POS_Y == POS_Y,
            CameraArea::Below => incoming_dirs & NEG_Y == NEG_Y,
        }),
{
    match camera_area {
        CameraArea::Inside => true,
        CameraArea::Above => crate::bitset::contains_u8(incoming_dirs, POS_Y),
        CameraArea::Below => crate::bitset::contains_u8(incoming_dirs, NEG_Y),
    }
}

/// Walks one iteration region - up to one direction per axis, outer Y, then
/// Z, then X - appending a visit for every tile in it. Regions the camera's
/// area must not enter are skipped.
#[verifier::rlimit(100)]
fn iterate_region(
    context: &GraphSearchContext,
    cs: GraphCoordSpace,
    plan: &mut Vec<TileVisit>,
    dir_y: u8,
    dir_z: u8,
    dir_x: u8,
)
    requires
        cs.wf(),
        context.wf(cs),
        dir_y == 0 || dir_y == NEG_Y || dir_y == POS_Y,
        dir_z == 0 || dir_z == NEG_Z || dir_z == POS_Z,
        dir_x == 0 || dir_x == NEG_X || dir_x == POS_X,
        dir_y != 0 || dir_z != 0 || dir_x != 0,
        plan_preds_ok(old(plan)@, cs),
        // the lower-dimensional regions this one steps away from are
        // already planned, axis by axis
        region_active_spec(context.camera_area, dir_y) ==> {
            &&& dir_x != 0 ==> (forall|ky: int, kz: int|
                axis_range_spec(*context, dir_y, ky) && axis_range_spec(*context, dir_z, kz)
                    ==> plan_has_coords(
                    old(plan)@,
                    #[trigger] region_coords_spec(
                        context.iter_start_tile_coords,
                        dir_y,
                        dir_z,
                        0,
                        ky,
                        kz,
                        0,
                    ),
                ))
            &&& dir_z != 0 ==> (forall|ky: int, kx: int|
                axis_range_spec(*context, dir_y, ky) && axis_range_spec(*context, dir_x, kx)
                    ==> plan_has_coords(
                    old(plan)@,
                    #[trigger] region_coords_spec(
                        context.iter_start_tile_coords,
                        dir_y,
                        0,
                        dir_x,
                        ky,
                        0,
                        kx,
                    ),
                ))
            &&& (dir_y != 0 && context.camera_area == CameraArea::Inside) ==> (forall|
                kz: int,
                kx: int,
            |
                axis_range_spec(*context, dir_z, kz) && axis_range_spec(*context, dir_x, kx)
                    ==> plan_has_coords(
                    old(plan)@,
                    #[trigger] region_coords_spec(
                        context.iter_start_tile_coords,
                        0,
                        dir_z,
                        dir_x,
                        0,
                        kz,
                        kx,
                    ),
                ))
        },
    ensures
        final(plan)@.len() >= old(plan)@.len(),
        forall|k: int| 0 <= k < old(plan)@.len() ==> #[trigger] final(plan)@[k] == old(plan)@[k],
        forall|k: int|
            old(plan)@.len() <= k < final(plan)@.len() ==> visit_wf(#[trigger] final(plan)@[k], cs),
        plan_preds_ok(final(plan)@, cs),
        forall|c: LocalTileCoords|
            #[trigger] plan_has_coords(old(plan)@, c) ==> plan_has_coords(final(plan)@, c),
        region_active_spec(context.camera_area, dir_y) ==> (forall|ky: int, kz: int, kx: int|
            axis_range_spec(*context, dir_y, ky) && axis_range_spec(*context, dir_z, kz)
                && axis_range_spec(*context, dir_x, kx) ==> plan_has_coords(
                final(plan)@,
                #[trigger] region_coords_spec(
                    context.iter_start_tile_coords,
                    dir_y,
                    dir_z,
                    dir_x,
                    ky,
                    kz,
                    kx,
                ),
            )),
{
    let region_dirs = dir_y | dir_z | dir_x;
    let incoming_dirs = crate::direction::opposite(region_dirs);
    let traversal_dirs = crate::direction::all_except(incoming_dirs);

    proof {
        crate::direction::lemma_dir_set_bits();
        crate::direction::lemma_dir_or(dir_y, dir_z);
        crate::direction::lemma_dir_or(dir_y | dir_z, dir_x);
        assert(region_dirs & 0b111111 == region_dirs) by (bit_vector)
            requires
                dir_y == 0 || dir_y == 0b000010 || dir_y == 0b010000,
                dir_z == 0 || dir_z == 0b000100 || dir_z == 0b100000,
                dir_x == 0 || dir_x == 0b000001 || dir_x == 0b001000,
                region_dirs == (dir_y | dir_z | dir_x),
        ;
        crate::direction::lemma_opposite_bits(region_dirs);
        crate::direction::lemma_contains_single(incoming_dirs, POS_Y);
        crate::direction::lemma_contains_single(incoming_dirs, NEG_Y);
        // membership of the vertical faces in the incoming set names the
        // region's own vertical direction
        assert(dir_in_set(incoming_dirs, 4) == dir_in_set(region_dirs, 1));
        assert(dir_in_set(incoming_dirs, 1) == dir_in_set(region_dirs, 4));
        assert(dir_in_set(region_dirs, 1) == (dir_y == NEG_Y));
        assert(dir_in_set(region_dirs, 4) == (dir_y == POS_Y));
    }

    if !should_process(incoming_dirs, context.camera_area) {
        proof {
            assert(!region_active_spec(context.camera_area, dir_y));
        }
        return ;
    }
    proof {
        assert(region_active_spec(context.camera_area, dir_y));
        if context.camera_area == CameraArea::Above {
            assert(dir_y == NEG_Y);
        }
        if context.camera_area == CameraArea::Below {
            assert(dir_y == POS_Y);
        }
        if dir_y == 0 {
            assert(context.camera_area == CameraArea::Inside);
        }
    }

    let start = context.iter_start_tile_coords;
    let sign_y: i32 = if dir_y == NEG_Y {
        -1
    } else {
        1
    };
    let sign_z: i32 = if dir_z == NEG_Z {
        -1
    } else {
        1
    };
    let sign_x: i32 = if dir_x == NEG_X {
        -1
    } else {
        1
    };
    let sy: u8 = if dir_y != 0 {
        context.direction_step_counts.get_dir(crate::direction::to_index(dir_y))
    } else {
        0
    };
    let sz: u8 = if dir_z != 0 {
        context.direction_step_counts.get_dir(crate::direction::to_index(dir_z))
    } else {
        0
    };
    let sx: u8 = if dir_x != 0 {
        context.direction_step_counts.get_dir(crate::direction::to_index(dir_x))
    } else {
        0
    };
    let ky_lo: u16 = if dir_y != 0 {
        1
    } else {
        0
    };
    let kz_lo: u16 = if dir_z != 0 {
        1
    } else {
        0
    };
    let kx_lo: u16 = if dir_x != 0 {
        1
    } else {
        0
    };

    let ky_hi: u16 = if dir_y != 0 {
        sy as u16
    } else {
        0
    };
    let kz_hi: u16 = if dir_z != 0 {
        sz as u16
    } else {
        0
    };
    let kx_hi: u16 = if dir_x != 0 {
        sx as u16
    } else {
        0
    };

    let ghost plan0 = plan@;
    let mut ky: u16 = ky_lo;
    while ky <= ky_hi
        invariant
            cs.wf(),
            context.wf(cs),
            start == context.iter_start_tile_coords,
            ky_lo <= ky,
            ky_lo == (if dir_y != 0 { 1u16 } else { 0u16 }),
            kz_lo == (if dir_z != 0 { 1u16 } else { 0u16 }),
            kx_lo == (if dir_x != 0 { 1u16 } else { 0u16 }),
            ky_hi == (if dir_y != 0 { sy as u16 } else { 0u16 }),
            kz_hi == (if dir_z != 0 { sz as u16 } else { 0u16 }),
            kx_hi == (if dir_x != 0 { sx as u16 } else { 0u16 }),
            dir_y == 0 || dir_y == NEG_Y || dir_y == POS_Y,
            dir_z == 0 || dir_z == NEG_Z || dir_z == POS_Z,
            dir_x == 0 || dir_x == NEG_X || dir_x == POS_X,
            sign_y == (if dir_y == NEG_Y { -1int } else { 1int }),
            sign_z == (if dir_z == NEG_Z { -1int } else { 1int }),
            sign_x == (if dir_x == NEG_X { -1int } else { 1int }),
            sy == (if dir_y != 0 {
                context.direction_step_counts.get(crate::direction::dir_index_spec(dir_y))
            } else {
                0u8
            }),
            sz == (if dir_z != 0 {
                context.direction_step_counts.get(crate::direction::dir_index_spec(dir_z))
            } else {
                0u8
            }),
            sx == (if dir_x != 0 {
                context.direction_step_counts.get(crate::direction::dir_index_spec(dir_x))
            } else {
                0u8
            }),
            context.camera_area == CameraArea::Above ==> dir_y == NEG_Y,
            context.camera_area == CameraArea::Below ==> dir_y == POS_Y,
            dir_y == 0 ==> context.camera_area == CameraArea::Inside,
            is_dir_set(incoming_dirs),
            dir_in_set(incoming_dirs, 0) == (dir_x == POS_X),
            dir_in_set(incoming_dirs, 3) == (dir_x == NEG_X),
            dir_in_set(incoming_dirs, 1) == (dir_y == POS_Y),
            dir_in_set(incoming_dirs, 4) == (dir_y == NEG_Y),
            dir_in_set(incoming_dirs, 2) == (dir_z == POS_Z),
            dir_in_set(incoming_dirs, 5) == (dir_z == NEG_Z),
            traversal_dirs == ALL_DIRECTIONS & !incoming_dirs,
            plan0 == old(plan)@,
            region_active_spec(context.camera_area, dir_y),
            dir_x != 0 ==> (forall|ky2: int, kz2: int|
                axis_range_spec(*context, dir_y, ky2) && axis_range_spec(*context, dir_z, kz2)
                    ==> plan_has_coords(
                    plan0,
                    #[trigger] region_coords_spec(
                        context.iter_start_tile_coords,
                        dir_y,
                        dir_z,
                        0,
                        ky2,
                        kz2,
                        0,
                    ),
                )),
            dir_z != 0 ==> (forall|ky2: int, kx2: int|
                axis_range_spec(*context, dir_y, ky2) && axis_range_spec(*context, dir_x, kx2)
                    ==> plan_has_coords(
                    plan0,
                    #[trigger] region_coords_spec(
                        context.iter_start_tile_coords,
                        dir_y,
                        0,
                        dir_x,
                        ky2,
                        0,
                        kx2,
                    ),
                )),
            (dir_y != 0 && context.camera_area == CameraArea::Inside) ==> (forall|
                kz2: int,
                kx2: int,
            |
                axis_range_spec(*context, dir_z, kz2) && axis_range_spec(*context, dir_x, kx2)
                    ==> plan_has_coords(
                    plan0,
                    #[trigger] region_coords_spec(
                        context.iter_start_tile_coords,
                        0,
                        dir_z,
                        dir_x,
                        0,
                        kz2,
                        kx2,
                    ),
                )),
            plan@.len() >= plan0.len(),
            forall|k: int| 0 <= k < plan0.len() ==> #[trigger] plan@[k] == plan0[k],
            forall|k: int| plan0.len() <= k < plan@.len() ==> visit_wf(#[trigger] plan@[k], cs),
            plan_preds_ok(plan@, cs),
            forall|c: LocalTileCoords|
                #[trigger] plan_has_coords(plan0, c) ==> plan_has_coords(plan@, c),
            forall|ky2: int, kz2: int, kx2: int|
                ky_lo <= ky2 < ky && axis_range_spec(*context, dir_z, kz2) && axis_range_spec(
                    *context,
                    dir_x,
                    kx2,
                ) ==> plan_has_coords(
                    plan@,
                    #[trigger] region_coords_spec(start, dir_y, dir_z, dir_x, ky2, kz2, kx2),
                ),
        decreases 300 - ky,
    {
        let cy: i32 = (start.y as i32) + sign_y * (ky as i32);
        let mut kz: u16 = kz_lo;
        while kz <= kz_hi
            invariant
                cs.wf(),
                context.wf(cs),
                start == context.iter_start_tile_coords,
                kz_lo <= kz,
                ky_lo == (if dir_y != 0 { 1u16 } else { 0u16 }),
                kz_lo == (if dir_z != 0 { 1u16 } else { 0u16 }),
                kx_lo == (if dir_x != 0 { 1u16 } else { 0u16 }),
                ky_hi == (if dir_y != 0 { sy as u16 } else { 0u16 }),
                kz_hi == (if dir_z != 0 { sz as u16 } else { 0u16 }),
                kx_hi == (if dir_x != 0 { sx as u16 } else { 0u16 }),
                ky_lo <= ky <= (if dir_y != 0 { sy as int } else { 0int }),
                dir_y == 0 || dir_y == NEG_Y || dir_y == POS_Y,
                dir_z == 0 || dir_z == NEG_Z || dir_z == POS_Z,
                dir_x == 0 || dir_x == NEG_X || dir_x == POS_X,
                sign_y == (if dir_y == NEG_Y { -1int } else { 1int }),
                sign_z == (if dir_z == NEG_Z { -1int } else { 1int }),
                sign_x == (if dir_x == NEG_X { -1int } else { 1int }),
                sy == (if dir_y != 0 {
                    context.direction_step_counts.get(crate::direction::dir_index_spec(dir_y))
                } else {
                    0u8
                }),
                sz == (if dir_z != 0 {
                    context.direction_step_counts.get(crate::direction::dir_index_spec(dir_z))
                } else {
                    0u8
                }),
                sx == (if dir_x != 0 {
                    context.direction_step_counts.get(crate::direction::dir_index_spec(dir_x))
                } else {
                    0u8
                }),
                context.camera_area == CameraArea::Above ==> dir_y == NEG_Y,
                context.camera_area == CameraArea::Below ==> dir_y == POS_Y,
                dir_y == 0 ==> context.camera_area == CameraArea::Inside,
                is_dir_set(incoming_dirs),
                dir_in_set(incoming_dirs, 0) == (dir_x == POS_X),
                dir_in_set(incoming_dirs, 3) == (dir_x == NEG_X),
                dir_in_set(incoming_dirs, 1) == (dir_y == POS_Y),
                dir_in_set(incoming_dirs, 4) == (dir_y == NEG_Y),
                dir_in_set(incoming_dirs, 2) == (dir_z == POS_Z),
                dir_in_set(incoming_dirs, 5) == (dir_z == NEG_Z),
                traversal_dirs == ALL_DIRECTIONS & !incoming_dirs,
                cy == start.y + sign_y * ky,
                plan0 == old(plan)@,
                region_active_spec(context.camera_area, dir_y),
                dir_x != 0 ==> (forall|ky2: int, kz2: int|
                    axis_range_spec(*context, dir_y, ky2) && axis_range_spec(*context, dir_z, kz2)
                        ==> plan_has_coords(
                        plan0,
                        #[trigger] region_coords_spec(
                                context.iter_start_tile_coords,
                                dir_y,
                                dir_z,
                                0,
                                ky2,
                                kz2,
                                0,
                        ),
                    )),
                dir_z != 0 ==> (forall|ky2: int, kx2: int|
                    axis_range_spec(*context, dir_y, ky2) && axis_range_spec(*context, dir_x, kx2)
                        ==> plan_has_coords(
                        plan0,
                        #[trigger] region_coords_spec(
                                context.iter_start_tile_coords,
                                dir_y,
                                0,
                                dir_x,
                                ky2,
                                0,
                                kx2,
                        ),
                    )),
                (dir_y != 0 && context.camera_area == CameraArea::Inside) ==> (forall|
                    kz2: int,
                    kx2: int,
                |
                    axis_range_spec(*context, dir_z, kz2) && axis_range_spec(*context, dir_x, kx2)
                        ==> plan_has_coords(
                        plan0,
                        #[trigger] region_coords_spec(
                                context.iter_start_tile_coords,
                                0,
                                dir_z,
                                dir_x,
                                0,
                                kz2,
                                kx2,
                        ),
                    )),
                plan@.len() >= plan0.len(),
                forall|k: int| 0 <= k < plan0.len() ==> #[trigger] plan@[k] == plan0[k],
                forall|k: int| plan0.len() <= k < plan@.len() ==> visit_wf(#[trigger] plan@[k], cs),
                plan_preds_ok(plan@, cs),
                forall|c: LocalTileCoords|
                    #[trigger] plan_has_coords(plan0, c) ==> plan_has_coords(plan@, c),
                forall|ky2: int, kz2: int, kx2: int|
                    ky_lo <= ky2 < ky && axis_range_spec(*context, dir_z, kz2) && axis_range_spec(
                        *context,
                        dir_x,
                        kx2,
                    ) ==> plan_has_coords(
                        plan@,
                        #[trigger] region_coords_spec(start, dir_y, dir_z, dir_x, ky2, kz2, kx2),
                    ),
                forall|kz2: int, kx2: int|
                    kz_lo <= kz2 < kz && axis_range_spec(*context, dir_x, kx2)
                        ==> plan_has_coords(
                        plan@,
                        #[trigger] region_coords_spec(start, dir_y, dir_z, dir_x, ky as int, kz2, kx2),
                    ),
            decreases 300 - kz,
        {
            let cz: i32 = (start.z as i32) + sign_z * (kz as i32);
            let mut kx: u16 = kx_lo;
            while kx <= kx_hi
                invariant
                    cs.wf(),
                    context.wf(cs),
                    start == context.iter_start_tile_coords,
                    kx_lo <= kx,
                    ky_lo == (if dir_y != 0 { 1u16 } else { 0u16 }),
                    kz_lo == (if dir_z != 0 { 1u16 } else { 0u16 }),
                    kx_lo == (if dir_x != 0 { 1u16 } else { 0u16 }),
                    ky_hi == (if dir_y != 0 { sy as u16 } else { 0u16 }),
                    kz_hi == (if dir_z != 0 { sz as u16 } else { 0u16 }),
                    kx_hi == (if dir_x != 0 { sx as u16 } else { 0u16 }),
                    ky_lo <= ky <= (if dir_y != 0 { sy as int } else { 0int }),
                    kz_lo <= kz <= (if dir_z != 0 { sz as int } else { 0int }),
                    dir_y == 0 || dir_y == NEG_Y || dir_y == POS_Y,
                    dir_z == 0 || dir_z == NEG_Z || dir_z == POS_Z,
                    dir_x == 0 || dir_x == NEG_X || dir_x == POS_X,
                    sign_y == (if dir_y == NEG_Y { -1int } else { 1int }),
                    sign_z == (if dir_z == NEG_Z { -1int } else { 1int }),
                    sign_x == (if dir_x == NEG_X { -1int } else { 1int }),
                    sy == (if dir_y != 0 {
                        context.direction_step_counts.get(crate::direction::dir_index_spec(dir_y))
                    } else {
                        0u8
                    }),
                    sz == (if dir_z != 0 {
                        context.direction_step_counts.get(crate::direction::dir_index_spec(dir_z))
                    } else {
                        0u8
                    }),
                    sx == (if dir_x != 0 {
                        context.direction_step_counts.get(crate::direction::dir_index_spec(dir_x))
                    } else {
                        0u8
                    }),
                    context.camera_area == CameraArea::Above ==> dir_y == NEG_Y,
                    context.camera_area == CameraArea::Below ==> dir_y == POS_Y,
                    dir_y == 0 ==> context.camera_area == CameraArea::Inside,
                    is_dir_set(incoming_dirs),
                    dir_in_set(incoming_dirs, 0) == (dir_x == POS_X),
                    dir_in_set(incoming_dirs, 3) == (dir_x == NEG_X),
                    dir_in_set(incoming_dirs, 1) == (dir_y == POS_Y),
                    dir_in_set(incoming_dirs, 4) == (dir_y == NEG_Y),
                    dir_in_set(incoming_dirs, 2) == (dir_z == POS_Z),
                    dir_in_set(incoming_dirs, 5) == (dir_z == NEG_Z),
                    traversal_dirs == ALL_DIRECTIONS & !incoming_dirs,
                    cy == start.y + sign_y * ky,
                    cz == start.z + sign_z * kz,
                    plan0 == old(plan)@,
                    region_active_spec(context.camera_area, dir_y),
                    dir_x != 0 ==> (forall|ky2: int, kz2: int|
                        axis_range_spec(*context, dir_y, ky2) && axis_range_spec(*context, dir_z, kz2)
                            ==> plan_has_coords(
                            plan0,
                            #[trigger] region_coords_spec(
                                        context.iter_start_tile_coords,
                                        dir_y,
                                        dir_z,
                                        0,
                                        ky2,
                                        kz2,
                                        0,
                            ),
                        )),
                    dir_z != 0 ==> (forall|ky2: int, kx2: int|
                        axis_range_spec(*context, dir_y, ky2) && axis_range_spec(*context, dir_x, kx2)
                            ==> plan_has_coords(
                            plan0,
                            #[trigger] region_coords_spec(
                                        context.iter_start_tile_coords,
                                        dir_y,
                                        0,
                                        dir_x,
                                        ky2,
                                        0,
                                        kx2,
                            ),
                        )),
                    (dir_y != 0 && context.camera_area == CameraArea::Inside) ==> (forall|
                        kz2: int,
                        kx2: int,
                    |
                        axis_range_spec(*context, dir_z, kz2) && axis_range_spec(*context, dir_x, kx2)
                            ==> plan_has_coords(
                            plan0,
                            #[trigger] region_coords_spec(
                                        context.iter_start_tile_coords,
                                        0,
                                        dir_z,
                                        dir_x,
                                        0,
                                        kz2,
                                        kx2,
                            ),
                        )),
                    plan@.len() >= plan0.len(),
                    forall|k: int| 0 <= k < plan0.len() ==> #[trigger] plan@[k] == plan0[k],
                    forall|k: int|
                        plan0.len() <= k < plan@.len() ==> visit_wf(#[trigger] plan@[k], cs),
                    plan_preds_ok(plan@, cs),
                    forall|c: LocalTileCoords|
                        #[trigger] plan_has_coords(plan0, c) ==> plan_has_coords(plan@, c),
                    forall|ky2: int, kz2: int, kx2: int|
                        ky_lo <= ky2 < ky && axis_range_spec(*context, dir_z, kz2)
                            && axis_range_spec(*context, dir_x, kx2)
                            ==> plan_has_coords(
                            plan@,
                            #[trigger] region_coords_spec(start, dir_y, dir_z, dir_x, ky2, kz2, kx2),
                        ),
                    forall|kz2: int, kx2: int|
                        kz_lo <= kz2 < kz && axis_range_spec(*context, dir_x, kx2)
                            ==> plan_has_coords(
                            plan@,
                            #[trigger] region_coords_spec(start, dir_y, dir_z, dir_x, ky as int, kz2, kx2),
                        ),
                    forall|kx2: int|
                        kx_lo <= kx2 < kx ==> plan_has_coords(
                            plan@,
                            #[trigger] region_coords_spec(
                                start,
                                dir_y,
                                dir_z,
                                dir_x,
                                ky as int,
                                kz as int,
                                kx2,
                            ),
                        ),
                decreases 300 - kx,
            {
                let cx: i32 = (start.x as i32) + sign_x * (kx as i32);
                proof {
                    let kyi = ky as int;
                    let kzi = kz as int;
                    let kxi = kx as int;
                    assert(sign_y * kyi == (if sign_y == -1 {
                        -kyi
                    } else {
                        kyi
                    })) by (nonlinear_arith)
                        requires
                            sign_y == -1 || sign_y == 1,
                    ;
                    assert(sign_z * kzi == (if sign_z == -1 {
                        -kzi
                    } else {
                        kzi
                    })) by (nonlinear_arith)
                        requires
                            sign_z == -1 || sign_z == 1,
                    ;
                    assert(sign_x * kxi == (if sign_x == -1 {
                        -kxi
                    } else {
                        kxi
                    })) by (nonlinear_arith)
                        requires
                            sign_x == -1 || sign_x == 1,
                    ;
                    // every coordinate stays in the graph's stepping envelope
                    if dir_y == NEG_Y {
                        assert(cy == start.y - kyi);
                        assert(context.camera_area != CameraArea::Below);
                        assert(start.y - context.direction_step_counts.get(1) >= 0);
                        assert(0 <= cy <= cs.y_len() - 1);
                    } else if dir_y == POS_Y {
                        assert(cy == start.y + kyi);
                        assert(context.camera_area != CameraArea::Above);
                        assert(start.y + context.direction_step_counts.get(4) <= cs.y_len() - 1);
                        assert(0 <= cy <= cs.y_len() - 1);
                    } else {
                        assert(cy == start.y);
                        assert(0 <= cy <= cs.y_len() - 1);
                    }
                    if dir_x == NEG_X {
                        assert(cx == start.x - kxi);
                        assert(-64 <= cx <= 127);
                    } else if dir_x == POS_X {
                        assert(cx == start.x + kxi);
                        assert(-64 <= cx <= 127);
                    } else {
                        assert(cx == start.x);
                        assert(-64 <= cx <= 127);
                    }
                    if dir_z == NEG_Z {
                        assert(cz == start.z - kzi);
                        assert(-64 <= cz <= 127);
                    } else if dir_z == POS_Z {
                        assert(cz == start.z + kzi);
                        assert(-64 <= cz <= 127);
                    } else {
                        assert(cz == start.z);
                        assert(-64 <= cz <= 127);
                    }
                }
                let coords = LocalTileCoords { x: cx as i8, y: cy as i8, z: cz as i8 };
                let visit = TileVisit { coords, incoming_dirs, traversal_dirs };
                proof {
                    assert(coords.y == cy && coords.x == cx && coords.z == cz);
                    assert(visit_wf(visit, cs)) by {
                        assert(0 <= visit.coords.y < cs.y_len());
                        assert(-128 < visit.coords.x);
                        assert(-128 < visit.coords.z);
                        assert(is_dir_set(visit.incoming_dirs));
                        assert(visit_coords_ok(visit.coords, visit.incoming_dirs));
                        assert(visit.traversal_dirs == ALL_DIRECTIONS & !visit.incoming_dirs);
                    }
                }
                let ghost pre_plan = plan@;
                plan.push(visit);
                proof {
                    assert(plan@[plan@.len() - 1] == visit);
                    let j = pre_plan.len() as int;
                    let rc = region_coords_spec(start, dir_y, dir_z, dir_x, ky as int, kz as int, kx as int);
                    assert(coords == rc);
                    assert(axis_range_spec(*context, dir_y, ky as int));
                    assert(axis_range_spec(*context, dir_z, kz as int));
                    assert(axis_range_spec(*context, dir_x, kx as int));
                    // each incoming neighbor of the new visit either sits at
                    // the world's vertical boundary or was planned earlier:
                    // one step back in this region, or in the region this one
                    // steps away from
                    assert forall|d: int|
                        0 <= d < 6 && #[trigger] dir_in_set(visit.incoming_dirs, d)
                            implies visit_pred_ok(plan@, j, d, cs) by {
                        let pc = step_coords_spec(coords, d);
                        if d == 0 {
                            assert(dir_x == POS_X);
                            if kx >= 2 {
                                assert(pc == region_coords_spec(start, dir_y, dir_z, dir_x, ky as int, kz as int, kx as int - 1));
                                assert(plan_has_coords(pre_plan, pc));
                                lemma_plan_has_prefix(pre_plan, plan@, pc);
                            } else {
                                assert(pc == region_coords_spec(start, dir_y, dir_z, 0, ky as int, kz as int, 0));
                                assert(plan_has_coords(plan0, pc));
                                lemma_plan_has_prefix(plan0, plan@, pc);
                            }
                        } else if d == 3 {
                            assert(dir_x == NEG_X);
                            if kx >= 2 {
                                assert(pc == region_coords_spec(start, dir_y, dir_z, dir_x, ky as int, kz as int, kx as int - 1));
                                assert(plan_has_coords(pre_plan, pc));
                                lemma_plan_has_prefix(pre_plan, plan@, pc);
                            } else {
                                assert(pc == region_coords_spec(start, dir_y, dir_z, 0, ky as int, kz as int, 0));
                                assert(plan_has_coords(plan0, pc));
                                lemma_plan_has_prefix(plan0, plan@, pc);
                            }
                        } else if d == 2 {
                            assert(dir_z == POS_Z);
                            if kz >= 2 {
                                assert(pc == region_coords_spec(start, dir_y, dir_z, dir_x, ky as int, kz as int - 1, kx as int));
                                assert(plan_has_coords(pre_plan, pc));
                                lemma_plan_has_prefix(pre_plan, plan@, pc);
                            } else {
                                assert(pc == region_coords_spec(start, dir_y, 0, dir_x, ky as int, 0, kx as int));
                                assert(plan_has_coords(plan0, pc));
                                lemma_plan_has_prefix(plan0, plan@, pc);
                            }
                        } else if d == 5 {
                            assert(dir_z == NEG_Z);
                            if kz >= 2 {
                                assert(pc == region_coords_spec(start, dir_y, dir_z, dir_x, ky as int, kz as int - 1, kx as int));
                                assert(plan_has_coords(pre_plan, pc));
                                lemma_plan_has_prefix(pre_plan, plan@, pc);
                            } else {
                                assert(pc == region_coords_spec(start, dir_y, 0, dir_x, ky as int, 0, kx as int));
                                assert(plan_has_coords(plan0, pc));
                                lemma_plan_has_prefix(plan0, plan@, pc);
                            }
                        } else if d == 1 {
                            assert(dir_y == POS_Y);
                            if ky >= 2 {
                                assert(pc == region_coords_spec(start, dir_y, dir_z, dir_x, ky as int - 1, kz as int, kx as int));
                                assert(plan_has_coords(pre_plan, pc));
                                lemma_plan_has_prefix(pre_plan, plan@, pc);
                            } else if context.camera_area == CameraArea::Inside {
                                assert(pc == region_coords_spec(start, 0, dir_z, dir_x, 0, kz as int, kx as int));
                                assert(plan_has_coords(plan0, pc));
                                lemma_plan_has_prefix(plan0, plan@, pc);
                            } else {
                                assert(context.camera_area == CameraArea::Below);
                                assert(coords.y == 0);
                            }
                        } else {
                            assert(d == 4);
                            assert(dir_y == NEG_Y);
                            if ky >= 2 {
                                assert(pc == region_coords_spec(start, dir_y, dir_z, dir_x, ky as int - 1, kz as int, kx as int));
                                assert(plan_has_coords(pre_plan, pc));
                                lemma_plan_has_prefix(pre_plan, plan@, pc);
                            } else if context.camera_area == CameraArea::Inside {
                                assert(pc == region_coords_spec(start, 0, dir_z, dir_x, 0, kz as int, kx as int));
                                assert(plan_has_coords(plan0, pc));
                                lemma_plan_has_prefix(plan0, plan@, pc);
                            } else {
                                assert(context.camera_area == CameraArea::Above);
                                assert(coords.y == cs.y_len() - 1);
                            }
                        }
                    }
                    lemma_preds_extend(pre_plan, plan@, cs);
                    assert forall|c2: LocalTileCoords|
                        #[trigger] plan_has_coords(pre_plan, c2) implies plan_has_coords(
                        plan@,
                        c2,
                    ) by {
                        lemma_plan_has_prefix(pre_plan, plan@, c2);
                    }
                    assert(plan_has_coords(plan@, rc)) by {
                        assert(plan@[j].coords == rc);
                    }
                }
                kx = kx + 1;
            }
            proof {
                // the whole X row at this (ky, kz) is planned
                assert forall|kx2: int| axis_range_spec(*context, dir_x, kx2)
                    implies plan_has_coords(
                    plan@,
                    #[trigger] region_coords_spec(start, dir_y, dir_z, dir_x, ky as int, kz as int, kx2),
                ) by {
                    assert(kx_lo <= kx2 < kx);
                }
            }
            kz = kz + 1;
        }
        proof {
            // the whole Z plane at this ky is planned
            assert forall|kz2: int, kx2: int|
                axis_range_spec(*context, dir_z, kz2) && axis_range_spec(*context, dir_x, kx2)
                    implies plan_has_coords(
                plan@,
                #[trigger] region_coords_spec(start, dir_y, dir_z, dir_x, ky as int, kz2, kx2),
            ) by {
                assert(kz_lo <= kz2 < kz);
            }
        }
        ky = ky + 1;
    }
    proof {
        // the whole region is planned
        assert forall|ky2: int, kz2: int, kx2: int|
            axis_range_spec(*context, dir_y, ky2) && axis_range_spec(*context, dir_z, kz2)
                && axis_range_spec(*context, dir_x, kx2) implies plan_has_coords(
            plan@,
            #[trigger] region_coords_spec(start, dir_y, dir_z, dir_x, ky2, kz2, kx2),
        ) by {
            assert(ky_lo <= ky2 < ky);
        }
    }
}

/// The tiles at the start of a cull: connections and stale outgoing cubes
/// kept, every processed flag cleared.
pub open spec fn cleared_tiles_spec(tiles: Seq<Tile>) -> Seq<Tile> {
    Seq::new(
        tiles.len(),
        |j: int|
            Tile {
                connection_section_sets: tiles[j].connection_section_sets,
                outgoing_dir_section_sets: tiles[j].outgoing_dir_section_sets,
                processed: false,
            },
    )
}

/// One step of the cull: a fresh visit replaces its tile's outgoing cubes,
/// marks it processed and appends its emission; a repeated visit changes
/// nothing.
pub open spec fn cull_step_spec(
    cs: GraphCoordSpace,
    top_mask: SectionSet,
    oob_above: SectionSet,
    context: GraphSearchContext,
    tiles: Seq<Tile>,
    vis: Seq<FFITile>,
    v: TileVisit,
    geom: TileGeometry,
) -> (Seq<Tile>, Seq<FFITile>) {
    let k = cs.spec_pack(v.coords);
    if tiles[k].processed {
        (tiles, vis)
    } else {
        let r = pt_result_spec(
            tiles,
            cs,
            top_mask,
            oob_above,
            context,
            v.coords,
            v.incoming_dirs,
            v.traversal_dirs,
            geom.test_result,
            geom.cut_mask,
            geom.angle_visibility_masks,
        );
        (
            tiles.update(k, processed_tile_spec(tiles[k], r.0)),
            if r.2 {
                vis.push(
                    FFITile {
                        origin_section_coords: (
                            (context.global_section_offset.0 + v.coords.x * 8) as i32,
                            (context.global_section_offset.1 + v.coords.y * 8) as i32,
                            (context.global_section_offset.2 + v.coords.z * 8) as i32,
                        ),
                        visible_sections: r.1,
                    },
                )
            } else {
                vis
            },
        )
    }
}

/// The first `n` steps of the cull, folded in plan order over the tiles and
/// the output list.
pub open spec fn cull_steps_spec(
    cs: GraphCoordSpace,
    top_mask: SectionSet,
    oob_above: SectionSet,
    context: GraphSearchContext,
    plan: Seq<TileVisit>,
    geometry: Seq<TileGeometry>,
    tiles: Seq<Tile>,
    vis: Seq<FFITile>,
    n: int,
) -> (Seq<Tile>, Seq<FFITile>)
    decreases n,
{
    if n <= 0 {
        (tiles, vis)
    } else {
        let p = cull_steps_spec(cs, top_mask, oob_above, context, plan, geometry, tiles, vis, n - 1);
        cull_step_spec(cs, top_mask, oob_above, context, p.0, p.1, plan[n - 1], geometry[n - 1])
    }
}

impl Graph {
    /// Plans the order of one cull: the camera's tile, six axial rays,
    /// twelve planar quadrants and eight octants, each walked outward so a
    /// tile's incoming neighbors always come earlier in the plan.
    pub fn plan_search(&self, context: &GraphSearchContext) -> (r: Vec<TileVisit>)
        requires
            self.wf(),
            context.wf(self.coord_space),
        ensures
            forall|k: int| 0 <= k < r@.len() ==> visit_wf(#[trigger] r@[k], self.coord_space),
            context.camera_area == CameraArea::Inside ==> r@.len() >= 1 && r@[0].coords
                == context.iter_start_tile_coords && r@[0].incoming_dirs == 0,
            plan_preds_ok(r@, self.coord_space),
            // with the camera inside the world, every tile within the
            // per-direction step envelope is planned
            context.camera_area == CameraArea::Inside ==> (forall|ox: int, oy: int, oz: int|
                -context.direction_step_counts.get(0) <= ox <= context.direction_step_counts.get(3)
                    && -context.direction_step_counts.get(1) <= oy
                    <= context.direction_step_counts.get(4)
                    && -context.direction_step_counts.get(2) <= oz
                    <= context.direction_step_counts.get(5) ==> plan_has_coords(
                    r@,
                    #[trigger] offset_coords_spec(context.iter_start_tile_coords, ox, oy, oz),
                )),
    {
        let mut plan: Vec<TileVisit> = Vec::new();
        let cs = self.coord_space;

        if should_process(0, context.camera_area) {
            proof {
                crate::direction::lemma_dir_set_bits();
                assert(0u8 & 0b111111u8 == 0u8 && 0u8 & 0b010000u8 == 0u8 && 0u8 & 0b000010u8
                    == 0u8) by (bit_vector);
                assert(context.camera_area == CameraArea::Inside);
            }
            let traversal_dirs = crate::direction::all_except(0);
            let visit = TileVisit {
                coords: context.iter_start_tile_coords,
                incoming_dirs: 0,
                traversal_dirs,
            };
            plan.push(visit);
            proof {
                assert(visit_wf(visit, cs));
            }
        }
        proof {
            crate::direction::lemma_dir_set_bits();
            // the start tile has no incoming faces, so predecessors-first
            // holds of the initial plan
            assert forall|j: int, d: int|
                0 <= j < plan@.len() && 0 <= d < 6 && #[trigger] dir_in_set(
                    plan@[j].incoming_dirs,
                    d,
                ) implies visit_pred_ok(plan@, j, d, cs) by {
                assert(plan@[j].incoming_dirs == 0);
                assert(!dir_in_set(0u8, d));
            }
            assert(plan_preds_ok(plan@, cs));
            if context.camera_area == CameraArea::Inside {
                assert(plan_has_coords(plan@, context.iter_start_tile_coords)) by {
                    assert(plan@[0].coords == context.iter_start_tile_coords);
                }
            }
        }

        iterate_region(context, cs, &mut plan, 0, 0, POS_X);
        iterate_region(context, cs, &mut plan, 0, POS_Z, 0);
        iterate_region(context, cs, &mut plan, POS_Y, 0, 0);
        iterate_region(context, cs, &mut plan, 0, 0, NEG_X);
        iterate_region(context, cs, &mut plan, 0, NEG_Z, 0);
        iterate_region(context, cs, &mut plan, NEG_Y, 0, 0);

        iterate_region(context, cs, &mut plan, NEG_Y, 0, POS_X);
        iterate_region(context, cs, &mut plan, 0, NEG_Z, POS_X);
        iterate_region(context, cs, &mut plan, 0, POS_Z, POS_X);
        iterate_region(context, cs, &mut plan, POS_Y, 0, POS_X);
        iterate_region(context, cs, &mut plan, NEG_Y, POS_Z, 0);
        iterate_region(context, cs, &mut plan, POS_Y, POS_Z, 0);
        iterate_region(context, cs, &mut plan, POS_Y, 0, NEG_X);
        iterate_region(context, cs, &mut plan, 0, POS_Z, NEG_X);
        iterate_region(context, cs, &mut plan, 0, NEG_Z, NEG_X);
        iterate_region(context, cs, &mut plan, NEG_Y, 0, NEG_X);
        iterate_region(context, cs, &mut plan, POS_Y, NEG_Z, 0);
        iterate_region(context, cs, &mut plan, NEG_Y, NEG_Z, 0);

        iterate_region(context, cs, &mut plan, NEG_Y, NEG_Z, POS_X);
        iterate_region(context, cs, &mut plan, NEG_Y, POS_Z, POS_X);
        iterate_region(context, cs, &mut plan, POS_Y, NEG_Z, POS_X);
        iterate_region(context, cs, &mut plan, POS_Y, POS_Z, POS_X);
        iterate_region(context, cs, &mut plan, POS_Y, POS_Z, NEG_X);
        iterate_region(context, cs, &mut plan, POS_Y, NEG_Z, NEG_X);
        iterate_region(context, cs, &mut plan, NEG_Y, POS_Z, NEG_X);
        iterate_region(context, cs, &mut plan, NEG_Y, NEG_Z, NEG_X);

        proof {
            if context.camera_area == CameraArea::Inside {
                let st = context.iter_start_tile_coords;
                assert forall|ox: int, oy: int, oz: int|
                    -context.direction_step_counts.get(0) <= ox
                        <= context.direction_step_counts.get(3)
                        && -context.direction_step_counts.get(1) <= oy
                        <= context.direction_step_counts.get(4)
                        && -context.direction_step_counts.get(2) <= oz
                        <= context.direction_step_counts.get(5) implies plan_has_coords(
                    plan@,
                    #[trigger] offset_coords_spec(st, ox, oy, oz),
                ) by {
                    let dx: u8 = if ox > 0 {
                        POS_X
                    } else if ox < 0 {
                        NEG_X
                    } else {
                        0u8
                    };
                    let dy: u8 = if oy > 0 {
                        POS_Y
                    } else if oy < 0 {
                        NEG_Y
                    } else {
                        0u8
                    };
                    let dz: u8 = if oz > 0 {
                        POS_Z
                    } else if oz < 0 {
                        NEG_Z
                    } else {
                        0u8
                    };
                    let kx = if ox < 0 {
                        -ox
                    } else {
                        ox
                    };
                    let ky = if oy < 0 {
                        -oy
                    } else {
                        oy
                    };
                    let kz = if oz < 0 {
                        -oz
                    } else {
                        oz
                    };
                    assert(offset_coords_spec(st, ox, oy, oz) == region_coords_spec(
                        st,
                        dy,
                        dz,
                        dx,
                        ky,
                        kz,
                        kx,
                    ));
                    if ox == 0 && oy == 0 && oz == 0 {
                        assert(plan_has_coords(plan@, st));
                    } else {
                        assert(axis_range_spec(*context, dy, ky));
                        assert(axis_range_spec(*context, dz, kz));
                        assert(axis_range_spec(*context, dx, kx));
                        assert(region_active_spec(context.camera_area, dy));
                        assert(plan_has_coords(
                            plan@,
                            region_coords_spec(st, dy, dz, dx, ky, kz, kx),
                        ));
                    }
                }
            }
        }

        plan
    }

    /// Runs one cull over a planned visit order and the host's per-visit
    /// geometry: exactly the specification fold of one visit step over the
    /// plan, starting from the cleared tiles. Afterwards the output list
    /// holds only nonempty tiles, no two of which share an origin.
    pub fn cull(
        &mut self,
        context: &GraphSearchContext,
        plan: &Vec<TileVisit>,
        geometry: &Vec<TileGeometry>,
    )
        requires
            old(self).wf(),
            context.wf(old(self).coord_space),
            geometry@.len() == plan@.len(),
            forall|k: int| 0 <= k < plan@.len() ==> visit_wf(#[trigger] plan@[k], old(self).coord_space),
        ensures
            final(self).wf(),
            final(self).coord_space == old(self).coord_space,
            cull_inv(*final(self), *context),
            forall|k: int|
                0 <= k < final(self).tiles@.len() ==> (#[trigger] final(self).tile_at(
                    k,
                )).connection_section_sets == old(self).tile_at(k).connection_section_sets,
            forall|k1: int, k2: int|
                0 <= k1 < k2 < final(self).visible_tiles@.len()
                    ==> (#[trigger] final(self).visible_tiles@[k1]).origin_section_coords
                    != (#[trigger] final(self).visible_tiles@[k2]).origin_section_coords,
            forall|k: int|
                0 <= k < final(self).visible_tiles@.len()
                    ==> (#[trigger] final(self).visible_tiles@[k]).visible_sections
                    != SectionSet::empty_spec(),
            // the whole cull is the specification fold over the plan: the
            // final tiles and the emitted list are fixed by the inputs
            ({
                let r = cull_steps_spec(
                    old(self).coord_space,
                    old(self).top_tile_visibility_mask,
                    old(self).oob_above_incoming_sections,
                    *context,
                    plan@,
                    geometry@,
                    cleared_tiles_spec(old(self).tiles@),
                    Seq::<FFITile>::empty(),
                    plan@.len() as int,
                );
                &&& final(self).tiles@ == r.0
                &&& final(self).visible_tiles@ == r.1
            }),
    {
        self.clear();
        let ghost g1 = *self;
        proof {
            assert(g1.tiles@ == cleared_tiles_spec(old(self).tiles@));
            assert(g1.visible_tiles@ =~= Seq::<FFITile>::empty());
        }
        let mut i: usize = 0;
        while i < plan.len()
            invariant
                self.wf(),
                context.wf(self.coord_space),
                self.coord_space == g1.coord_space,
                self.do_height_checks == g1.do_height_checks,
                self.top_tile_visibility_mask == g1.top_tile_visibility_mask,
                self.oob_above_incoming_sections == g1.oob_above_incoming_sections,
                self.tiles@.len() == g1.tiles@.len(),
                forall|k: int|
                    0 <= k < self.tiles@.len() ==> (#[trigger] self.tile_at(
                        k,
                    )).connection_section_sets == g1.tile_at(k).connection_section_sets,
                geometry@.len() == plan@.len(),
                forall|k: int| 0 <= k < plan@.len() ==> visit_wf(#[trigger] plan@[k], self.coord_space),
                cull_inv(*self, *context),
                i <= plan@.len(),
                ({
                    let r = cull_steps_spec(
                        g1.coord_space,
                        g1.top_tile_visibility_mask,
                        g1.oob_above_incoming_sections,
                        *context,
                        plan@,
                        geometry@,
                        g1.tiles@,
                        Seq::<FFITile>::empty(),
                        i as int,
                    );
                    &&& self.tiles@ == r.0
                    &&& self.visible_tiles@ == r.1
                }),
            decreases plan@.len() - i,
        {
            let v = plan[i];
            let g = &geometry[i];
            let ghost tiles_pre = self.tiles@;
            let ghost vis_pre = self.visible_tiles@;
            self.process_tile(
                context,
                v.coords,
                v.incoming_dirs,
                v.traversal_dirs,
                g.test_result,
                g.cut_mask,
                &g.angle_visibility_masks,
            );
            proof {
                assert((self.tiles@, self.visible_tiles@) == cull_step_spec(
                    g1.coord_space,
                    g1.top_tile_visibility_mask,
                    g1.oob_above_incoming_sections,
                    *context,
                    tiles_pre,
                    vis_pre,
                    plan@[i as int],
                    geometry@[i as int],
                ));
            }
            i = i + 1;
        }
    }
}

} // verus!
