//! End-to-end culls on small graphs.

use hypercull::context::CombinedTestResults;
use hypercull::context::GraphSearchContext;
use hypercull::graph::Graph;
use hypercull::graph::TileGeometry;
use hypercull::sections::get_bit;
use hypercull::sections::section_index;
use hypercull::sections::SectionSet;
use hypercull::tile::AngleMasks;

fn filled() -> SectionSet {
    SectionSet {
        l0: !0,
        l1: !0,
        l2: !0,
        l3: !0,
        l4: !0,
        l5: !0,
        l6: !0,
        l7: !0,
    }
}

fn make_context(
    g: &Graph,
    camera_block: (i32, i32, i32),
    search_distance_blocks: i32,
    use_occlusion: bool,
) -> GraphSearchContext {
    let cs = &g.coord_space;
    let (lx, ly, lz) = cs.block_to_local_coords(camera_block.0, camera_block.1, camera_block.2);
    let d = search_distance_blocks as i64;
    let cu = |v: i64| -> u16 { v.clamp(0, 65535) as u16 };
    let ci = |v: i64| -> i16 { v.clamp(-32768, 32767) as i16 };
    GraphSearchContext::new(
        cs,
        camera_block,
        (cu(lx as i64 + d), cu(ly as i64 + d), cu(lz as i64 + d)),
        (ci(lx as i64 - d), ci(ly as i64 - d), ci(lz as i64 - d)),
        use_occlusion,
    )
}

fn wide_open_geometry(n: usize) -> Vec<TileGeometry> {
    let mut v = Vec::new();
    for _ in 0..n {
        v.push(TileGeometry {
            test_result: CombinedTestResults::all_inside(),
            cut_mask: filled(),
            angle_visibility_masks: AngleMasks::all_filled(),
        });
    }
    v
}

fn open_world(g: &mut Graph) {
    // every section of the world admits sight between all face pairs
    for y in -4..=19 {
        for z in 0..16 {
            for x in 0..16 {
                g.set_section(x, y, z, u64::MAX);
            }
        }
    }
}

/// A small world: 2x3x2 tiles, world sections Y in [-4, 19].
fn small_graph() -> Graph {
    let g = Graph::new(2, -4, 19);
    assert_eq!(g.coord_space.xz_length_tiles, 2);
    assert_eq!(g.coord_space.y_length_tiles, 3);
    g
}

/// Empty world: the camera's own tile is emitted with exactly the camera's
/// section visible, seeded by the center-tile setup.
#[test]
fn empty_world_emits_camera_section() {
    let mut g = small_graph();
    let camera = (40, 10, 40);
    let ctx = make_context(&g, camera, 100, true);
    let plan = g.plan_search(&ctx);
    let geometry = wide_open_geometry(plan.len());
    g.cull(&ctx, &plan, &geometry);

    assert_eq!(g.visible_tiles.len(), 1);
    let t = &g.visible_tiles[0];
    // the camera at block (40, 10, 40) sits in section (2, 0, 2) of tile 0
    // (world bottom is section -4, so local section Y is 4, inside tile 0)
    assert_eq!(t.origin_section_coords, (0, -4, 0));
    let si = section_index(2, 4, 2);
    let w = t.visible_sections.to_words();
    let mut count = 0;
    for i in 0..512u16 {
        if get_bit(&t.visible_sections, i) {
            count += 1;
            assert_eq!(i, si);
        }
    }
    assert_eq!(count, 1);
    // wire format: bit (y << 6) | (z << 3) | x of the little-endian words
    assert_eq!(w[(si >> 6) as usize] & (1u64 << (si & 63)), 1u64 << (si & 63));
}

/// Fully open world: every tile is emitted, each fully visible, and a second
/// identical cull returns identical output.
#[test]
fn open_world_emits_everything_and_is_repeatable() {
    let mut g = small_graph();
    open_world(&mut g);
    let camera = (40, 10, 40);
    let ctx = make_context(&g, camera, 10000, true);
    let plan = g.plan_search(&ctx);
    let geometry = wide_open_geometry(plan.len());
    g.cull(&ctx, &plan, &geometry);

    assert_eq!(g.visible_tiles.len(), 12);
    for t in &g.visible_tiles {
        assert_eq!(t.visible_sections.to_words(), [!0u64; 8], "{:?}", t.origin_section_coords);
    }

    let first: Vec<((i32, i32, i32), [u64; 8])> = g
        .visible_tiles
        .iter()
        .map(|t| (t.origin_section_coords, t.visible_sections.to_words()))
        .collect();

    g.cull(&ctx, &plan, &geometry);
    let second: Vec<((i32, i32, i32), [u64; 8])> = g
        .visible_tiles
        .iter()
        .map(|t| (t.origin_section_coords, t.visible_sections.to_words()))
        .collect();
    assert_eq!(first, second);
}

/// A sparse world culled twice gives identical output: the second cull
/// starts from the stale per-tile outgoing cubes the first one left behind
/// and must not see them.
#[test]
fn stale_outgoing_state_does_not_leak() {
    let mut g = small_graph();
    for y in -4..=19 {
        for z in 0..16 {
            for x in 0..16 {
                if x % 2 == 0 {
                    g.set_section(x, y, z, !0);
                }
            }
        }
    }
    let camera = (40, 10, 40);
    let ctx = make_context(&g, camera, 10000, true);
    let plan = g.plan_search(&ctx);
    let geometry = wide_open_geometry(plan.len());
    g.cull(&ctx, &plan, &geometry);
    let first: Vec<((i32, i32, i32), [u64; 8])> = g
        .visible_tiles
        .iter()
        .map(|t| (t.origin_section_coords, t.visible_sections.to_words()))
        .collect();
    assert!(!first.is_empty());

    g.cull(&ctx, &plan, &geometry);
    let second: Vec<((i32, i32, i32), [u64; 8])> = g
        .visible_tiles
        .iter()
        .map(|t| (t.origin_section_coords, t.visible_sections.to_words()))
        .collect();
    assert_eq!(first, second);
}

/// Only the camera's own tile admits sight; traversal still crosses into the
/// neighbors' border sections but no further.
#[test]
fn closed_neighbors_stay_dark_inside() {
    let mut g = small_graph();
    // open only the camera's tile: global sections x,z in [0,8), y in [-4,4)
    for y in -4..4 {
        for z in 0..8 {
            for x in 0..8 {
                g.set_section(x, y, z, u64::MAX);
            }
        }
    }
    let camera = (40, 10, 40);
    let ctx = make_context(&g, camera, 10000, true);
    let plan = g.plan_search(&ctx);
    let geometry = wide_open_geometry(plan.len());
    g.cull(&ctx, &plan, &geometry);

    // the camera tile is fully visible
    let camera_tile = g
        .visible_tiles
        .iter()
        .find(|t| t.origin_section_coords == (0, -4, 0))
        .expect("camera tile missing");
    assert_eq!(camera_tile.visible_sections.to_words(), [!0u64; 8]);

    // any other emitted tile holds only the border slab facing the camera
    // tile: sight stops at its closed sections
    for t in &g.visible_tiles {
        if t.origin_section_coords == (0, -4, 0) {
            continue;
        }
        let (ox, oy, oz) = t.origin_section_coords;
        for y in 0..8u8 {
            for z in 0..8u8 {
                for x in 0..8u8 {
                    if get_bit(&t.visible_sections, section_index(x, y, z)) {
                        let on_facing_border = (ox == 8 && x == 0) || (oz == 8 && z == 0) || (oy
                            == 4 && y == 0);
                        assert!(
                            on_facing_border,
                            "deep section visible in closed tile {:?} at ({}, {}, {})",
                            t.origin_section_coords, x, y, z
                        );
                    }
                }
            }
        }
    }
}

/// Camera above the world, looking down: every top-row tile is emitted and,
/// with a fully open world, flooded completely from the out-of-bounds mask.
#[test]
fn camera_above_world_floods_top_row() {
    let mut g = small_graph();
    open_world(&mut g);
    // world top section is 19, so top block is 319; put the camera high above
    let camera = (40, (19 + 1) * 16 + 100, 40);
    let ctx = make_context(&g, camera, 10000, true);
    let plan = g.plan_search(&ctx);
    let geometry = wide_open_geometry(plan.len());
    g.cull(&ctx, &plan, &geometry);

    // the top tile row starts at global section Y = -4 + 16 = 12
    let top_row: Vec<_> = g
        .visible_tiles
        .iter()
        .filter(|t| t.origin_section_coords.1 == 12)
        .collect();
    assert_eq!(top_row.len(), 4);
    for t in &top_row {
        assert_eq!(t.visible_sections.to_words(), [!0u64; 8]);
    }
}

/// With two tiles per horizontal axis, a long ray wraps around the world;
/// the wrap must not re-emit or re-process the tile it lands on.
#[test]
fn xz_wrap_does_not_revisit() {
    let mut g = small_graph();
    open_world(&mut g);
    let camera = (8, 10, 8);
    // the largest allowed search distance: the full wrap of 2 tiles x 128
    let ctx = make_context(&g, camera, 256, true);
    let plan = g.plan_search(&ctx);
    let geometry = wide_open_geometry(plan.len());
    g.cull(&ctx, &plan, &geometry);

    let mut seen = std::collections::HashSet::new();
    for t in &g.visible_tiles {
        assert!(
            seen.insert(t.origin_section_coords),
            "duplicate emitted tile {:?}",
            t.origin_section_coords
        );
    }
    assert!(g.visible_tiles.len() <= 12);
}

/// A frustum of one plane facing positive X: tiles wholly on the negative
/// side of the camera are rejected, tiles on the positive side within reach
/// are emitted.
#[test]
fn frustum_cuts_negative_x() {
    // a wider graph: 5 tiles across, so the wrap stays out of the way
    let mut g = Graph::new(13, -4, 19);
    assert_eq!(g.coord_space.xz_length_tiles, 5);
    open_world(&mut g);
    // camera in the middle tile (tile x = 2 holds blocks 256..384)
    let camera = (320, 10, 320);
    let ctx = make_context(&g, camera, 300, false);
    let plan = g.plan_search(&ctx);

    // one frustum plane, x >= 0 relative to the camera, tested against each
    // tile's box extended by the canonical 1.125 blocks
    let ext = 1.125f32;
    let mut geometry = Vec::new();
    for v in plan.iter() {
        let (bx, _, _) = v.coords.to_local_block_coords();
        let rel_x = (bx - ctx.camera_pos_int.0) as f32;
        let outside = rel_x + 128.0 + ext < 0.0;
        let test_result = if outside {
            CombinedTestResults::outside()
        } else {
            CombinedTestResults::all_inside()
        };
        geometry.push(TileGeometry {
            test_result,
            cut_mask: filled(),
            angle_visibility_masks: AngleMasks::all_filled(),
        });
    }
    g.cull(&ctx, &plan, &geometry);

    // global camera section x is 20, camera tile origin section x is 16
    let mut saw_positive_neighbor = false;
    for t in &g.visible_tiles {
        let (ox, _, _) = t.origin_section_coords;
        // a tile wholly below the camera's X never appears
        assert!(
            (ox * 16 + 128) as f32 + ext >= 320.0,
            "tile {:?} is behind the camera plane",
            t.origin_section_coords
        );
        if ox == 24 {
            saw_positive_neighbor = true;
        }
    }
    assert!(saw_positive_neighbor);
    assert!(g.visible_tiles.iter().any(|t| t.origin_section_coords.0 == 16));
}

/// Camera below the world, looking up: every bottom-row tile is emitted and,
/// with a fully open world, flooded completely from below.
#[test]
fn camera_below_world_floods_bottom_row() {
    let mut g = small_graph();
    open_world(&mut g);
    // world bottom section is -4, so the bottom block is -64
    let camera = (40, -200, 40);
    let ctx = make_context(&g, camera, 10000, true);
    let plan = g.plan_search(&ctx);
    let geometry = wide_open_geometry(plan.len());
    g.cull(&ctx, &plan, &geometry);

    let bottom_row: Vec<_> = g
        .visible_tiles
        .iter()
        .filter(|t| t.origin_section_coords.1 == -4)
        .collect();
    assert_eq!(bottom_row.len(), 4);
    for t in &bottom_row {
        assert_eq!(t.visible_sections.to_words(), [!0u64; 8]);
    }
}

/// A cull with occlusion disabled emits every in-reach tile with exactly its
/// cut mask, whatever the connection data says.
#[test]
fn occlusion_off_emits_cut_masks() {
    let mut g = small_graph();
    // connections stay empty
    let camera = (40, 10, 40);
    let ctx = make_context(&g, camera, 10000, false);
    let plan = g.plan_search(&ctx);
    let geometry = wide_open_geometry(plan.len());
    g.cull(&ctx, &plan, &geometry);

    assert_eq!(g.visible_tiles.len(), 12);
    for t in &g.visible_tiles {
        assert_eq!(t.visible_sections.to_words(), [!0u64; 8]);
    }
}

/// The traversal only keeps sections the cut mask admitted, beyond its own
/// start seed.
#[test]
fn traversal_respects_cut_mask() {
    let mut g = small_graph();
    open_world(&mut g);
    let camera = (40, 10, 40);
    let ctx = make_context(&g, camera, 10000, true);
    let plan = g.plan_search(&ctx);

    // keep only the six lowest Y-layers of every tile; the camera's own
    // section sits at layer 4, inside the mask
    let cut = SectionSet { l0: !0, l1: !0, l2: !0, l3: !0, l4: !0, l5: !0, l6: 0, l7: 0 };
    let mut geometry = Vec::new();
    for _ in 0..plan.len() {
        geometry.push(TileGeometry {
            test_result: CombinedTestResults::all_inside(),
            cut_mask: cut,
            angle_visibility_masks: AngleMasks::all_filled(),
        });
    }
    g.cull(&ctx, &plan, &geometry);

    assert!(!g.visible_tiles.is_empty());
    for t in &g.visible_tiles {
        for y in 0..8u8 {
            for z in 0..8u8 {
                for x in 0..8u8 {
                    if get_bit(&t.visible_sections, section_index(x, y, z)) {
                        assert!(y < 6, "section above the cut emitted in {:?}", t.origin_section_coords);
                    }
                }
            }
        }
    }
}

/// Sections that admit sight only between their two X faces form a
/// corridor: the flood fill spreads along the camera's X row and nowhere
/// else, crossing into the wrapped X neighbor exactly once.
#[test]
fn x_corridor_floods_one_row() {
    let mut g = small_graph();
    // the pair of the two X faces sits at host bit 37
    for y in -4..=19 {
        for z in 0..16 {
            for x in 0..16 {
                g.set_section(x, y, z, 1u64 << 37);
            }
        }
    }
    let camera = (40, 10, 40);
    let ctx = make_context(&g, camera, 10000, true);
    let plan = g.plan_search(&ctx);
    let geometry = wide_open_geometry(plan.len());
    g.cull(&ctx, &plan, &geometry);

    // the camera tile and the one X neighbor (its other side wraps onto the
    // same stored tile)
    assert_eq!(g.visible_tiles.len(), 2);
    for t in &g.visible_tiles {
        assert!(t.origin_section_coords == (0, -4, 0) || t.origin_section_coords == (8, -4, 0));
        // exactly the camera's X row: local section Y 4, Z 2
        for y in 0..8u8 {
            for z in 0..8u8 {
                for x in 0..8u8 {
                    let expect = y == 4 && z == 2;
                    assert_eq!(
                        get_bit(&t.visible_sections, section_index(x, y, z)),
                        expect,
                        "tile {:?} section ({}, {}, {})",
                        t.origin_section_coords,
                        x,
                        y,
                        z
                    );
                }
            }
        }
    }
}
