//! Unit checks of the formulas: connection pair indices, the host bit table,
//! mask builders, height masks, coordinate conversions and the per-frame
//! context derivation.

use hypercull::bitset::contains_u8;
use hypercull::bitset::from_elements_u8;
use hypercull::context::CameraArea;
use hypercull::context::GraphSearchContext;
use hypercull::coords::div_euclid_i32;
use hypercull::coords::rem_euclid_i32;
use hypercull::coords::GraphCoordSpace;
use hypercull::coords::LocalTileCoords;
use hypercull::direction::all_except;
use hypercull::direction::from_index;
use hypercull::direction::opposite;
use hypercull::direction::to_index;
use hypercull::direction::NEG_X;
use hypercull::direction::NEG_Y;
use hypercull::direction::NEG_Z;
use hypercull::direction::POS_X;
use hypercull::direction::POS_Y;
use hypercull::direction::POS_Z;
use hypercull::graph::Graph;
use hypercull::masks::cylinder_sections;
use hypercull::masks::expand_xy_mask;
use hypercull::masks::expand_xz_mask;
use hypercull::masks::expand_zy_mask;
use hypercull::masks::gen_oob_above_incoming_sections;
use hypercull::masks::gen_top_tile_visibility_mask;
use hypercull::masks::oob_below_incoming_sections;
use hypercull::masks::rasterize_row;
use hypercull::masks::voxelize_plane_rows;
use hypercull::sections::edge_neg_to_pos_x;
use hypercull::sections::get_bit;
use hypercull::sections::section_index;
use hypercull::sections::shift_pos_x;
use hypercull::sections::SectionSet;
use hypercull::visibility::connection_bit_index;
use hypercull::visibility::connection_index;

/// The fifteen pair indices follow the triangular numbering of the larger
/// direction ordinal, and the host bit table matches the host's -Y, +Y, -Z,
/// +Z, -X, +X direction order.
#[test]
fn connection_index_table() {
    // all pairs against the dense triangular layout
    let dirs = [NEG_X, NEG_Y, NEG_Z, POS_X, POS_Y, POS_Z];
    let mut seen = [false; 15];
    for &a in &dirs {
        for &b in &dirs {
            if a == b {
                continue;
            }
            let ci = connection_index(a, b);
            assert_eq!(ci, connection_index(b, a));
            let (l, s) = if to_index(a) > to_index(b) {
                (to_index(a), to_index(b))
            } else {
                (to_index(b), to_index(a))
            };
            assert_eq!(ci, l * (l - 1) / 2 + s);
            seen[ci] = true;
        }
    }
    assert!(seen.iter().all(|&x| x));

    // a few pinned pairs
    assert_eq!(connection_index(NEG_Y, NEG_X), 0);
    assert_eq!(connection_index(POS_X, NEG_X), 3);
    assert_eq!(connection_index(POS_Z, POS_Y), 14);

    // the host's bit positions: host ordinal of -Y, +Y, -Z, +Z, -X, +X is
    // 0..6, and pair (small, large) sits at bit small * 8 + large
    let host_ordinal = |d: u8| -> u8 {
        match d {
            NEG_Y => 0,
            POS_Y => 1,
            NEG_Z => 2,
            POS_Z => 3,
            NEG_X => 4,
            _ => 5,
        }
    };
    for &a in &dirs {
        for &b in &dirs {
            if a == b {
                continue;
            }
            let ci = connection_index(a, b);
            let (h1, h2) = (host_ordinal(a), host_ordinal(b));
            let (hs, hl) = if h1 < h2 { (h1, h2) } else { (h2, h1) };
            assert_eq!(connection_bit_index(ci), hs * 8 + hl);
        }
    }
}

#[test]
fn direction_ops() {
    assert_eq!(opposite(NEG_X), POS_X);
    assert_eq!(opposite(POS_Y), NEG_Y);
    assert_eq!(opposite(NEG_Z | POS_X), POS_Z | NEG_X);
    assert_eq!(all_except(NEG_Y), 0b111101);
    assert_eq!(from_elements_u8(&[NEG_X, POS_Z]), 0b100001);
    assert!(contains_u8(0b111111, POS_Y));
    assert!(!contains_u8(0b000001, POS_Y));
    for i in 0..6 {
        assert_eq!(to_index(from_index(i)), i);
    }
}

#[test]
fn euclid_div_and_rem() {
    assert_eq!(div_euclid_i32(-1, 8), -1);
    assert_eq!(div_euclid_i32(-8, 8), -1);
    assert_eq!(div_euclid_i32(-9, 8), -2);
    assert_eq!(div_euclid_i32(7, 8), 0);
    assert_eq!(rem_euclid_i32(-1, 8), 7);
    assert_eq!(rem_euclid_i32(-8, 8), 0);
    assert_eq!(rem_euclid_i32(15, 8), 7);
}

#[test]
fn pack_index_wraps_x_and_z() {
    let cs = GraphCoordSpace::new(3, 4, -4, 19);
    let a = cs.pack_index(LocalTileCoords::from_xyz(1, 2, 3));
    let b = cs.pack_index(LocalTileCoords::from_xyz(1 + 4, 2, 3 - 4));
    assert_eq!(a, b);
    assert_eq!(a.0, 2 * 16 + 3 * 4 + 1);
}

#[test]
fn section_conversions() {
    let cs = GraphCoordSpace::new(3, 2, -4, 19);
    let (tile, sec) = cs.section_to_tile_coords(9, -3, 17);
    assert_eq!(tile, LocalTileCoords::from_xyz(1, 0, 0));
    assert_eq!(sec, (1, 1, 1));

    let (lx, ly, lz) = cs.block_to_local_coords(-1, 0, 257);
    assert_eq!(lx, 255);
    assert_eq!(ly, 64);
    assert_eq!(lz, 1);
}

#[test]
fn expand_masks_place_bits() {
    let compressed = [0b00000001u8, 0, 0, 0b10000000, 0, 0, 0, 0];

    let xy = expand_xy_mask(&compressed);
    // byte y of the input becomes the X-row at every Z of layer y
    assert!(get_bit(&xy, section_index(0, 0, 5)));
    assert!(!get_bit(&xy, section_index(1, 0, 5)));
    assert!(get_bit(&xy, section_index(7, 3, 2)));
    assert!(!get_bit(&xy, section_index(7, 4, 2)));

    let xz = expand_xz_mask(&compressed);
    // byte z of the input becomes the X-row at every Y of Z-row z
    assert!(get_bit(&xz, section_index(0, 6, 0)));
    assert!(!get_bit(&xz, section_index(0, 6, 1)));
    assert!(get_bit(&xz, section_index(7, 1, 3)));

    let zy = expand_zy_mask(&compressed);
    // bit z of byte y fills the whole X-row at (y, z)
    assert!(get_bit(&zy, section_index(4, 0, 0)));
    assert!(!get_bit(&zy, section_index(4, 0, 1)));
    assert!(get_bit(&zy, section_index(4, 3, 7)));
    assert!(!get_bit(&zy, section_index(4, 3, 6)));
}

#[test]
fn rasterized_rows() {
    assert_eq!(rasterize_row(0, 8), 0xFF);
    assert_eq!(rasterize_row(3, 5), 0b00011000);
    assert_eq!(rasterize_row(8, 9), 0);
    assert_eq!(rasterize_row(0, 0), 0);
}

#[test]
fn height_masks() {
    // a world whose top tile holds three valid section layers
    let top = gen_top_tile_visibility_mask(3);
    for y in 0..8u8 {
        assert_eq!(get_bit(&top, section_index(4, y, 4)), y < 3);
    }
    // traversal from above enters at the topmost valid layer and everything
    // over it
    let oob = gen_oob_above_incoming_sections(3);
    for y in 0..8u8 {
        assert_eq!(get_bit(&oob, section_index(4, y, 4)), y >= 2);
    }
    // a tile-aligned world top enters through the very top layer
    let oob_aligned = gen_oob_above_incoming_sections(0);
    for y in 0..8u8 {
        assert_eq!(get_bit(&oob_aligned, section_index(4, y, 4)), y == 7);
    }
    let below = oob_below_incoming_sections();
    for y in 0..8u8 {
        assert_eq!(get_bit(&below, section_index(4, y, 4)), y == 0);
    }
}

/// Voxelizing a plane from per-row intercepts against a per-section check.
#[test]
fn plane_rows_match_reference() {
    let mut intercepts = [0i8; 64];
    for y in 0..8 {
        for z in 0..8 {
            // a diagonal sweep of intercepts through the whole valid range
            intercepts[y * 8 + z] = (y as i8) + (z as i8) - 4;
        }
    }
    for &invert in &[false, true] {
        let cube = voxelize_plane_rows(&intercepts, invert);
        for y in 0..8u8 {
            for z in 0..8u8 {
                for x in 0..8u8 {
                    let keep = (x as i8) <= intercepts[(y as usize) * 8 + z as usize];
                    assert_eq!(get_bit(&cube, section_index(x, y, z)), keep != invert);
                }
            }
        }
    }
}

/// The fog cylinder mask from float row extents, against a per-section
/// reference of the same cylinder.
#[test]
fn cylinder_matches_reference() {
    let fog = 60.0f32;
    let rel = (-70.0f32, -50.0, -55.0);
    let ext = 1.125f32;

    // the host's float work: per Z-row, the X positions whose extended boxes
    // reach inside the disk; and the Y extent
    let mut row_masks = [0u8; 8];
    for z in 0..8 {
        let z0 = rel.2 + (z as f32) * 16.0 - ext;
        let z1 = z0 + 16.0 + 2.0 * ext;
        let dz = if z0 > 0.0 {
            z0
        } else if z1 < 0.0 {
            -z1
        } else {
            0.0
        };
        let c2 = fog * fog - dz * dz;
        if c2 <= 0.0 {
            row_masks[z] = 0;
            continue;
        }
        let c = c2.sqrt();
        let mut row = 0u8;
        for x in 0..8 {
            let x0 = rel.0 + (x as f32) * 16.0 - ext;
            let x1 = x0 + 16.0 + 2.0 * ext;
            let dx = if x0 > 0.0 {
                x0
            } else if x1 < 0.0 {
                -x1
            } else {
                0.0
            };
            if dx < c {
                row |= 1 << x;
            }
        }
        row_masks[z] = row;
    }
    let mut y_mask = 0u8;
    for y in 0..8 {
        let y0 = rel.1 + (y as f32) * 16.0 - ext;
        let y1 = y0 + 16.0 + 2.0 * ext;
        let dy = if y0 > 0.0 {
            y0
        } else if y1 < 0.0 {
            -y1
        } else {
            0.0
        };
        if dy < fog {
            y_mask |= 1 << y;
        }
    }

    let cube = cylinder_sections(&row_masks, y_mask);

    // per-section reference: closest point of the extended box to the camera
    for y in 0..8u8 {
        for z in 0..8u8 {
            for x in 0..8u8 {
                let close = |lo: f32| -> f32 {
                    let a = lo - ext;
                    let b = lo + 16.0 + ext;
                    if a > 0.0 {
                        a
                    } else if b < 0.0 {
                        -b
                    } else {
                        0.0
                    }
                };
                let dx = close(rel.0 + (x as f32) * 16.0);
                let dy = close(rel.1 + (y as f32) * 16.0);
                let dz = close(rel.2 + (z as f32) * 16.0);
                let inside = dx * dx + dz * dz < fog * fog && dy < fog;
                assert_eq!(
                    get_bit(&cube, section_index(x, y, z)),
                    inside,
                    "({}, {}, {})",
                    x,
                    y,
                    z
                );
            }
        }
    }
}

/// The per-frame context: camera split, area, start tile and step counts.
#[test]
fn context_derivation() {
    let g = Graph::new(2, -4, 19);
    let cs = &g.coord_space;

    // camera inside the world at block (100, 50, 200): local Z wraps mod 256
    let ctx = GraphSearchContext::new(
        cs,
        (100, 50, 300),
        (230, 244, 174),
        (-30, -16, -86),
        true,
    );
    assert_eq!(ctx.camera_pos_int, (100, 114, 44));
    assert_eq!(ctx.camera_area, CameraArea::Inside);
    assert_eq!(ctx.iter_start_tile_coords, LocalTileCoords::from_xyz(0, 0, 0));
    assert_eq!(ctx.camera_section_in_tile, (6, 7, 2));
    assert_eq!(ctx.global_section_offset, (0, -4, 16));
    // positive X reach to block 230 is tile 1; negative X reach to block
    // -30 crosses into the wrapped tile one step over
    assert_eq!(ctx.direction_step_counts.get_dir(3), 1);
    assert_eq!(ctx.direction_step_counts.get_dir(0), 1);
    // positive Y reach to block 244 is tile 1; negative reach clamps to 0
    assert_eq!(ctx.direction_step_counts.get_dir(4), 1);
    assert_eq!(ctx.direction_step_counts.get_dir(1), 0);

    // a camera above the world starts one row past the top and must step down
    let above = GraphSearchContext::new(cs, (0, 1000, 0), (50, 1050, 50), (-50, 950, -50), true);
    assert_eq!(above.camera_area, CameraArea::Above);
    assert_eq!(above.iter_start_tile_coords.y, 3);
    assert!(above.direction_step_counts.get_dir(1) >= 1);
    assert_eq!(above.direction_step_counts.get_dir(4), 0);

    // and one below starts one row under the bottom and must step up
    let below = GraphSearchContext::new(cs, (0, -500, 0), (50, 0, 50), (-50, -550, -50), true);
    assert_eq!(below.camera_area, CameraArea::Below);
    assert_eq!(below.iter_start_tile_coords.y, -1);
    assert!(below.direction_step_counts.get_dir(4) >= 1);
    assert_eq!(below.direction_step_counts.get_dir(1), 0);
}

/// Storing one section's visibility word flips exactly the fifteen pair bits
/// of that section.
#[test]
fn set_section_places_pair_bits() {
    let mut g = Graph::new(2, -4, 19);
    // a word with only the bit of the pair (-Y, -X) set: host ordinals 0 and
    // 4, so bit 4
    g.set_section(3, 1, 2, 1u64 << 4);
    let tiles = &g.tiles;
    // section (3, 1, 2) with world bottom -4 sits in tile (0, 0, 0) at local
    // section (3, 5, 2)
    let si = section_index(3, 5, 2);
    let t = &tiles[0];
    assert!(get_bit(&t.connection_section_sets[0], si));
    for p in 1..15 {
        assert!(!get_bit(&t.connection_section_sets[p], si));
    }
    // overwriting with an empty word clears the pair again
    g.set_section(3, 1, 2, 0);
    assert!(!get_bit(&g.tiles[0].connection_section_sets[0], si));
}

/// One step along a single direction moves exactly one coordinate by one.
#[test]
fn step_is_one_hop() {
    let c = LocalTileCoords::from_xyz(3, -2, 7);
    for (d, expect) in [
        (NEG_X, (2, -2, 7)),
        (NEG_Y, (3, -3, 7)),
        (NEG_Z, (3, -2, 6)),
        (POS_X, (4, -2, 7)),
        (POS_Y, (3, -1, 7)),
        (POS_Z, (3, -2, 8)),
    ] {
        let s = c.step(d);
        assert_eq!((s.x, s.y, s.z), expect);
    }
}

/// Carrying the negative X face to the positive face equals seven single
/// shifts, on a concrete cube.
#[test]
fn edge_transfer_is_seven_shifts() {
    let s = SectionSet {
        l0: 0x0123_4567_89AB_CDEF,
        l1: 0xFEDC_BA98_7654_3210,
        l2: 0x0F0F_0F0F_F0F0_F0F0,
        l3: 1,
        l4: !0,
        l5: 0x8000_0000_0000_0001,
        l6: 0xAAAA_5555_AAAA_5555,
        l7: 42,
    };
    let mut shifted = s;
    for _ in 0..7 {
        shifted = shift_pos_x(shifted);
    }
    assert_eq!(edge_neg_to_pos_x(s).to_words(), shifted.to_words());
}
