//! Randomized and exhaustive checks of the section-cube primitives and the
//! tile index packing, mirrored against slow per-section reference loops.

use std::collections::HashMap;

use hypercull::coords::GraphCoordSpace;
use hypercull::coords::LocalTileCoords;
use hypercull::coords::LocalTileIndex;
use hypercull::direction::take_one;
use hypercull::direction::to_index;
use hypercull::direction::ALL_DIRECTIONS;
use hypercull::sections::edge_neg_to_pos_x;
use hypercull::sections::edge_neg_to_pos_y;
use hypercull::sections::edge_neg_to_pos_z;
use hypercull::sections::edge_pos_to_neg_x;
use hypercull::sections::edge_pos_to_neg_y;
use hypercull::sections::edge_pos_to_neg_z;
use hypercull::sections::get_bit;
use hypercull::sections::modify_bit;
use hypercull::sections::section_index;
use hypercull::sections::shift_neg_x;
use hypercull::sections::shift_neg_y;
use hypercull::sections::shift_neg_z;
use hypercull::sections::shift_pos_x;
use hypercull::sections::shift_pos_y;
use hypercull::sections::shift_pos_z;
use hypercull::sections::SectionSet;
use hypercull::tile::gen_outward_direction_masks;
use rand::rngs::StdRng;
use rand::RngCore;
use rand::SeedableRng;

pub const TESTS_RANDOM_SEED: u64 = 0x1c41cf821df0e3a9;

fn sections_empty() -> SectionSet {
    SectionSet { l0: 0, l1: 0, l2: 0, l3: 0, l4: 0, l5: 0, l6: 0, l7: 0 }
}

fn sections_from_bytes(bytes: &[u8; 64]) -> SectionSet {
    let lane = |i: usize| -> u64 {
        let mut w = [0u8; 8];
        w.copy_from_slice(&bytes[i * 8..i * 8 + 8]);
        u64::from_le_bytes(w)
    };
    SectionSet {
        l0: lane(0),
        l1: lane(1),
        l2: lane(2),
        l3: lane(3),
        l4: lane(4),
        l5: lane(5),
        l6: lane(6),
        l7: lane(7),
    }
}

fn words(s: &SectionSet) -> [u64; 8] {
    s.to_words()
}

#[test]
fn pack_index_test() {
    let storage_distance = 20;
    let y_length_sections = 24_u16;
    let xz_length_sections = (storage_distance as u16 * 2) + 1;

    let y_length_tiles = (y_length_sections.next_multiple_of(8) >> 3).max(2);
    let xz_length_tiles = (xz_length_sections.next_multiple_of(8) >> 3).max(2);

    let graph_total_tiles = y_length_tiles as u32 * (xz_length_tiles as u32).pow(2);

    let coord_space = GraphCoordSpace::new(y_length_tiles as u8, xz_length_tiles as u8, -4, 19);
    let mut index_coords_map = HashMap::<LocalTileIndex, LocalTileCoords>::new();

    for y in 0..y_length_tiles {
        for z in 0..xz_length_tiles {
            for x in 0..xz_length_tiles {
                let coords = LocalTileCoords::from_xyz(x as i8, y as i8, z as i8);
                let index = coord_space.pack_index(coords);

                assert!(
                    (index.0 as u32) < graph_total_tiles,
                    "Index too large. Index: {:#018b}, Max: {:#018b}",
                    index.0,
                    graph_total_tiles
                );

                let entry = index_coords_map.get(&index);
                if let Some(&existing_coords) = entry {
                    panic!(
                        "Duplicate Tile Index Found: {:?}\nCoords: {:?} and {:?}",
                        index.0, existing_coords, coords
                    );
                } else {
                    index_coords_map.insert(index, coords);
                }
            }
        }
    }

    // test a stray out of bounds index to see if it's handled
    {
        let coords = LocalTileCoords::from_xyz(-1, 0, -1);
        let index = coord_space.pack_index(coords);
        assert!(
            (index.0 as u32) < graph_total_tiles,
            "Index too large. Index: {:#018b}, Max: {:#018b}",
            index.0,
            graph_total_tiles
        );
    }

    // test wrapping on edges
}

#[test]
fn step_test() {
    let coords = LocalTileCoords::from_xyz(10, 15, 31);

    let mut direction_set = ALL_DIRECTIONS;
    while direction_set != 0 {
        let direction = take_one(&mut direction_set);
        let stepped = coords.step(direction);
        println!("{} {stepped:?}", to_index(direction));
    }
}

#[test]
fn edge_move_test() {
    const ITERATIONS: u32 = 10000;
    let mut rand = StdRng::seed_from_u64(TESTS_RANDOM_SEED);

    for _ in 0..ITERATIONS {
        let mut bytes = [0u8; 64];
        rand.fill_bytes(&mut bytes);
        let src = sections_from_bytes(&bytes);

        {
            let mut dst_sane_neg_to_pos_x = sections_empty();

            for z in 0..8 {
                for y in 0..8 {
                    modify_bit(
                        &mut dst_sane_neg_to_pos_x,
                        section_index(7, y, z),
                        get_bit(&src, section_index(0, y, z)),
                    );
                }
            }

            let dst_test_neg_to_pos_x = edge_neg_to_pos_x(src);

            assert_eq!(words(&dst_sane_neg_to_pos_x), words(&dst_test_neg_to_pos_x));
        }

        {
            let mut dst_sane_pos_to_neg_x = sections_empty();

            for z in 0..8 {
                for y in 0..8 {
                    modify_bit(
                        &mut dst_sane_pos_to_neg_x,
                        section_index(0, y, z),
                        get_bit(&src, section_index(7, y, z)),
                    );
                }
            }

            let dst_test_pos_to_neg_x = edge_pos_to_neg_x(src);

            assert_eq!(words(&dst_sane_pos_to_neg_x), words(&dst_test_pos_to_neg_x));
        }

        {
            let mut dst_sane_neg_to_pos_y = sections_empty();

            for z in 0..8 {
                for x in 0..8 {
                    modify_bit(
                        &mut dst_sane_neg_to_pos_y,
                        section_index(x, 7, z),
                        get_bit(&src, section_index(x, 0, z)),
                    );
                }
            }

            let dst_test_neg_to_pos_y = edge_neg_to_pos_y(src);

            assert_eq!(words(&dst_sane_neg_to_pos_y), words(&dst_test_neg_to_pos_y));
        }

        {
            let mut dst_sane_pos_to_neg_y = sections_empty();

            for z in 0..8 {
                for x in 0..8 {
                    modify_bit(
                        &mut dst_sane_pos_to_neg_y,
                        section_index(x, 0, z),
                        get_bit(&src, section_index(x, 7, z)),
                    );
                }
            }

            let dst_test_pos_to_neg_y = edge_pos_to_neg_y(src);

            assert_eq!(words(&dst_sane_pos_to_neg_y), words(&dst_test_pos_to_neg_y));
        }

        {
            let mut dst_sane_neg_to_pos_z = sections_empty();

            for y in 0..8 {
                for x in 0..8 {
                    modify_bit(
                        &mut dst_sane_neg_to_pos_z,
                        section_index(x, y, 7),
                        get_bit(&src, section_index(x, y, 0)),
                    );
                }
            }

            let dst_test_neg_to_pos_z = edge_neg_to_pos_z(src);

            assert_eq!(words(&dst_sane_neg_to_pos_z), words(&dst_test_neg_to_pos_z));
        }

        {
            let mut dst_sane_pos_to_neg_z = sections_empty();

            for y in 0..8 {
                for x in 0..8 {
                    modify_bit(
                        &mut dst_sane_pos_to_neg_z,
                        section_index(x, y, 0),
                        get_bit(&src, section_index(x, y, 7)),
                    );
                }
            }

            let dst_test_pos_to_neg_z = edge_pos_to_neg_z(src);

            assert_eq!(words(&dst_sane_pos_to_neg_z), words(&dst_test_pos_to_neg_z));
        }
    }
}

#[test]
fn shifts_test() {
    const ITERATIONS: u32 = 10000;
    let mut rand = StdRng::seed_from_u64(TESTS_RANDOM_SEED);

    for _ in 0..ITERATIONS {
        let mut bytes = [0u8; 64];
        rand.fill_bytes(&mut bytes);
        let src = sections_from_bytes(&bytes);

        {
            let mut dst_sane_neg_x = sections_empty();
            for z in 0..8 {
                for y in 0..8 {
                    for x in 1..8 {
                        modify_bit(
                            &mut dst_sane_neg_x,
                            section_index(x - 1, y, z),
                            get_bit(&src, section_index(x, y, z)),
                        );
                    }
                }
            }

            let dst_test_neg_x = shift_neg_x(src);

            assert_eq!(words(&dst_sane_neg_x), words(&dst_test_neg_x));
        }

        {
            let mut dst_sane_pos_x = sections_empty();
            for z in 0..8 {
                for y in 0..8 {
                    for x in 0..7 {
                        modify_bit(
                            &mut dst_sane_pos_x,
                            section_index(x + 1, y, z),
                            get_bit(&src, section_index(x, y, z)),
                        );
                    }
                }
            }

            let dst_test_pos_x = shift_pos_x(src);

            assert_eq!(words(&dst_sane_pos_x), words(&dst_test_pos_x));
        }

        {
            let mut dst_sane_neg_y = sections_empty();
            for z in 0..8 {
                for y in 1..8 {
                    for x in 0..8 {
                        modify_bit(
                            &mut dst_sane_neg_y,
                            section_index(x, y - 1, z),
                            get_bit(&src, section_index(x, y, z)),
                        );
                    }
                }
            }

            let dst_test_neg_y = shift_neg_y(src);

            assert_eq!(words(&dst_sane_neg_y), words(&dst_test_neg_y));
        }

        {
            let mut dst_sane_pos_y = sections_empty();
            for z in 0..8 {
                for y in 0..7 {
                    for x in 0..8 {
                        modify_bit(
                            &mut dst_sane_pos_y,
                            section_index(x, y + 1, z),
                            get_bit(&src, section_index(x, y, z)),
                        );
                    }
                }
            }

            let dst_test_pos_y = shift_pos_y(src);

            assert_eq!(words(&dst_sane_pos_y), words(&dst_test_pos_y));
        }

        {
            let mut dst_sane_neg_z = sections_empty();
            for z in 1..8 {
                for y in 0..8 {
                    for x in 0..8 {
                        modify_bit(
                            &mut dst_sane_neg_z,
                            section_index(x, y, z - 1),
                            get_bit(&src, section_index(x, y, z)),
                        );
                    }
                }
            }

            let dst_test_neg_z = shift_neg_z(src);

            assert_eq!(words(&dst_sane_neg_z), words(&dst_test_neg_z));
        }

        {
            let mut dst_sane_pos_z = sections_empty();
            for z in 0..7 {
                for y in 0..8 {
                    for x in 0..8 {
                        modify_bit(
                            &mut dst_sane_pos_z,
                            section_index(x, y, z + 1),
                            get_bit(&src, section_index(x, y, z)),
                        );
                    }
                }
            }

            let dst_test_pos_z = shift_pos_z(src);

            assert_eq!(words(&dst_sane_pos_z), words(&dst_test_pos_z));
        }
    }
}

#[test]
fn outward_direction_mask_test() {
    for camera_x in 0..8u8 {
        for camera_y in 0..8u8 {
            for camera_z in 0..8u8 {
                let camera_section_in_tile = (camera_x, camera_y, camera_z);

                let mut sane_camera_direction_masks = [sections_empty(); 6];

                for tile_x in 0..8u8 {
                    for tile_y in 0..8u8 {
                        for tile_z in 0..8u8 {
                            let negative = ((tile_x <= camera_x) as u8)
                                | (((tile_y <= camera_y) as u8) << 1)
                                | (((tile_z <= camera_z) as u8) << 2);
                            let positive = ((tile_x >= camera_x) as u8)
                                | (((tile_y >= camera_y) as u8) << 1)
                                | (((tile_z >= camera_z) as u8) << 2);
                            let traversal_directions = negative | (positive << 3);

                            let si = section_index(tile_x, tile_y, tile_z);
                            for dir_idx in 0..6 {
                                modify_bit(
                                    &mut sane_camera_direction_masks[dir_idx as usize],
                                    si,
                                    (traversal_directions >> dir_idx) & 1 == 1,
                                );
                            }
                        }
                    }
                }

                let test_camera_direction_masks =
                    gen_outward_direction_masks(camera_section_in_tile);

                let mut directions = ALL_DIRECTIONS;
                while directions != 0 {
                    let direction = take_one(&mut directions);
                    let dir_idx = to_index(direction);
                    assert_eq!(
                        words(&sane_camera_direction_masks[dir_idx]),
                        words(&test_camera_direction_masks.get_dir(dir_idx)),
                        "sane != test, Camera Coords: {:?}, Direction: {}",
                        camera_section_in_tile,
                        direction
                    );
                }
            }
        }
    }
}
