//! Randomized bound checks of the voxelizers: the fast masks built from
//! per-row integer extents must lie between slow per-section rasterizations
//! using the loosest and tightest allowed paddings.

use hypercull::masks::cylinder_sections;
use hypercull::masks::rasterize_row;
use hypercull::masks::voxelize_plane_rows;
use hypercull::sections::get_bit;
use hypercull::sections::section_index;
use hypercull::sections::SectionSet;
use rand::rngs::StdRng;
use rand::Rng;
use rand::SeedableRng;

pub const TESTS_RANDOM_SEED: u64 = 0x1c41cf821df0e3a9;

const EXTENSION_MIN: f32 = 1.0;
const EXTENSION: f32 = 1.125;
const EXTENSION_MAX: f32 = 1.25;

fn sections_empty() -> SectionSet {
    SectionSet { l0: 0, l1: 0, l2: 0, l3: 0, l4: 0, l5: 0, l6: 0, l7: 0 }
}

/// Per-section reference: keep a section when its extended box satisfies the
/// plane.
fn voxelize_plane_slow(relative_tile_pos: [f32; 3], plane: [f32; 4], ext: f32) -> SectionSet {
    let mut visible = sections_empty();
    for y in 0..8u8 {
        for z in 0..8u8 {
            for x in 0..8u8 {
                let pos = [
                    relative_tile_pos[0] + (x as f32) * 16.0,
                    relative_tile_pos[1] + (y as f32) * 16.0,
                    relative_tile_pos[2] + (z as f32) * 16.0,
                ];
                let pick = |a: f32, lo: f32| if a < 0.0 { lo - ext } else { lo + 16.0 + ext };
                let not_outside = plane[0] * pick(plane[0], pos[0])
                    + plane[1] * pick(plane[1], pos[1])
                    + plane[2] * pick(plane[2], pos[2])
                    >= -plane[3];
                hypercull::sections::modify_bit(
                    &mut visible,
                    section_index(x, y, z),
                    not_outside,
                );
            }
        }
    }
    visible
}

/// The host's intercept computation for one plane, as the shell performs it.
fn fast_plane(relative_tile_pos: [f32; 3], plane: [f32; 4]) -> SectionSet {
    let pick = |a: f32| if a.is_sign_negative() { -EXTENSION } else { 16.0 + EXTENSION };
    let origin = [
        relative_tile_pos[0] + pick(plane[0]),
        relative_tile_pos[1] + pick(plane[1]),
        relative_tile_pos[2] + pick(plane[2]),
    ];
    let mut intercepts = [0i8; 64];
    for y in 0..8 {
        for z in 0..8 {
            let t = (plane[1] * (origin[1] + (y as f32) * 16.0)
                + plane[2] * (origin[2] + (z as f32) * 16.0)
                + plane[0] * origin[0]
                + plane[3])
                / (plane[0] * -16.0);
            intercepts[y * 8 + z] = if t >= 7.0 {
                7
            } else if t < 0.0 {
                -1
            } else {
                t as i8
            };
        }
    }
    voxelize_plane_rows(&intercepts, plane[0].is_sign_positive())
}

fn assert_between(min: &SectionSet, max: &SectionSet, test: &SectionSet, what: &str) {
    for i in 0..512u16 {
        let t = get_bit(test, i);
        if get_bit(min, i) {
            assert!(t, "{what}: below minimum at bit {i}");
        }
        if !get_bit(max, i) {
            assert!(!t, "{what}: outside maximum at bit {i}");
        }
    }
}

#[test]
fn plane_voxelization_bounds() {
    const ITERATIONS: u32 = 3000;
    let mut rand = StdRng::seed_from_u64(TESTS_RANDOM_SEED);

    for _ in 0..ITERATIONS {
        // a random unit normal and offset
        let theta = rand.random_range(0.0..std::f32::consts::TAU);
        let zc: f32 = rand.random_range(-1.0..1.0);
        let w: f32 = rand.random_range(-10.0..1000.0);
        let m = (1.0 - zc * zc).sqrt();
        let plane = [m * theta.cos(), m * theta.sin(), zc, w];

        let relative_tile_pos = [
            rand.random_range(-3000.0f32..3000.0),
            rand.random_range(-3000.0f32..3000.0),
            rand.random_range(-3000.0f32..3000.0),
        ];

        let slow_min = voxelize_plane_slow(relative_tile_pos, plane, EXTENSION_MIN);
        let slow_max = voxelize_plane_slow(relative_tile_pos, plane, EXTENSION_MAX);
        let fast = fast_plane(relative_tile_pos, plane);
        assert_between(&slow_min, &slow_max, &fast, "plane");
    }
}

/// Per-section reference for the fog cylinder.
fn voxelize_cylinder_slow(relative_tile_pos: [f32; 3], fog: f32, ext: f32) -> SectionSet {
    let mut visible = sections_empty();
    for y in 0..8u8 {
        for z in 0..8u8 {
            for x in 0..8u8 {
                let close = |lo: f32| -> f32 {
                    let a = lo - ext;
                    let b = lo + 16.0 + ext;
                    if a > 0.0 {
                        a
                    } else if b < 0.0 {
                        b
                    } else {
                        0.0
                    }
                };
                let dx = close(relative_tile_pos[0] + (x as f32) * 16.0);
                let dy = close(relative_tile_pos[1] + (y as f32) * 16.0);
                let dz = close(relative_tile_pos[2] + (z as f32) * 16.0);
                let inside = dx * dx + dz * dz < fog * fog && dy.abs() < fog;
                hypercull::sections::modify_bit(&mut visible, section_index(x, y, z), inside);
            }
        }
    }
    visible
}

/// The host's row-extent computation for the fog cylinder.
fn fast_cylinder(relative_tile_pos: [f32; 3], fog: f32) -> SectionSet {
    let ext = EXTENSION;
    let ext_scaled = ext / 16.0;
    let mut row_masks = [0u8; 8];
    for z in 0..8 {
        let z0 = relative_tile_pos[2] + (z as f32) * 16.0 - ext;
        let z1 = z0 + 16.0 + 2.0 * ext;
        let dz = if z0 > 0.0 {
            z0
        } else if z1 < 0.0 {
            z1
        } else {
            0.0
        };
        let c_squared = fog * fog - dz * dz;
        if c_squared <= 0.0 {
            row_masks[z] = 0;
            continue;
        }
        let c = c_squared.sqrt();
        let upper = (c - relative_tile_pos[0]) / 16.0 + ext_scaled;
        let lower = -(c + relative_tile_pos[0]) / 16.0 - 1.0 - ext_scaled;
        row_masks[z] = rasterize_row(
            lower.ceil().clamp(0.0, 8.0) as u8,
            (upper.floor() + 1.0).clamp(0.0, 9.0) as u8,
        );
    }
    let y_lower = ((-fog - relative_tile_pos[1]) / 16.0 - ext_scaled).floor().clamp(0.0, 8.0) as u8;
    let y_upper = ((fog - relative_tile_pos[1]) / 16.0 + ext_scaled).ceil().clamp(0.0, 8.0) as u8;
    let y_mask = rasterize_row(y_lower, y_upper.max(y_lower));
    cylinder_sections(&row_masks, y_mask)
}

#[test]
fn fog_voxelization_bounds() {
    const ITERATIONS: u32 = 3000;
    let mut rand = StdRng::seed_from_u64(TESTS_RANDOM_SEED);

    for _ in 0..ITERATIONS {
        let relative_tile_pos = [
            rand.random_range(-3000.0f32..3000.0),
            rand.random_range(-3000.0f32..3000.0),
            rand.random_range(-3000.0f32..3000.0),
        ];
        let fog = rand.random_range(0.0f32..900.0);

        let slow_min = voxelize_cylinder_slow(relative_tile_pos, fog, EXTENSION_MIN);
        let slow_max = voxelize_cylinder_slow(relative_tile_pos, fog, EXTENSION_MAX);
        let fast = fast_cylinder(relative_tile_pos, fog);
        assert_between(&slow_min, &slow_max, &fast, "fog");
    }
}
