//! Mask builders for the per-tile culling stages.
//!
//! Three groups live here: the expansion of compressed 8-byte masks into full
//! section cubes (used by the per-axis angle visibility masks), the
//! world-height masks of the topmost tile row, and the row-mask builders that
//! turn per-row integer extents into section cubes for the frustum-plane and
//! fog-cylinder voxelizers. The geometric computation that produces the
//! extents is floating-point work of the host; everything that touches the
//! 512-bit cubes is here.

use vstd::prelude::*;

use crate::sections::byte_bit;
use crate::sections::lane_bit;
use crate::sections::SectionSet;

verus! {

/// Bits of a packed 8-byte lane follow the bytes that built it.
pub proof fn lemma_pack_lane(b0: u8, b1: u8, b2: u8, b3: u8, b4: u8, b5: u8, b6: u8, b7: u8)
    by (bit_vector)
    ensures
        forall|n: u64|
            n < 64 ==> #[trigger] lane_bit(
                (b0 as u64) | ((b1 as u64) << 8) | ((b2 as u64) << 16) | ((b3 as u64) << 24) | (
                (b4 as u64) << 32) | ((b5 as u64) << 40) | ((b6 as u64) << 48) | ((b7 as u64)
                    << 56),
                n,
            ) == byte_bit(
                if n < 8 {
                    b0
                } else if n < 16 {
                    b1
                } else if n < 24 {
                    b2
                } else if n < 32 {
                    b3
                } else if n < 40 {
                    b4
                } else if n < 48 {
                    b5
                } else if n < 56 {
                    b6
                } else {
                    b7
                },
                (n % 8) as u8,
            ),
{
}

/// Packs eight X-row bytes into one Y-layer lane; byte `z` becomes the X-row
/// at that Z.
pub fn pack_lane(rows: &[u8; 8]) -> (r: u64)
    ensures
        forall|x: u64, z: u64|
            x < 8 && z < 8 ==> #[trigger] lane_bit(r, (z * 8 + x) as u64) == byte_bit(
                rows@[z as int],
                x as u8,
            ),
{
    let r = (rows[0] as u64) | ((rows[1] as u64) << 8) | ((rows[2] as u64) << 16) | ((rows[3]
        as u64) << 24) | ((rows[4] as u64) << 32) | ((rows[5] as u64) << 40) | ((rows[6] as u64)
        << 48) | ((rows[7] as u64) << 56);
    proof {
        lemma_pack_lane(rows[0], rows[1], rows[2], rows[3], rows[4], rows[5], rows[6], rows[7]);
        assert forall|x: u64, z: u64| x < 8 && z < 8 implies #[trigger] lane_bit(
            r,
            (z * 8 + x) as u64,
        ) == byte_bit(rows@[z as int], x as u8) by {
            let n = (z * 8 + x) as u64;
            assert(n < 64 && n % 8 == x && n / 8 == z) by (nonlinear_arith)
                requires
                    x < 8 && z < 8 && n == z * 8 + x,
            ;
        }
    }
    r
}

/// The contiguous byte masks used by every rasterized row: bits at or below a
/// position, bits at or above one, bits strictly below a count, and the
/// byte-wise complement.
pub proof fn lemma_byte_masks(k: u8, b: u8)
    by (bit_vector)
    ensures
        k < 7 ==> forall|x: u8|
            x < 8 ==> #[trigger] byte_bit(((0b10u8 << k) - 1) as u8, x) == (x <= k),
        k < 8 ==> forall|x: u8| x < 8 ==> #[trigger] byte_bit(0xFFu8 << k, x) == (k <= x),
        k < 8 ==> forall|x: u8| x < 8 ==> #[trigger] byte_bit(((1u8 << k) - 1) as u8, x) == (x < k),
        forall|x: u8| x < 8 ==> #[trigger] byte_bit(b ^ 0xFF, x) == !byte_bit(b, x),
        forall|x: u8| x < 8 ==> #[trigger] byte_bit(0xFFu8, x),
        forall|x: u8| x < 8 ==> !(#[trigger] byte_bit(0u8, x)),
        k < 8 ==> (1u8 << k) >= 1,
        k < 7 ==> (0b10u8 << k) >= 1,
{
}

/// AND of two bytes acts bit-by-bit.
pub proof fn lemma_byte_and(a: u8, b: u8)
    by (bit_vector)
    ensures
        forall|x: u8| x < 8 ==> #[trigger] byte_bit(a & b, x) == (byte_bit(a, x) && byte_bit(b, x)),
{
}

/// The byte whose set bits are the positions at or below `k`.
pub fn mask_through(k: u8) -> (r: u8)
    requires
        k < 8,
    ensures
        forall|x: u8| x < 8 ==> #[trigger] byte_bit(r, x) == (x <= k),
{
    proof {
        lemma_byte_masks(k, 0);
    }
    if k >= 7 {
        0xFF
    } else {
        (0b10u8 << k) - 1
    }
}

/// The byte whose set bits are the positions at or above `k`.
pub fn mask_from(k: u8) -> (r: u8)
    requires
        k < 8,
    ensures
        forall|x: u8| x < 8 ==> #[trigger] byte_bit(r, x) == (k <= x),
{
    proof {
        lemma_byte_masks(k, 0);
    }
    0xFF << k
}

/// The byte whose set bits are the positions strictly below `k`.
pub fn mask_below(k: u8) -> (r: u8)
    requires
        k <= 8,
    ensures
        forall|x: u8| x < 8 ==> #[trigger] byte_bit(r, x) == (x < k),
{
    proof {
        lemma_byte_masks(k, 0);
    }
    if k >= 8 {
        0xFF
    } else {
        (1u8 << k) - 1
    }
}

/// One voxelized row: the sections whose X position lies in
/// `[lower_shift, upper_shift)`.
pub fn rasterize_row(lower_shift: u8, upper_shift: u8) -> (r: u8)
    requires
        lower_shift <= 8,
        upper_shift <= 9,
    ensures
        forall|x: u8|
            x < 8 ==> #[trigger] byte_bit(r, x) == (lower_shift <= x && x < upper_shift),
{
    let lower = if lower_shift >= 8 {
        0u8
    } else {
        mask_from(lower_shift)
    };
    let upper = if upper_shift >= 8 {
        0xFFu8
    } else {
        mask_below(upper_shift)
    };
    proof {
        lemma_byte_and(lower, upper);
        lemma_byte_masks(0, 0);
    }
    lower & upper
}

/// Spreads a compressed mask along Z: byte `(y, z)` of the cube is byte `y`
/// of the input, so a section is kept when bit X of row `y` is set.
pub fn expand_xy_mask(compressed: &[u8; 8]) -> (r: SectionSet)
    ensures
        forall|x: u64, y: u64, z: u64|
            x < 8 && y < 8 && z < 8 ==> #[trigger] r.bit(x, y, z) == byte_bit(
                compressed@[y as int],
                x as u8,
            ),
{
    let r = SectionSet {
        l0: splat_byte(compressed[0]),
        l1: splat_byte(compressed[1]),
        l2: splat_byte(compressed[2]),
        l3: splat_byte(compressed[3]),
        l4: splat_byte(compressed[4]),
        l5: splat_byte(compressed[5]),
        l6: splat_byte(compressed[6]),
        l7: splat_byte(compressed[7]),
    };
    r
}

/// Spreads a compressed mask along Y: byte `(y, z)` of the cube is byte `z`
/// of the input, so a section is kept when bit X of row `z` is set.
pub fn expand_xz_mask(compressed: &[u8; 8]) -> (r: SectionSet)
    ensures
        forall|x: u64, y: u64, z: u64|
            x < 8 && y < 8 && z < 8 ==> #[trigger] r.bit(x, y, z) == byte_bit(
                compressed@[z as int],
                x as u8,
            ),
{
    let lane = pack_lane(compressed);
    let r = SectionSet {
        l0: lane,
        l1: lane,
        l2: lane,
        l3: lane,
        l4: lane,
        l5: lane,
        l6: lane,
        l7: lane,
    };
    r
}

/// Spreads a compressed mask whose bits index Z-rows: a section is kept when
/// bit Z of row `y` is set, whatever its X.
pub fn expand_zy_mask(compressed: &[u8; 8]) -> (r: SectionSet)
    ensures
        forall|x: u64, y: u64, z: u64|
            x < 8 && y < 8 && z < 8 ==> #[trigger] r.bit(x, y, z) == byte_bit(
                compressed@[y as int],
                z as u8,
            ),
{
    let r = SectionSet {
        l0: bits_to_rows(compressed[0]),
        l1: bits_to_rows(compressed[1]),
        l2: bits_to_rows(compressed[2]),
        l3: bits_to_rows(compressed[3]),
        l4: bits_to_rows(compressed[4]),
        l5: bits_to_rows(compressed[5]),
        l6: bits_to_rows(compressed[6]),
        l7: bits_to_rows(compressed[7]),
    };
    r
}

/// All eight X-rows of a lane set to the same byte.
pub fn splat_byte(c: u8) -> (r: u64)
    ensures
        forall|x: u64, z: u64|
            x < 8 && z < 8 ==> #[trigger] lane_bit(r, (z * 8 + x) as u64) == byte_bit(c, x as u8),
{
    let rows = [c, c, c, c, c, c, c, c];
    pack_lane(&rows)
}

/// Turns bit `z` of a byte into the full X-row at that Z of a lane.
pub fn bits_to_rows(c: u8) -> (r: u64)
    ensures
        forall|x: u64, z: u64|
            x < 8 && z < 8 ==> #[trigger] lane_bit(r, (z * 8 + x) as u64) == byte_bit(c, z as u8),
{
    proof {
        lemma_byte_masks(0, c);
    }
    let r0: u8 = if (c >> 0) & 1 == 1 {
        0xFF
    } else {
        0
    };
    let r1: u8 = if (c >> 1) & 1 == 1 {
        0xFF
    } else {
        0
    };
    let r2: u8 = if (c >> 2) & 1 == 1 {
        0xFF
    } else {
        0
    };
    let r3: u8 = if (c >> 3) & 1 == 1 {
        0xFF
    } else {
        0
    };
    let r4: u8 = if (c >> 4) & 1 == 1 {
        0xFF
    } else {
        0
    };
    let r5: u8 = if (c >> 5) & 1 == 1 {
        0xFF
    } else {
        0
    };
    let r6: u8 = if (c >> 6) & 1 == 1 {
        0xFF
    } else {
        0
    };
    let r7: u8 = if (c >> 7) & 1 == 1 {
        0xFF
    } else {
        0
    };
    let rows = [r0, r1, r2, r3, r4, r5, r6, r7];
    pack_lane(&rows)
}

/// Where the top tile row starts being outside the world: one below the last
/// valid Y-layer, or the very top layer when the world boundary is
/// tile-aligned.
pub open spec fn oob_above_start(section_height_in_top_tile: u16) -> u16 {
    if section_height_in_top_tile == 0 {
        7
    } else {
        (section_height_in_top_tile - 1) as u16
    }
}

/// The sections of a top-row tile that lie inside the world: the Y-layers
/// below the world's remaining section height.
pub fn gen_top_tile_visibility_mask(section_height_in_top_tile: u16) -> (r: SectionSet)
    requires
        0 < section_height_in_top_tile < 8,
    ensures
        forall|x: u64, y: u64, z: u64|
            x < 8 && y < 8 && z < 8 ==> #[trigger] r.bit(x, y, z) == (y
                < section_height_in_top_tile),
{
    proof {
        crate::sections::lemma_lane_extremes();
    }
    let h = section_height_in_top_tile;
    let r = SectionSet {
        l0: 0xFFFF_FFFF_FFFF_FFFF,
        l1: if h > 1 {
            0xFFFF_FFFF_FFFF_FFFF
        } else {
            0
        },
        l2: if h > 2 {
            0xFFFF_FFFF_FFFF_FFFF
        } else {
            0
        },
        l3: if h > 3 {
            0xFFFF_FFFF_FFFF_FFFF
        } else {
            0
        },
        l4: if h > 4 {
            0xFFFF_FFFF_FFFF_FFFF
        } else {
            0
        },
        l5: if h > 5 {
            0xFFFF_FFFF_FFFF_FFFF
        } else {
            0
        },
        l6: if h > 6 {
            0xFFFF_FFFF_FFFF_FFFF
        } else {
            0
        },
        l7: 0,
    };
    proof {
        assert forall|x: u64, y: u64, z: u64| x < 8 && y < 8 && z < 8 implies #[trigger] r.bit(
            x,
            y,
            z,
        ) == (y < section_height_in_top_tile) by {
            assert(z * 8 + x < 64);
        }
    }
    r
}

/// The sections of a top-row tile through which traversal enters from above
/// the world: the Y-layers from just below the world top upward.
pub fn gen_oob_above_incoming_sections(section_height_in_top_tile: u16) -> (r: SectionSet)
    requires
        section_height_in_top_tile < 8,
    ensures
        forall|x: u64, y: u64, z: u64|
            x < 8 && y < 8 && z < 8 ==> #[trigger] r.bit(x, y, z) == (y >= oob_above_start(
                section_height_in_top_tile,
            )),
{
    proof {
        crate::sections::lemma_lane_extremes();
    }
    let start: u16 = if section_height_in_top_tile == 0 {
        7
    } else {
        section_height_in_top_tile - 1
    };
    let r = SectionSet {
        l0: if start == 0 {
            0xFFFF_FFFF_FFFF_FFFF
        } else {
            0
        },
        l1: if start <= 1 {
            0xFFFF_FFFF_FFFF_FFFF
        } else {
            0
        },
        l2: if start <= 2 {
            0xFFFF_FFFF_FFFF_FFFF
        } else {
            0
        },
        l3: if start <= 3 {
            0xFFFF_FFFF_FFFF_FFFF
        } else {
            0
        },
        l4: if start <= 4 {
            0xFFFF_FFFF_FFFF_FFFF
        } else {
            0
        },
        l5: if start <= 5 {
            0xFFFF_FFFF_FFFF_FFFF
        } else {
            0
        },
        l6: if start <= 6 {
            0xFFFF_FFFF_FFFF_FFFF
        } else {
            0
        },
        l7: 0xFFFF_FFFF_FFFF_FFFF,
    };
    proof {
        assert forall|x: u64, y: u64, z: u64| x < 8 && y < 8 && z < 8 implies #[trigger] r.bit(
            x,
            y,
            z,
        ) == (y >= oob_above_start(section_height_in_top_tile)) by {
            assert(z * 8 + x < 64);
        }
    }
    r
}

/// The sections of a bottom-row tile through which traversal enters from
/// below the world: the whole Y = 0 layer.
/// The below-world entry mask at the specification level: the whole Y = 0
/// layer.
pub open spec fn oob_below_spec() -> SectionSet {
    SectionSet { l0: 0xFFFF_FFFF_FFFF_FFFF, l1: 0, l2: 0, l3: 0, l4: 0, l5: 0, l6: 0, l7: 0 }
}

pub fn oob_below_incoming_sections() -> (r: SectionSet)
    ensures
        r == oob_below_spec(),
        forall|x: u64, y: u64, z: u64|
            x < 8 && y < 8 && z < 8 ==> #[trigger] r.bit(x, y, z) == (y == 0),
{
    proof {
        crate::sections::lemma_lane_extremes();
    }
    let r = SectionSet {
        l0: 0xFFFF_FFFF_FFFF_FFFF,
        l1: 0,
        l2: 0,
        l3: 0,
        l4: 0,
        l5: 0,
        l6: 0,
        l7: 0,
    };
    proof {
        assert forall|x: u64, y: u64, z: u64| x < 8 && y < 8 && z < 8 implies #[trigger] r.bit(
            x,
            y,
            z,
        ) == (y == 0) by {
            assert(z * 8 + x < 64);
        }
    }
    r
}

/// Voxelizes one frustum plane from its per-row X intercepts, one intercept
/// per `(y, z)` row in `y * 8 + z` order. A section stays when its X position
/// is at or below the row's intercept; `invert` flips the kept side for
/// planes that face the other way along X. Intercepts below zero keep
/// nothing, intercepts at or above seven keep the whole row.
pub fn voxelize_plane_rows(intercepts: &[i8; 64], invert: bool) -> (r: SectionSet)
    ensures
        forall|x: u64, y: u64, z: u64|
            x < 8 && y < 8 && z < 8 ==> #[trigger] r.bit(x, y, z) == (invert != (x as int
                <= intercepts@[y as int * 8 + z as int])),
{
    let l0 = plane_row_lane(intercepts, 0, invert);
    let l1 = plane_row_lane(intercepts, 1, invert);
    let l2 = plane_row_lane(intercepts, 2, invert);
    let l3 = plane_row_lane(intercepts, 3, invert);
    let l4 = plane_row_lane(intercepts, 4, invert);
    let l5 = plane_row_lane(intercepts, 5, invert);
    let l6 = plane_row_lane(intercepts, 6, invert);
    let l7 = plane_row_lane(intercepts, 7, invert);
    let r = SectionSet { l0, l1, l2, l3, l4, l5, l6, l7 };
    r
}

/// One Y-layer of a voxelized plane, from the eight intercepts of its Z-rows.
fn plane_row_lane(intercepts: &[i8; 64], y: usize, invert: bool) -> (r: u64)
    requires
        y < 8,
    ensures
        forall|x: u64, z: u64|
            x < 8 && z < 8 ==> #[trigger] lane_bit(r, (z * 8 + x) as u64) == (invert != (x as int
                <= intercepts@[y * 8 + z as int])),
{
    let r0 = plane_row_mask(intercepts[y * 8 + 0], invert);
    let r1 = plane_row_mask(intercepts[y * 8 + 1], invert);
    let r2 = plane_row_mask(intercepts[y * 8 + 2], invert);
    let r3 = plane_row_mask(intercepts[y * 8 + 3], invert);
    let r4 = plane_row_mask(intercepts[y * 8 + 4], invert);
    let r5 = plane_row_mask(intercepts[y * 8 + 5], invert);
    let r6 = plane_row_mask(intercepts[y * 8 + 6], invert);
    let r7 = plane_row_mask(intercepts[y * 8 + 7], invert);
    let rows = [r0, r1, r2, r3, r4, r5, r6, r7];
    pack_lane(&rows)
}

/// The X-row byte kept by one intercept.
fn plane_row_mask(intercept: i8, invert: bool) -> (r: u8)
    ensures
        forall|x: u8| x < 8 ==> #[trigger] byte_bit(r, x) == (invert != (x as int <= intercept)),
{
    proof {
        lemma_byte_masks(if 0 <= intercept < 8 {
            intercept as u8
        } else {
            0
        }, 0);
    }
    let base: u8 = if intercept < 0 {
        0
    } else if intercept >= 7 {
        0xFF
    } else {
        mask_through(intercept as u8)
    };
    proof {
        lemma_byte_masks(0, base);
    }
    if invert {
        base ^ 0xFF
    } else {
        base
    }
}

/// Voxelizes the fog cylinder from its per-Z-row X extents and its Y extent:
/// a section stays when bit X of its Z-row byte and bit Y of the Y-extent
/// byte are both set.
pub fn cylinder_sections(row_masks: &[u8; 8], y_mask: u8) -> (r: SectionSet)
    ensures
        forall|x: u64, y: u64, z: u64|
            x < 8 && y < 8 && z < 8 ==> #[trigger] r.bit(x, y, z) == (byte_bit(
                row_masks@[z as int],
                x as u8,
            ) && byte_bit(y_mask, y as u8)),
{
    proof {
        lemma_byte_masks(0, y_mask);
    }
    let zx = pack_lane(row_masks);
    let r = SectionSet {
        l0: if (y_mask >> 0) & 1 == 1 {
            zx
        } else {
            0
        },
        l1: if (y_mask >> 1) & 1 == 1 {
            zx
        } else {
            0
        },
        l2: if (y_mask >> 2) & 1 == 1 {
            zx
        } else {
            0
        },
        l3: if (y_mask >> 3) & 1 == 1 {
            zx
        } else {
            0
        },
        l4: if (y_mask >> 4) & 1 == 1 {
            zx
        } else {
            0
        },
        l5: if (y_mask >> 5) & 1 == 1 {
            zx
        } else {
            0
        },
        l6: if (y_mask >> 6) & 1 == 1 {
            zx
        } else {
            0
        },
        l7: if (y_mask >> 7) & 1 == 1 {
            zx
        } else {
            0
        },
    };
    proof {
        crate::sections::lemma_lane_extremes();
        assert forall|x: u64, y: u64, z: u64| x < 8 && y < 8 && z < 8 implies #[trigger] r.bit(
            x,
            y,
            z,
        ) == (byte_bit(row_masks@[z as int], x as u8) && byte_bit(y_mask, y as u8)) by {
            assert(z * 8 + x < 64);
        }
    }
    r
}

} // verus!
