//! Per-tile traversal state and the intra-tile occlusion flood fill.
//!
//! A tile stores one section cube per unordered pair of faces (which sections
//! admit sight between those faces) and, per cull, one cube per face holding
//! the sections from which traversal reached that face. The flood fill
//! repeatedly pushes incoming sections through the connection cubes and one
//! section forward along each traversal direction until nothing changes.

use vstd::prelude::*;

use crate::direction::dir_from_index_spec;
use crate::direction::dir_index_spec;
use crate::direction::dir_in_set;
use crate::direction::is_dir_set;
use crate::direction::is_single_dir;
use crate::direction::ALL_DIRECTIONS;
use crate::masks::expand_xy_mask;
use crate::masks::expand_zy_mask;
use crate::masks::mask_from;
use crate::masks::mask_through;
use crate::sections::bits_set;
use crate::sections::SectionSet;
use crate::visibility::connection_index_spec;
use crate::visibility::UNIQUE_CONNECTION_COUNT;

verus! {

/// One section cube per face direction, indexed by direction ordinal.
#[derive(Clone, Copy, Debug)]
pub struct DirectionSets {
    pub neg_x: SectionSet,
    pub neg_y: SectionSet,
    pub neg_z: SectionSet,
    pub pos_x: SectionSet,
    pub pos_y: SectionSet,
    pub pos_z: SectionSet,
}

impl DirectionSets {
    /// The cube for the direction with ordinal `d`.
    pub open spec fn get(self, d: int) -> SectionSet {
        if d == 0 {
            self.neg_x
        } else if d == 1 {
            self.neg_y
        } else if d == 2 {
            self.neg_z
        } else if d == 3 {
            self.pos_x
        } else if d == 4 {
            self.pos_y
        } else {
            self.pos_z
        }
    }

    /// Some direction's cube holds the section at index `i`.
    pub open spec fn any_bit(self, i: int) -> bool {
        exists|d: int| 0 <= d < 6 && self.get(d).index_bit(i)
    }

    /// The sets with the cube of ordinal `d` replaced by `s`.
    pub open spec fn set_spec(self, d: int, s: SectionSet) -> DirectionSets {
        if d == 0 {
            DirectionSets { neg_x: s, ..self }
        } else if d == 1 {
            DirectionSets { neg_y: s, ..self }
        } else if d == 2 {
            DirectionSets { neg_z: s, ..self }
        } else if d == 3 {
            DirectionSets { pos_x: s, ..self }
        } else if d == 4 {
            DirectionSets { pos_y: s, ..self }
        } else {
            DirectionSets { pos_z: s, ..self }
        }
    }

    pub fn all_empty() -> (r: DirectionSets)
        ensures
            r == dirsets_empty_spec(),
            forall|d: int| 0 <= d < 6 ==> #[trigger] r.get(d) == SectionSet::empty_spec(),
    {
        let e = SectionSet::empty();
        DirectionSets { neg_x: e, neg_y: e, neg_z: e, pos_x: e, pos_y: e, pos_z: e }
    }

    pub fn get_dir(&self, d: usize) -> (r: SectionSet)
        requires
            d < 6,
        ensures
            r == self.get(d as int),
    {
        match d {
            0 => self.neg_x,
            1 => self.neg_y,
            2 => self.neg_z,
            3 => self.pos_x,
            4 => self.pos_y,
            _ => self.pos_z,
        }
    }

    pub fn set_dir(&mut self, d: usize, s: SectionSet)
        requires
            d < 6,
        ensures
            *final(self) == old(self).set_spec(d as int, s),
            final(self).get(d as int) == s,
            forall|e: int| 0 <= e < 6 && e != d ==> final(self).get(e) == old(self).get(e),
    {
        match d {
            0 => self.neg_x = s,
            1 => self.neg_y = s,
            2 => self.neg_z = s,
            3 => self.pos_x = s,
            4 => self.pos_y = s,
            _ => self.pos_z = s,
        }
    }

    pub fn equals(&self, other: &DirectionSets) -> (r: bool)
        ensures
            r == (*self == *other),
    {
        self.neg_x.equals(&other.neg_x) && self.neg_y.equals(&other.neg_y) && self.neg_z.equals(
            &other.neg_z,
        ) && self.pos_x.equals(&other.pos_x) && self.pos_y.equals(&other.pos_y)
            && self.pos_z.equals(&other.pos_z)
    }
}

/// The three per-axis angle visibility masks of one tile, biasing the flood
/// fill towards the axis each section is most aligned with.
#[derive(Clone, Copy, Debug)]
pub struct AngleMasks {
    pub x: SectionSet,
    pub y: SectionSet,
    pub z: SectionSet,
}

impl AngleMasks {
    /// The mask for axis ordinal `a`.
    pub open spec fn get(self, a: int) -> SectionSet {
        if a == 0 {
            self.x
        } else if a == 1 {
            self.y
        } else {
            self.z
        }
    }

    pub fn get_axis(&self, a: usize) -> (r: SectionSet)
        requires
            a < 3,
        ensures
            r == self.get(a as int),
    {
        match a {
            0 => self.x,
            1 => self.y,
            _ => self.z,
        }
    }

    /// Masks that keep every section, for traversals that need no angle bias.
    pub fn all_filled() -> (r: AngleMasks)
        ensures
            forall|a: int| 0 <= a < 3 ==> #[trigger] r.get(a) == SectionSet::filled_spec(),
    {
        let f = SectionSet::filled();
        AngleMasks { x: f, y: f, z: f }
    }
}

/// The direction sets with every cube empty.
pub open spec fn dirsets_empty_spec() -> DirectionSets {
    DirectionSets {
        neg_x: SectionSet::empty_spec(),
        neg_y: SectionSet::empty_spec(),
        neg_z: SectionSet::empty_spec(),
        pos_x: SectionSet::empty_spec(),
        pos_y: SectionSet::empty_spec(),
        pos_z: SectionSet::empty_spec(),
    }
}

/// One 8x8x8 tile of the graph: its per-pair connection cubes and the
/// per-face outgoing cubes of the current cull.
#[derive(Debug)]
pub struct Tile {
    /// For each of the fifteen unordered face pairs, the sections that admit
    /// sight between those faces. Updated only by section updates.
    pub connection_section_sets: Vec<SectionSet>,
    /// For each face, the sections from which the most recent traversal
    /// reached that face. Recomputed every cull.
    pub outgoing_dir_section_sets: DirectionSets,
    /// Whether this cull already processed the tile.
    pub processed: bool,
}

impl Tile {
    pub open spec fn wf(self) -> bool {
        self.connection_section_sets.len() == UNIQUE_CONNECTION_COUNT
    }

    /// The connection cube with dense pair index `ci`.
    pub open spec fn conn(self, ci: int) -> SectionSet {
        self.connection_section_sets@[ci]
    }

    /// A fully untraversable tile: every connection empty.
    pub fn new() -> (r: Tile)
        ensures
            r.wf(),
            forall|ci: int| 0 <= ci < 15 ==> #[trigger] r.conn(ci) == SectionSet::empty_spec(),
            r.outgoing_dir_section_sets == dirsets_empty_spec(),
            forall|d: int| 0 <= d < 6 ==> #[trigger] r.outgoing_dir_section_sets.get(d)
                == SectionSet::empty_spec(),
            !r.processed,
    {
        let e = SectionSet::empty();
        let mut connections: Vec<SectionSet> = Vec::new();
        let mut i: usize = 0;
        while i < 15
            invariant
                e == SectionSet::empty_spec(),
                i <= 15,
                connections@.len() == i,
                forall|ci: int| 0 <= ci < i ==> #[trigger] connections@[ci]
                    == SectionSet::empty_spec(),
            decreases 15 - i,
        {
            connections.push(e);
            proof {
                assert(connections@[i as int] == e);
            }
            i = i + 1;
        }
        Tile {
            connection_section_sets: connections,
            outgoing_dir_section_sets: DirectionSets::all_empty(),
            processed: false,
        }
    }

    /// Clears the per-cull outgoing state, leaving the connections alone.
    pub fn set_empty(&mut self)
        ensures
            final(self).connection_section_sets == old(self).connection_section_sets,
            final(self).processed == old(self).processed,
            forall|d: int| 0 <= d < 6 ==> #[trigger] final(self).outgoing_dir_section_sets.get(d)
                == SectionSet::empty_spec(),
    {
        self.outgoing_dir_section_sets = DirectionSets::all_empty();
    }
}

/// For each face, the sections of the tile on the outward side of the
/// camera's own section along that face. Used to stop the flood fill from
/// bending back through the camera's section column.
pub fn gen_outward_direction_masks(camera_section_in_tile: (u8, u8, u8)) -> (r: DirectionSets)
    requires
        camera_section_in_tile.0 < 8,
        camera_section_in_tile.1 < 8,
        camera_section_in_tile.2 < 8,
    ensures
        forall|x: u64, y: u64, z: u64|
            x < 8 && y < 8 && z < 8 ==> #[trigger] r.get(0).bit(x, y, z) == (x
                <= camera_section_in_tile.0),
        forall|x: u64, y: u64, z: u64|
            x < 8 && y < 8 && z < 8 ==> #[trigger] r.get(1).bit(x, y, z) == (y
                <= camera_section_in_tile.1),
        forall|x: u64, y: u64, z: u64|
            x < 8 && y < 8 && z < 8 ==> #[trigger] r.get(2).bit(x, y, z) == (z
                <= camera_section_in_tile.2),
        forall|x: u64, y: u64, z: u64|
            x < 8 && y < 8 && z < 8 ==> #[trigger] r.get(3).bit(x, y, z) == (x
                >= camera_section_in_tile.0),
        forall|x: u64, y: u64, z: u64|
            x < 8 && y < 8 && z < 8 ==> #[trigger] r.get(4).bit(x, y, z) == (y
                >= camera_section_in_tile.1),
        forall|x: u64, y: u64, z: u64|
            x < 8 && y < 8 && z < 8 ==> #[trigger] r.get(5).bit(x, y, z) == (z
                >= camera_section_in_tile.2),
{
    let (cx, cy, cz) = camera_section_in_tile;

    let m_neg_x = mask_through(cx);
    let neg_x = expand_xy_mask(&[m_neg_x, m_neg_x, m_neg_x, m_neg_x, m_neg_x, m_neg_x, m_neg_x, m_neg_x]);
    let m_pos_x = mask_from(cx);
    let pos_x = expand_xy_mask(&[m_pos_x, m_pos_x, m_pos_x, m_pos_x, m_pos_x, m_pos_x, m_pos_x, m_pos_x]);

    let neg_y = layers_through(cy);
    let pos_y = layers_from(cy);

    let m_neg_z = mask_through(cz);
    let neg_z = expand_zy_mask(&[m_neg_z, m_neg_z, m_neg_z, m_neg_z, m_neg_z, m_neg_z, m_neg_z, m_neg_z]);
    let m_pos_z = mask_from(cz);
    let pos_z = expand_zy_mask(&[m_pos_z, m_pos_z, m_pos_z, m_pos_z, m_pos_z, m_pos_z, m_pos_z, m_pos_z]);

    DirectionSets { neg_x, neg_y, neg_z, pos_x, pos_y, pos_z }
}

/// The sections whose Y-layer is at or below `k`.
fn layers_through(k: u8) -> (r: SectionSet)
    requires
        k < 8,
    ensures
        forall|x: u64, y: u64, z: u64|
            x < 8 && y < 8 && z < 8 ==> #[trigger] r.bit(x, y, z) == (y <= k),
{
    proof {
        crate::sections::lemma_lane_extremes();
    }
    let r = SectionSet {
        l0: 0xFFFF_FFFF_FFFF_FFFF,
        l1: if k >= 1 {
            0xFFFF_FFFF_FFFF_FFFF
        } else {
            0
        },
        l2: if k >= 2 {
            0xFFFF_FFFF_FFFF_FFFF
        } else {
            0
        },
        l3: if k >= 3 {
            0xFFFF_FFFF_FFFF_FFFF
        } else {
            0
        },
        l4: if k >= 4 {
            0xFFFF_FFFF_FFFF_FFFF
        } else {
            0
        },
        l5: if k >= 5 {
            0xFFFF_FFFF_FFFF_FFFF
        } else {
            0
        },
        l6: if k >= 6 {
            0xFFFF_FFFF_FFFF_FFFF
        } else {
            0
        },
        l7: if k >= 7 {
            0xFFFF_FFFF_FFFF_FFFF
        } else {
            0
        },
    };
    proof {
        assert forall|x: u64, y: u64, z: u64| x < 8 && y < 8 && z < 8 implies #[trigger] r.bit(
            x,
            y,
            z,
        ) == (y <= k) by {
            assert(z * 8 + x < 64);
        }
    }
    r
}

/// The sections whose Y-layer is at or above `k`.
fn layers_from(k: u8) -> (r: SectionSet)
    requires
        k < 8,
    ensures
        forall|x: u64, y: u64, z: u64|
            x < 8 && y < 8 && z < 8 ==> #[trigger] r.bit(x, y, z) == (y >= k),
{
    proof {
        crate::sections::lemma_lane_extremes();
    }
    let r = SectionSet {
        l0: if k == 0 {
            0xFFFF_FFFF_FFFF_FFFF
        } else {
            0
        },
        l1: if k <= 1 {
            0xFFFF_FFFF_FFFF_FFFF
        } else {
            0
        },
        l2: if k <= 2 {
            0xFFFF_FFFF_FFFF_FFFF
        } else {
            0
        },
        l3: if k <= 3 {
            0xFFFF_FFFF_FFFF_FFFF
        } else {
            0
        },
        l4: if k <= 4 {
            0xFFFF_FFFF_FFFF_FFFF
        } else {
            0
        },
        l5: if k <= 5 {
            0xFFFF_FFFF_FFFF_FFFF
        } else {
            0
        },
        l6: if k <= 6 {
            0xFFFF_FFFF_FFFF_FFFF
        } else {
            0
        },
        l7: 0xFFFF_FFFF_FFFF_FFFF,
    };
    proof {
        assert forall|x: u64, y: u64, z: u64| x < 8 && y < 8 && z < 8 implies #[trigger] r.bit(
            x,
            y,
            z,
        ) == (y >= k) by {
            assert(z * 8 + x < 64);
        }
    }
    r
}


/// Whether the camera seed at section `si` can leave through face `d`: some
/// other face's connection pair with `d` admits sight at that section.
pub open spec fn center_connected(t: Tile, d: int, si: int) -> bool {
    exists|e: int|
        0 <= e < 6 && e != d && t.conn(
            connection_index_spec(dir_from_index_spec(d), dir_from_index_spec(e)),
        ).index_bit(si)
}

/// The total number of sections held across all six cubes; the flood fill's
/// progress measure.
pub open spec fn total_count(ds: DirectionSets) -> int {
    bits_set(ds.get(0)).len() as int + bits_set(ds.get(1)).len() as int + bits_set(
        ds.get(2),
    ).len() as int + bits_set(ds.get(3)).len() as int + bits_set(ds.get(4)).len() as int
        + bits_set(ds.get(5)).len() as int
}

/// Six cubes hold at most six full cubes' worth of sections.
pub proof fn lemma_total_count_bounds(ds: DirectionSets)
    ensures
        0 <= total_count(ds) <= 3072,
{
    crate::sections::lemma_bits_set_bounded(ds.get(0));
    crate::sections::lemma_bits_set_bounded(ds.get(1));
    crate::sections::lemma_bits_set_bounded(ds.get(2));
    crate::sections::lemma_bits_set_bounded(ds.get(3));
    crate::sections::lemma_bits_set_bounded(ds.get(4));
    crate::sections::lemma_bits_set_bounded(ds.get(5));
}

/// A cube that keeps every section of another holds at least as many.
proof fn lemma_count_le(a: SectionSet, b: SectionSet)
    requires
        forall|i: int| 0 <= i < 512 && a.index_bit(i) ==> b.index_bit(i),
    ensures
        bits_set(a).len() <= bits_set(b).len(),
{
    crate::sections::lemma_bits_set_bounded(b);
    assert(bits_set(a).subset_of(bits_set(b)));
    vstd::set_lib::lemma_len_subset(bits_set(a), bits_set(b));
}

/// Direction sets that grew somewhere and shrank nowhere hold strictly more
/// sections in total.
pub proof fn lemma_dirsets_growth(a: DirectionSets, b: DirectionSets)
    requires
        forall|e: int, i: int|
            0 <= e < 6 && 0 <= i < 512 && #[trigger] a.get(e).index_bit(i) ==> #[trigger] b.get(
                e,
            ).index_bit(i),
        a != b,
    ensures
        total_count(a) < total_count(b),
{
    lemma_count_le(a.get(0), b.get(0));
    lemma_count_le(a.get(1), b.get(1));
    lemma_count_le(a.get(2), b.get(2));
    lemma_count_le(a.get(3), b.get(3));
    lemma_count_le(a.get(4), b.get(4));
    lemma_count_le(a.get(5), b.get(5));
    if a.get(0) != b.get(0) {
        crate::sections::lemma_strict_growth(a.get(0), b.get(0));
    } else if a.get(1) != b.get(1) {
        crate::sections::lemma_strict_growth(a.get(1), b.get(1));
    } else if a.get(2) != b.get(2) {
        crate::sections::lemma_strict_growth(a.get(2), b.get(2));
    } else if a.get(3) != b.get(3) {
        crate::sections::lemma_strict_growth(a.get(3), b.get(3));
    } else if a.get(4) != b.get(4) {
        crate::sections::lemma_strict_growth(a.get(4), b.get(4));
    } else if a.get(5) != b.get(5) {
        crate::sections::lemma_strict_growth(a.get(5), b.get(5));
    } else {
        assert(a == b);
    }
}

/// Six direction cubes with the same sections as two equal-valued sets hold
/// the same value.
pub proof fn lemma_dirsets_eq(a: DirectionSets, b: DirectionSets)
    requires
        forall|d: int| 0 <= d < 6 ==> #[trigger] a.get(d) == b.get(d),
    ensures
        a == b,
{
    assert(a.get(0) == b.get(0));
    assert(a.get(1) == b.get(1));
    assert(a.get(2) == b.get(2));
    assert(a.get(3) == b.get(3));
    assert(a.get(4) == b.get(4));
    assert(a.get(5) == b.get(5));
}

/// The connection cube consulted when sections enter through face `e` and
/// leave through face `d`, clipped by the axis angle mask when the two faces
/// are opposite.
pub open spec fn pass_conn_spec(conns: Seq<SectionSet>, d: int, e: int, angle: SectionSet) -> SectionSet {
    let c = conns[connection_index_spec(dir_from_index_spec(d), dir_from_index_spec(e))];
    if e == (d + 3) % 6 {
        crate::sections::spec_and(c, angle)
    } else {
        c
    }
}

/// The sections gathered into face `d`'s outgoing cube from the incoming
/// faces with ordinal at least `e`, starting from `acc`: for each incoming
/// face of the traversal other than `d` itself, the face's incoming sections
/// clipped by the pair's connection cube.
pub open spec fn gather_from_spec(
    conns: Seq<SectionSet>,
    tdirs: u8,
    d: int,
    inc: DirectionSets,
    angle: SectionSet,
    acc: SectionSet,
    e: int,
) -> SectionSet
    decreases 6 - e,
{
    if e < 0 || e >= 6 {
        acc
    } else {
        let acc2 = if e != d && dir_in_set(crate::direction::opposite_spec(tdirs), e) {
            crate::sections::spec_or(
                acc,
                crate::sections::spec_and(inc.get(e), pass_conn_spec(conns, d, e, angle)),
            )
        } else {
            acc
        };
        gather_from_spec(conns, tdirs, d, inc, angle, acc2, e + 1)
    }
}

/// Faces that contribute nothing leave the gathered cube alone.
proof fn lemma_gather_skip(
    conns: Seq<SectionSet>,
    tdirs: u8,
    d: int,
    inc: DirectionSets,
    angle: SectionSet,
    acc: SectionSet,
    e1: int,
    e2: int,
)
    requires
        0 <= e1 <= e2 <= 6,
        forall|e: int|
            e1 <= e < e2 ==> !(e != d && dir_in_set(crate::direction::opposite_spec(tdirs), e)),
    ensures
        gather_from_spec(conns, tdirs, d, inc, angle, acc, e1) == gather_from_spec(
            conns,
            tdirs,
            d,
            inc,
            angle,
            acc,
            e2,
        ),
    decreases e2 - e1,
{
    if e1 < e2 {
        assert(gather_from_spec(conns, tdirs, d, inc, angle, acc, e1) == gather_from_spec(
            conns,
            tdirs,
            d,
            inc,
            angle,
            acc,
            e1 + 1,
        ));
        lemma_gather_skip(conns, tdirs, d, inc, angle, acc, e1 + 1, e2);
    }
}

/// Face `d`'s whole gathered outgoing cube, clipped to the camera-outward
/// side when the traversal runs both ways along its axis.
pub open spec fn gathered_out_spec(
    conns: Seq<SectionSet>,
    tdirs: u8,
    d: int,
    inc: DirectionSets,
    angle: SectionSet,
    outward: SectionSet,
    prev: SectionSet,
) -> SectionSet {
    let og = gather_from_spec(conns, tdirs, d, inc, angle, prev, 0);
    if dir_in_set(tdirs, d) && dir_in_set(tdirs, (d + 3) % 6) {
        crate::sections::spec_and(og, outward)
    } else {
        og
    }
}

/// One section step forward along the direction with ordinal `d`.
pub open spec fn shift_dir_spec(d: int, s: SectionSet) -> SectionSet {
    if d == 0 {
        crate::sections::shift_neg_x_spec(s)
    } else if d == 1 {
        crate::sections::shift_neg_y_spec(s)
    } else if d == 2 {
        crate::sections::shift_neg_z_spec(s)
    } else if d == 3 {
        crate::sections::shift_pos_x_spec(s)
    } else if d == 4 {
        crate::sections::shift_pos_y_spec(s)
    } else {
        crate::sections::shift_pos_z_spec(s)
    }
}

/// One direction's update of the flood fill: gather face `d`'s outgoing
/// cube, step it one section forward, clip it to the tile's visibility and
/// merge it into the opposite face's incoming cube. Directions outside the
/// traversal change nothing.
pub open spec fn fill_step_spec(
    conns: Seq<SectionSet>,
    tdirs: u8,
    d: int,
    out: DirectionSets,
    inc: DirectionSets,
    outward: DirectionSets,
    angles: AngleMasks,
    vis: SectionSet,
) -> (DirectionSets, DirectionSets) {
    if !dir_in_set(tdirs, d) {
        (out, inc)
    } else {
        let og = gathered_out_spec(conns, tdirs, d, inc, angles.get(d % 3), outward.get(d), out.get(d));
        let opp = (d + 3) % 6;
        let merged = crate::sections::spec_or(
            inc.get(opp),
            crate::sections::spec_and(shift_dir_spec(d, og), vis),
        );
        (out.set_spec(d, og), inc.set_spec(opp, merged))
    }
}

/// One round of the flood fill: every direction pushed once, in the fixed
/// negative-then-positive order.
pub open spec fn fill_round_spec(
    conns: Seq<SectionSet>,
    tdirs: u8,
    out: DirectionSets,
    inc: DirectionSets,
    outward: DirectionSets,
    angles: AngleMasks,
    vis: SectionSet,
) -> (DirectionSets, DirectionSets) {
    let s0 = fill_step_spec(conns, tdirs, 0, out, inc, outward, angles, vis);
    let s1 = fill_step_spec(conns, tdirs, 1, s0.0, s0.1, outward, angles, vis);
    let s2 = fill_step_spec(conns, tdirs, 2, s1.0, s1.1, outward, angles, vis);
    let s3 = fill_step_spec(conns, tdirs, 3, s2.0, s2.1, outward, angles, vis);
    let s4 = fill_step_spec(conns, tdirs, 4, s3.0, s3.1, outward, angles, vis);
    fill_step_spec(conns, tdirs, 5, s4.0, s4.1, outward, angles, vis)
}

/// One fill step only adds sections to the incoming cubes.
proof fn lemma_step_inc_monotone(
    conns: Seq<SectionSet>,
    tdirs: u8,
    d: int,
    out: DirectionSets,
    inc: DirectionSets,
    outward: DirectionSets,
    angles: AngleMasks,
    vis: SectionSet,
)
    ensures
        forall|e: int, i: int|
            0 <= e < 6 && 0 <= i < 512 && #[trigger] inc.get(e).index_bit(i)
                ==> #[trigger] fill_step_spec(conns, tdirs, d, out, inc, outward, angles, vis).1.get(
                e,
            ).index_bit(i),
{
    if dir_in_set(tdirs, d) {
        let og = gathered_out_spec(conns, tdirs, d, inc, angles.get(d % 3), outward.get(d), out.get(d));
        let opp = (d + 3) % 6;
        crate::sections::lemma_spec_or_bits(
            inc.get(opp),
            crate::sections::spec_and(shift_dir_spec(d, og), vis),
        );
    }
}

/// One fill round only adds sections to the incoming cubes.
pub proof fn lemma_round_inc_monotone(
    conns: Seq<SectionSet>,
    tdirs: u8,
    out: DirectionSets,
    inc: DirectionSets,
    outward: DirectionSets,
    angles: AngleMasks,
    vis: SectionSet,
)
    ensures
        forall|e: int, i: int|
            0 <= e < 6 && 0 <= i < 512 && #[trigger] inc.get(e).index_bit(i)
                ==> #[trigger] fill_round_spec(conns, tdirs, out, inc, outward, angles, vis).1.get(
                e,
            ).index_bit(i),
{
    let s0 = fill_step_spec(conns, tdirs, 0, out, inc, outward, angles, vis);
    let s1 = fill_step_spec(conns, tdirs, 1, s0.0, s0.1, outward, angles, vis);
    let s2 = fill_step_spec(conns, tdirs, 2, s1.0, s1.1, outward, angles, vis);
    let s3 = fill_step_spec(conns, tdirs, 3, s2.0, s2.1, outward, angles, vis);
    let s4 = fill_step_spec(conns, tdirs, 4, s3.0, s3.1, outward, angles, vis);
    lemma_step_inc_monotone(conns, tdirs, 0, out, inc, outward, angles, vis);
    lemma_step_inc_monotone(conns, tdirs, 1, s0.0, s0.1, outward, angles, vis);
    lemma_step_inc_monotone(conns, tdirs, 2, s1.0, s1.1, outward, angles, vis);
    lemma_step_inc_monotone(conns, tdirs, 3, s2.0, s2.1, outward, angles, vis);
    lemma_step_inc_monotone(conns, tdirs, 4, s3.0, s3.1, outward, angles, vis);
    lemma_step_inc_monotone(conns, tdirs, 5, s4.0, s4.1, outward, angles, vis);
    assert forall|e: int, i: int|
        0 <= e < 6 && 0 <= i < 512 && #[trigger] inc.get(e).index_bit(i)
            implies #[trigger] fill_round_spec(conns, tdirs, out, inc, outward, angles, vis).1.get(
        e,
    ).index_bit(i) by {
        assert(s0.1.get(e).index_bit(i));
        assert(s1.1.get(e).index_bit(i));
        assert(s2.1.get(e).index_bit(i));
        assert(s3.1.get(e).index_bit(i));
        assert(s4.1.get(e).index_bit(i));
    }
}

/// The flood fill's fixed point: rounds applied until no incoming cube
/// changes. The first component is the final outgoing cubes, the second the
/// final incoming cubes.
pub open spec fn fill_fix_spec(
    conns: Seq<SectionSet>,
    tdirs: u8,
    out: DirectionSets,
    inc: DirectionSets,
    outward: DirectionSets,
    angles: AngleMasks,
    vis: SectionSet,
) -> (DirectionSets, DirectionSets)
    decreases 3072 - total_count(inc),
    via fill_fix_decreases
{
    let r = fill_round_spec(conns, tdirs, out, inc, outward, angles, vis);
    if r.1 == inc {
        (r.0, inc)
    } else {
        fill_fix_spec(conns, tdirs, r.0, r.1, outward, angles, vis)
    }
}

#[via_fn]
proof fn fill_fix_decreases(
    conns: Seq<SectionSet>,
    tdirs: u8,
    out: DirectionSets,
    inc: DirectionSets,
    outward: DirectionSets,
    angles: AngleMasks,
    vis: SectionSet,
) {
    lemma_total_count_bounds(inc);
    let r = fill_round_spec(conns, tdirs, out, inc, outward, angles, vis);
    if r.1 != inc {
        lemma_round_inc_monotone(conns, tdirs, out, inc, outward, angles, vis);
        lemma_dirsets_growth(inc, r.1);
        lemma_total_count_bounds(r.1);
    }
}

/// The union of a start cube with all six incoming cubes, in the fixed
/// direction order.
pub open spec fn union_with_spec(start: SectionSet, ds: DirectionSets) -> SectionSet {
    crate::sections::spec_or(
        crate::sections::spec_or(
            crate::sections::spec_or(
                crate::sections::spec_or(
                    crate::sections::spec_or(
                        crate::sections::spec_or(start, ds.get(0)),
                        ds.get(1),
                    ),
                    ds.get(2),
                ),
                ds.get(3),
            ),
            ds.get(4),
        ),
        ds.get(5),
    )
}

/// `center_connected` stated over a tile's connection cubes alone.
pub open spec fn center_connected_c(conns: Seq<SectionSet>, d: int, si: int) -> bool {
    exists|e: int|
        0 <= e < 6 && e != d && conns[connection_index_spec(
            dir_from_index_spec(d),
            dir_from_index_spec(e),
        )].index_bit(si)
}

/// The two forms of the camera-seed condition agree.
pub proof fn lemma_center_forms(t: Tile, d: int, si: int)
    ensures
        center_connected(t, d, si) == center_connected_c(t.connection_section_sets@, d, si),
{
    if center_connected(t, d, si) {
        let e = choose|e: int|
            0 <= e < 6 && e != d && t.conn(
                connection_index_spec(dir_from_index_spec(d), dir_from_index_spec(e)),
            ).index_bit(si);
        assert(t.connection_section_sets@[connection_index_spec(
            dir_from_index_spec(d),
            dir_from_index_spec(e),
        )].index_bit(si));
    }
    if center_connected_c(t.connection_section_sets@, d, si) {
        let e = choose|e: int|
            0 <= e < 6 && e != d && t.connection_section_sets@[connection_index_spec(
                dir_from_index_spec(d),
                dir_from_index_spec(e),
            )].index_bit(si);
        assert(t.conn(
            connection_index_spec(dir_from_index_spec(d), dir_from_index_spec(e)),
        ).index_bit(si));
    }
}

/// Face `d`'s outgoing cube after the camera seed: the camera's section bit
/// is added when some connection pair through that face admits sight there.
pub open spec fn center_seed_dir_spec(
    conns: Seq<SectionSet>,
    prev: SectionSet,
    d: int,
    si: int,
) -> SectionSet {
    if center_connected_c(conns, d, si) {
        crate::sections::spec_or(prev, crate::sections::single_bit_spec(si))
    } else {
        prev
    }
}

/// All six outgoing cubes after the camera seed.
pub open spec fn center_seed_spec(conns: Seq<SectionSet>, prev: DirectionSets, si: int) -> DirectionSets {
    DirectionSets {
        neg_x: center_seed_dir_spec(conns, prev.get(0), 0, si),
        neg_y: center_seed_dir_spec(conns, prev.get(1), 1, si),
        neg_z: center_seed_dir_spec(conns, prev.get(2), 2, si),
        pos_x: center_seed_dir_spec(conns, prev.get(3), 3, si),
        pos_y: center_seed_dir_spec(conns, prev.get(4), 4, si),
        pos_z: center_seed_dir_spec(conns, prev.get(5), 5, si),
    }
}

/// The seed bit for face `od` after some incoming faces have been examined:
/// a face not in `remaining`, other than `od` itself, whose connection pair
/// with `od` admits sight at section `si`.
pub open spec fn partial_center_connected(t: Tile, od: u8, od_idx: int, remaining: u8, si: int) -> bool {
    exists|e: int|
        0 <= e < 6 && e != od_idx && !dir_in_set(remaining, e) && #[trigger] t.conn(
            connection_index_spec(od, dir_from_index_spec(e)),
        ).index_bit(si)
}

/// With no faces left to examine, the partial seed condition is exactly
/// `center_connected`.
proof fn lemma_partial_center_full(t: Tile, d: int, si: int)
    requires
        0 <= d < 6,
    ensures
        partial_center_connected(t, dir_from_index_spec(d), d, 0u8, si) == center_connected(
            t,
            d,
            si,
        ),
{
    crate::direction::lemma_dir_set_bits();
    let od = dir_from_index_spec(d);
    if partial_center_connected(t, od, d, 0u8, si) {
        let e = choose|e: int|
            0 <= e < 6 && e != d && !dir_in_set(0u8, e) && #[trigger] t.conn(
                connection_index_spec(od, dir_from_index_spec(e)),
            ).index_bit(si);
        assert(t.conn(
            connection_index_spec(dir_from_index_spec(d), dir_from_index_spec(e)),
        ).index_bit(si));
    }
    if center_connected(t, d, si) {
        let e = choose|e: int|
            0 <= e < 6 && e != d && #[trigger] t.conn(
                connection_index_spec(dir_from_index_spec(d), dir_from_index_spec(e)),
            ).index_bit(si);
        assert(!dir_in_set(0u8, e));
        assert(t.conn(connection_index_spec(od, dir_from_index_spec(e))).index_bit(si));
    }
}

/// Examining one more incoming face extends the partial seed condition by
/// exactly that face's connection bit.
proof fn lemma_partial_center_step(
    t: Tile,
    od: u8,
    od_idx: int,
    before: u8,
    after: u8,
    ic_idx: int,
    si: int,
)
    requires
        0 <= od_idx < 6,
        0 <= ic_idx < 6,
        ic_idx != od_idx,
        dir_in_set(before, ic_idx),
        forall|e: int|
            0 <= e < 8 ==> #[trigger] dir_in_set(after, e) == (dir_in_set(before, e) && e
                != ic_idx),
    ensures
        partial_center_connected(t, od, od_idx, after, si) == (partial_center_connected(
            t,
            od,
            od_idx,
            before,
            si,
        ) || t.conn(connection_index_spec(od, dir_from_index_spec(ic_idx))).index_bit(si)),
{
    if partial_center_connected(t, od, od_idx, after, si) {
        let e = choose|e: int|
            0 <= e < 6 && e != od_idx && !dir_in_set(after, e) && #[trigger] t.conn(
                connection_index_spec(od, dir_from_index_spec(e)),
            ).index_bit(si);
        if e != ic_idx {
            assert(!dir_in_set(before, e));
            assert(partial_center_connected(t, od, od_idx, before, si));
        }
    }
    if partial_center_connected(t, od, od_idx, before, si) {
        let e = choose|e: int|
            0 <= e < 6 && e != od_idx && !dir_in_set(before, e) && #[trigger] t.conn(
                connection_index_spec(od, dir_from_index_spec(e)),
            ).index_bit(si);
        assert(!dir_in_set(after, e));
        assert(partial_center_connected(t, od, od_idx, after, si));
    }
    if t.conn(connection_index_spec(od, dir_from_index_spec(ic_idx))).index_bit(si) {
        assert(!dir_in_set(after, ic_idx));
        assert(partial_center_connected(t, od, od_idx, after, si));
    }
}

impl Tile {
    /// Seeds the camera tile's outgoing cubes: for each face, the camera's
    /// own section bit is raised when any connection pair through that face
    /// admits sight at that section.
    pub fn setup_center_tile(&mut self, section_index: u16)
        requires
            old(self).wf(),
            section_index < 512,
        ensures
            final(self).wf(),
            final(self).connection_section_sets == old(self).connection_section_sets,
            final(self).processed == old(self).processed,
            forall|d: int, i: int|
                0 <= d < 6 && 0 <= i < 512
                    ==> #[trigger] final(self).outgoing_dir_section_sets.get(d).index_bit(i) == (
                old(self).outgoing_dir_section_sets.get(d).index_bit(i) || (i == section_index
                    && center_connected(*old(self), d, section_index as int))),
            final(self).outgoing_dir_section_sets == center_seed_spec(
                old(self).connection_section_sets@,
                old(self).outgoing_dir_section_sets,
                section_index as int,
            ),
    {
        let ghost t0 = *self;
        let ghost si = section_index as int;
        proof {
            crate::direction::lemma_dir_set_bits();
        }
        let mut outgoing_dirs = ALL_DIRECTIONS;
        while outgoing_dirs != 0
            invariant
                self.wf(),
                section_index < 512,
                si == section_index as int,
                self.connection_section_sets == t0.connection_section_sets,
                self.processed == t0.processed,
                is_dir_set(outgoing_dirs),
                forall|d: int, i: int|
                    0 <= d < 6 && 0 <= i < 512 && dir_in_set(outgoing_dirs, d)
                        ==> #[trigger] self.outgoing_dir_section_sets.get(d).index_bit(i)
                        == t0.outgoing_dir_section_sets.get(d).index_bit(i),
                forall|d: int, i: int|
                    0 <= d < 6 && 0 <= i < 512 && !dir_in_set(outgoing_dirs, d)
                        ==> #[trigger] self.outgoing_dir_section_sets.get(d).index_bit(i) == (
                    t0.outgoing_dir_section_sets.get(d).index_bit(i) || (i == section_index
                        && center_connected(t0, d, si))),
            decreases outgoing_dirs,
        {
            let ghost ods0 = outgoing_dirs;
            let outgoing_dir = crate::direction::take_one(&mut outgoing_dirs);
            let od_idx = crate::direction::to_index(outgoing_dir);
            proof {
                crate::direction::lemma_single_dir_bits(outgoing_dir);
                crate::direction::lemma_contains_single(ods0, outgoing_dir);
                crate::direction::lemma_dir_andnot(ods0, outgoing_dir);
                crate::direction::lemma_dir_set_bits();
                assert(dir_in_set(ods0, od_idx as int));
                assert forall|e: int| 0 <= e < 8 implies #[trigger] dir_in_set(outgoing_dirs, e)
                    == (dir_in_set(ods0, e) && e != od_idx) by {
                    assert(outgoing_dirs == (ods0 & !outgoing_dir));
                    assert(crate::sections::byte_bit(ods0 & !outgoing_dir, e as u8) == (
                    crate::sections::byte_bit(ods0, e as u8) && !crate::sections::byte_bit(
                        outgoing_dir,
                        e as u8,
                    )));
                    assert(dir_in_set(outgoing_dir, e) == (e == od_idx));
                }
            }
            let mut og = self.outgoing_dir_section_sets.get_dir(od_idx);
            let ghost og0 = og;
            let mut incoming_dirs = crate::direction::all_except(outgoing_dir);
            proof {
                crate::direction::lemma_dir_andnot(ALL_DIRECTIONS, outgoing_dir);
                assert(forall|e: int|
                    0 <= e < 8 && #[trigger] dir_in_set(incoming_dirs, e) ==> e < 6 && e
                        != od_idx);
                assert(!partial_center_connected(t0, outgoing_dir, od_idx as int, incoming_dirs, si))
                    by {
                    if partial_center_connected(t0, outgoing_dir, od_idx as int, incoming_dirs, si) {
                        let e = choose|e: int|
                            0 <= e < 6 && e != od_idx && !dir_in_set(incoming_dirs, e)
                                && #[trigger] t0.conn(
                                connection_index_spec(outgoing_dir, dir_from_index_spec(e)),
                            ).index_bit(si);
                        assert(dir_in_set(incoming_dirs, e));
                    }
                }
            }
            while incoming_dirs != 0
                invariant
                    self.wf(),
                    section_index < 512,
                    si == section_index as int,
                    self.connection_section_sets == t0.connection_section_sets,
                    od_idx < 6,
                    od_idx == dir_index_spec(outgoing_dir),
                    outgoing_dir == dir_from_index_spec(od_idx as int),
                    is_single_dir(outgoing_dir),
                    is_dir_set(incoming_dirs),
                    forall|e: int|
                        0 <= e < 8 && #[trigger] dir_in_set(incoming_dirs, e) ==> e < 6 && e
                            != od_idx,
                    forall|i: int|
                        0 <= i < 512 ==> #[trigger] og.index_bit(i) == (og0.index_bit(i) || (i
                            == section_index && partial_center_connected(
                            t0,
                            outgoing_dir,
                            od_idx as int,
                            incoming_dirs,
                            si,
                        ))),
                decreases incoming_dirs,
            {
                let ghost ids0 = incoming_dirs;
                let ghost og_before = og;
                let incoming_dir = crate::direction::take_one(&mut incoming_dirs);
                let ghost ic_idx = dir_index_spec(incoming_dir);
                proof {
                    crate::direction::lemma_single_dir_bits(incoming_dir);
                    crate::direction::lemma_contains_single(ids0, incoming_dir);
                    crate::direction::lemma_dir_andnot(ids0, incoming_dir);
                    assert(dir_in_set(ids0, ic_idx));
                    assert(0 <= ic_idx < 6 && ic_idx != od_idx);
                    assert(incoming_dir != outgoing_dir);
                    assert(incoming_dir == dir_from_index_spec(ic_idx));
                    assert forall|e: int| 0 <= e < 8 implies #[trigger] dir_in_set(
                        incoming_dirs,
                        e,
                    ) == (dir_in_set(ids0, e) && e != ic_idx) by {
                        assert(incoming_dirs == (ids0 & !incoming_dir));
                        assert(crate::sections::byte_bit(ids0 & !incoming_dir, e as u8) == (
                        crate::sections::byte_bit(ids0, e as u8) && !crate::sections::byte_bit(
                            incoming_dir,
                            e as u8,
                        )));
                        assert(dir_in_set(incoming_dir, e) == (e == ic_idx));
                    }
                }
                let ci = crate::visibility::connection_index(outgoing_dir, incoming_dir);
                let connected = crate::sections::get_bit(
                    &self.connection_section_sets[ci],
                    section_index,
                );
                crate::sections::or_bit(&mut og, section_index, connected);
                proof {
                    assert(self.conn(ci as int) == t0.conn(ci as int));
                    assert(connected == t0.conn(
                        connection_index_spec(outgoing_dir, dir_from_index_spec(ic_idx)),
                    ).index_bit(si));
                    lemma_partial_center_step(
                        t0,
                        outgoing_dir,
                        od_idx as int,
                        ids0,
                        incoming_dirs,
                        ic_idx,
                        si,
                    );
                }
            }
            self.outgoing_dir_section_sets.set_dir(od_idx, og);
            proof {
                crate::direction::lemma_dir_set_bits();
                lemma_partial_center_full(t0, od_idx as int, si);
                assert forall|d: int, i: int|
                    0 <= d < 6 && 0 <= i < 512 && !dir_in_set(outgoing_dirs, d)
                        implies #[trigger] self.outgoing_dir_section_sets.get(d).index_bit(i) == (
                t0.outgoing_dir_section_sets.get(d).index_bit(i) || (i == section_index
                    && center_connected(t0, d, si))) by {
                    if d == od_idx {
                        assert(self.outgoing_dir_section_sets.get(d) == og);
                    } else {
                        assert(!dir_in_set(ods0, d));
                    }
                }
            }
        }
        proof {
            crate::direction::lemma_dir_set_bits();
            let conns = t0.connection_section_sets@;
            let prev = t0.outgoing_dir_section_sets;
            assert forall|d: int| 0 <= d < 6 implies #[trigger] self.outgoing_dir_section_sets.get(
                d,
            ) == center_seed_spec(conns, prev, si).get(d) by {
                lemma_center_forms(t0, d, si);
                crate::sections::lemma_spec_or_bits(
                    prev.get(d),
                    crate::sections::single_bit_spec(si),
                );
                crate::sections::lemma_single_bit_bits(si);
                assert forall|i: int|
                    0 <= i < 512 implies #[trigger] self.outgoing_dir_section_sets.get(
                    d,
                ).index_bit(i) == center_seed_dir_spec(conns, prev.get(d), d, si).index_bit(i) by {
                    assert(self.outgoing_dir_section_sets.get(d).index_bit(i) == (prev.get(
                        d,
                    ).index_bit(i) || (i == section_index && center_connected(t0, d, si))));
                }
                crate::sections::lemma_bits_eq(
                    self.outgoing_dir_section_sets.get(d),
                    center_seed_dir_spec(conns, prev.get(d), d, si),
                );
                assert(center_seed_spec(conns, prev, si).get(d) == center_seed_dir_spec(
                    conns,
                    prev.get(d),
                    d,
                    si,
                ));
            }
            lemma_dirsets_eq(self.outgoing_dir_section_sets, center_seed_spec(conns, prev, si));
        }
    }
}


/// A section seen by some face's cube is still seen after every cube grew.
proof fn lemma_any_monotone(a: DirectionSets, b: DirectionSets, i: int)
    requires
        0 <= i < 512,
        forall|e: int, j: int|
            0 <= e < 6 && 0 <= j < 512 && #[trigger] a.get(e).index_bit(j) ==> #[trigger] b.get(
                e,
            ).index_bit(j),
        a.any_bit(i),
    ensures
        b.any_bit(i),
{
    let d = choose|d: int| 0 <= d < 6 && a.get(d).index_bit(i);
    assert(b.get(d).index_bit(i));
}

impl Tile {
    /// Pushes every incoming face's sections through its connection pair with
    /// `outgoing_dir`, gathering them in that face's outgoing cube. When the
    /// traversal runs both ways along this axis, the cube is clipped to the
    /// camera-outward side.
    fn find_outgoing_connections(
        &mut self,
        traversal_dirs: u8,
        outgoing_dir: u8,
        incoming_dir_section_sets: &DirectionSets,
        outward_direction_mask: SectionSet,
        angle_visibility_mask: SectionSet,
    )
        requires
            old(self).wf(),
            is_dir_set(traversal_dirs),
            is_single_dir(outgoing_dir),
        ensures
            final(self).wf(),
            final(self).connection_section_sets == old(self).connection_section_sets,
            final(self).processed == old(self).processed,
            final(self).outgoing_dir_section_sets == old(self).outgoing_dir_section_sets.set_spec(
                dir_index_spec(outgoing_dir),
                gathered_out_spec(
                    old(self).connection_section_sets@,
                    traversal_dirs,
                    dir_index_spec(outgoing_dir),
                    *incoming_dir_section_sets,
                    angle_visibility_mask,
                    outward_direction_mask,
                    old(self).outgoing_dir_section_sets.get(dir_index_spec(outgoing_dir)),
                ),
            ),
            forall|e: int|
                0 <= e < 6 && e != dir_index_spec(outgoing_dir)
                    ==> #[trigger] final(self).outgoing_dir_section_sets.get(e) == old(
                    self,
                ).outgoing_dir_section_sets.get(e),
            forall|i: int|
                0 <= i < 512 && #[trigger] final(self).outgoing_dir_section_sets.get(
                    dir_index_spec(outgoing_dir),
                ).index_bit(i) ==> (old(self).outgoing_dir_section_sets.get(
                    dir_index_spec(outgoing_dir),
                ).index_bit(i) || incoming_dir_section_sets.any_bit(i)),
    {
        let ghost t0 = *self;
        let ghost conns = self.connection_section_sets@;
        let od_idx = crate::direction::to_index(outgoing_dir);
        let mut og = self.outgoing_dir_section_sets.get_dir(od_idx);
        let ghost og0 = og;
        let ghost target = gather_from_spec(
            conns,
            traversal_dirs,
            od_idx as int,
            *incoming_dir_section_sets,
            angle_visibility_mask,
            og0,
            0,
        );
        let opposite_dir = crate::direction::opposite(outgoing_dir);
        let opp_t = crate::direction::opposite(traversal_dirs);
        let mut incoming_dirs = opp_t & !outgoing_dir;
        let ghost mut m: int = 0;
        proof {
            crate::direction::lemma_dir_andnot(opp_t, outgoing_dir);
            crate::direction::lemma_single_dir_bits(outgoing_dir);
            assert(is_dir_set(incoming_dirs));
            assert forall|e: int| 0 <= e < 8 implies #[trigger] dir_in_set(incoming_dirs, e) == (
            dir_in_set(crate::direction::opposite_spec(traversal_dirs), e) && e != od_idx) by {
                assert(crate::sections::byte_bit(opp_t & !outgoing_dir, e as u8) == (
                crate::sections::byte_bit(opp_t, e as u8) && !crate::sections::byte_bit(
                    outgoing_dir,
                    e as u8,
                )));
                assert(dir_in_set(outgoing_dir, e) == (e == od_idx));
            }
            assert forall|e: int| 0 <= e < 8 && #[trigger] dir_in_set(incoming_dirs, e) implies e
                < 6 && e != od_idx by {
                assert(dir_in_set(crate::direction::opposite_spec(traversal_dirs), e) ==> e < 6)
                    by {
                    crate::direction::lemma_opposite_bits(traversal_dirs);
                }
            }
        }
        while incoming_dirs != 0
            invariant
                *self == t0,
                self.wf(),
                conns == self.connection_section_sets@,
                is_single_dir(outgoing_dir),
                od_idx == dir_index_spec(outgoing_dir),
                od_idx < 6,
                is_single_dir(opposite_dir),
                dir_index_spec(opposite_dir) == (od_idx as int + 3) % 6,
                is_dir_set(incoming_dirs),
                0 <= m <= 6,
                gather_from_spec(
                    conns,
                    traversal_dirs,
                    od_idx as int,
                    *incoming_dir_section_sets,
                    angle_visibility_mask,
                    og,
                    m,
                ) == target,
                forall|e: int|
                    m <= e < 6 ==> #[trigger] dir_in_set(incoming_dirs, e) == (dir_in_set(
                        crate::direction::opposite_spec(traversal_dirs),
                        e,
                    ) && e != od_idx),
                forall|e: int|
                    0 <= e < 8 && #[trigger] dir_in_set(incoming_dirs, e) ==> m <= e < 6 && e
                        != od_idx,
                forall|i: int|
                    0 <= i < 512 && #[trigger] og.index_bit(i) ==> og0.index_bit(i)
                        || incoming_dir_section_sets.any_bit(i),
            decreases incoming_dirs,
        {
            let ghost ids0 = incoming_dirs;
            let ghost m0 = m;
            let incoming_dir = crate::direction::take_one(&mut incoming_dirs);
            proof {
                crate::direction::lemma_single_dir_bits(incoming_dir);
                crate::direction::lemma_contains_single(ids0, incoming_dir);
                crate::direction::lemma_dir_andnot(ids0, incoming_dir);
                assert(dir_in_set(ids0, dir_index_spec(incoming_dir)));
                assert(dir_index_spec(incoming_dir) != od_idx);
                assert(incoming_dir != outgoing_dir);
                assert forall|e: int| 0 <= e < 8 implies #[trigger] dir_in_set(incoming_dirs, e)
                    == (dir_in_set(ids0, e) && e != dir_index_spec(incoming_dir)) by {
                    assert(crate::sections::byte_bit(ids0 & !incoming_dir, e as u8) == (
                    crate::sections::byte_bit(ids0, e as u8) && !crate::sections::byte_bit(
                        incoming_dir,
                        e as u8,
                    )));
                    assert(dir_in_set(incoming_dir, e) == (e == dir_index_spec(incoming_dir)));
                }
            }
            let ic_idx = crate::direction::to_index(incoming_dir);
            let ci = crate::visibility::connection_index(outgoing_dir, incoming_dir);
            let mut connection_sections = self.connection_section_sets[ci];
            if incoming_dir == opposite_dir {
                connection_sections = connection_sections.and(&angle_visibility_mask);
            }
            let contribution = incoming_dir_section_sets.get_dir(ic_idx).and(&connection_sections);
            let ghost og_before = og;
            og = og.or(&contribution);
            proof {
                // everything between the old boundary and this face was
                // absent, so the gathered value is unchanged up to here
                assert(m0 <= ic_idx < 6);
                assert forall|e: int|
                    m0 <= e < ic_idx implies !(e != od_idx && dir_in_set(
                    crate::direction::opposite_spec(traversal_dirs),
                    e,
                )) by {
                    assert(!dir_in_set(ids0, e));
                }
                lemma_gather_skip(
                    conns,
                    traversal_dirs,
                    od_idx as int,
                    *incoming_dir_section_sets,
                    angle_visibility_mask,
                    og_before,
                    m0,
                    ic_idx as int,
                );
                // this face's contribution is exactly the spec fold's step
                assert(outgoing_dir == dir_from_index_spec(od_idx as int));
                assert(incoming_dir == dir_from_index_spec(ic_idx as int));
                assert(dir_in_set(crate::direction::opposite_spec(traversal_dirs), ic_idx as int));
                assert((incoming_dir == opposite_dir) == (ic_idx as int == (od_idx as int + 3)
                    % 6)) by {
                    assert(dir_index_spec(opposite_dir) == (dir_index_spec(outgoing_dir) + 3) % 6);
                    if ic_idx as int == (od_idx as int + 3) % 6 {
                        assert(incoming_dir == dir_from_index_spec(dir_index_spec(opposite_dir)));
                        assert(is_single_dir(opposite_dir));
                        assert(dir_from_index_spec(dir_index_spec(opposite_dir)) == opposite_dir);
                    }
                }
                assert(connection_sections == pass_conn_spec(
                    conns,
                    od_idx as int,
                    ic_idx as int,
                    angle_visibility_mask,
                ));
                assert(og == crate::sections::spec_or(
                    og_before,
                    crate::sections::spec_and(
                        incoming_dir_section_sets.get(ic_idx as int),
                        pass_conn_spec(conns, od_idx as int, ic_idx as int, angle_visibility_mask),
                    ),
                ));
                assert(gather_from_spec(
                    conns,
                    traversal_dirs,
                    od_idx as int,
                    *incoming_dir_section_sets,
                    angle_visibility_mask,
                    og_before,
                    ic_idx as int,
                ) == gather_from_spec(
                    conns,
                    traversal_dirs,
                    od_idx as int,
                    *incoming_dir_section_sets,
                    angle_visibility_mask,
                    og,
                    ic_idx as int + 1,
                ));
                m = ic_idx as int + 1;
                assert forall|i: int|
                    0 <= i < 512 && #[trigger] og.index_bit(i) implies og0.index_bit(i)
                    || incoming_dir_section_sets.any_bit(i) by {
                    if !og_before.index_bit(i) {
                        crate::sections::lemma_spec_or_bits(
                            og_before,
                            crate::sections::spec_and(
                                incoming_dir_section_sets.get(ic_idx as int),
                                pass_conn_spec(
                                    conns,
                                    od_idx as int,
                                    ic_idx as int,
                                    angle_visibility_mask,
                                ),
                            ),
                        );
                        crate::sections::lemma_spec_and_bits(
                            incoming_dir_section_sets.get(ic_idx as int),
                            pass_conn_spec(
                                conns,
                                od_idx as int,
                                ic_idx as int,
                                angle_visibility_mask,
                            ),
                        );
                        assert(incoming_dir_section_sets.get(ic_idx as int).index_bit(i));
                    }
                }
            }
        }
        proof {
            crate::direction::lemma_dir_set_bits();
            assert forall|e: int| m <= e < 6 implies !(e != od_idx && dir_in_set(
                crate::direction::opposite_spec(traversal_dirs),
                e,
            )) by {
                assert(!dir_in_set(0u8, e));
            }
            lemma_gather_skip(
                conns,
                traversal_dirs,
                od_idx as int,
                *incoming_dir_section_sets,
                angle_visibility_mask,
                og,
                m,
                6,
            );
            assert(og == target);
        }
        let both = outgoing_dir | opposite_dir;
        if crate::bitset::contains_u8(traversal_dirs, both) {
            og = og.and(&outward_direction_mask);
        }
        proof {
            crate::direction::lemma_contains_single(traversal_dirs, outgoing_dir);
            crate::direction::lemma_contains_single(traversal_dirs, opposite_dir);
            assert((traversal_dirs & (outgoing_dir | opposite_dir) == (outgoing_dir
                | opposite_dir)) == (traversal_dirs & outgoing_dir == outgoing_dir
                && traversal_dirs & opposite_dir == opposite_dir)) by (bit_vector);
            assert(dir_index_spec(opposite_dir) == (od_idx as int + 3) % 6);
            assert(og == gathered_out_spec(
                conns,
                traversal_dirs,
                od_idx as int,
                *incoming_dir_section_sets,
                angle_visibility_mask,
                outward_direction_mask,
                og0,
            ));
        }
        self.outgoing_dir_section_sets.set_dir(od_idx, og);
    }

    /// One direction of one flood-fill round: gathers this face's outgoing
    /// sections, steps them one section forward along the face, clips them to
    /// the tile's visibility, and feeds them back in as incoming sections of
    /// the opposite face.
    fn try_traverse_dir(
        &mut self,
        traversal_dirs: u8,
        outgoing_dir: u8,
        incoming_dir_section_sets: &mut DirectionSets,
        outward_direction_masks: &DirectionSets,
        angle_visibility_masks: &AngleMasks,
        main_visibility_mask: SectionSet,
    )
        requires
            old(self).wf(),
            is_dir_set(traversal_dirs),
            is_single_dir(outgoing_dir),
        ensures
            final(self).wf(),
            final(self).connection_section_sets == old(self).connection_section_sets,
            final(self).processed == old(self).processed,
            forall|e: int, i: int|
                0 <= e < 6 && 0 <= i < 512 && #[trigger] old(incoming_dir_section_sets).get(
                    e,
                ).index_bit(i) ==> #[trigger] final(incoming_dir_section_sets).get(e).index_bit(i),
            forall|e: int, i: int|
                0 <= e < 6 && 0 <= i < 512 && #[trigger] final(incoming_dir_section_sets).get(
                    e,
                ).index_bit(i) ==> (old(incoming_dir_section_sets).get(e).index_bit(i)
                    || main_visibility_mask.index_bit(i)),
            forall|e: int|
                0 <= e < 6 && e != dir_index_spec(outgoing_dir)
                    ==> #[trigger] final(self).outgoing_dir_section_sets.get(e) == old(
                    self,
                ).outgoing_dir_section_sets.get(e),
            forall|i: int|
                0 <= i < 512 && #[trigger] final(self).outgoing_dir_section_sets.get(
                    dir_index_spec(outgoing_dir),
                ).index_bit(i) ==> (old(self).outgoing_dir_section_sets.get(
                    dir_index_spec(outgoing_dir),
                ).index_bit(i) || old(incoming_dir_section_sets).any_bit(i)),
            ({
                let r = fill_step_spec(
                    old(self).connection_section_sets@,
                    traversal_dirs,
                    dir_index_spec(outgoing_dir),
                    old(self).outgoing_dir_section_sets,
                    *old(incoming_dir_section_sets),
                    *outward_direction_masks,
                    *angle_visibility_masks,
                    main_visibility_mask,
                );
                &&& final(self).outgoing_dir_section_sets == r.0
                &&& *final(incoming_dir_section_sets) == r.1
            }),
    {
        proof {
            crate::direction::lemma_contains_single(traversal_dirs, outgoing_dir);
        }
        if crate::bitset::contains_u8(traversal_dirs, outgoing_dir) {
            let ghost out0 = self.outgoing_dir_section_sets;
            let ghost inc0 = *incoming_dir_section_sets;
            let od_idx = crate::direction::to_index(outgoing_dir);
            let axis_index = crate::direction::index_dir_to_axis(od_idx);
            let opposite_dir = crate::direction::opposite(outgoing_dir);
            let opposite_dir_index = crate::direction::to_index(opposite_dir);

            self.find_outgoing_connections(
                traversal_dirs,
                outgoing_dir,
                incoming_dir_section_sets,
                outward_direction_masks.get_dir(od_idx),
                angle_visibility_masks.get_axis(axis_index),
            );
            let ghost og = gathered_out_spec(
                old(self).connection_section_sets@,
                traversal_dirs,
                od_idx as int,
                inc0,
                angle_visibility_masks.get(od_idx as int % 3),
                outward_direction_masks.get(od_idx as int),
                out0.get(od_idx as int),
            );
            proof {
                assert(self.outgoing_dir_section_sets == out0.set_spec(od_idx as int, og));
            }

            let outgoing_sections = self.outgoing_dir_section_sets.get_dir(od_idx);
            let shifted = match outgoing_dir {
                crate::direction::NEG_X => crate::sections::shift_neg_x(outgoing_sections),
                crate::direction::NEG_Y => crate::sections::shift_neg_y(outgoing_sections),
                crate::direction::NEG_Z => crate::sections::shift_neg_z(outgoing_sections),
                crate::direction::POS_X => crate::sections::shift_pos_x(outgoing_sections),
                crate::direction::POS_Y => crate::sections::shift_pos_y(outgoing_sections),
                _ => crate::sections::shift_pos_z(outgoing_sections),
            };
            let shifted_masked = shifted.and(&main_visibility_mask);
            let previous = incoming_dir_section_sets.get_dir(opposite_dir_index);
            let updated = previous.or(&shifted_masked);
            incoming_dir_section_sets.set_dir(opposite_dir_index, updated);
            proof {
                assert(outgoing_sections == og);
                assert(shifted == shift_dir_spec(od_idx as int, og));
                assert(opposite_dir_index as int == (od_idx as int + 3) % 6);
                assert(*incoming_dir_section_sets == inc0.set_spec(
                    (od_idx as int + 3) % 6,
                    crate::sections::spec_or(
                        inc0.get((od_idx as int + 3) % 6),
                        crate::sections::spec_and(shift_dir_spec(od_idx as int, og), main_visibility_mask),
                    ),
                ));
            }
        }
    }

    /// One round of the flood fill: every traversal direction pushed once, in
    /// the fixed negative-then-positive order.
    fn traverse_round(
        &mut self,
        traversal_dirs: u8,
        incoming_dir_section_sets: &mut DirectionSets,
        outward_direction_masks: &DirectionSets,
        angle_visibility_masks: &AngleMasks,
        main_visibility_mask: SectionSet,
    )
        requires
            old(self).wf(),
            is_dir_set(traversal_dirs),
        ensures
            final(self).wf(),
            final(self).connection_section_sets == old(self).connection_section_sets,
            final(self).processed == old(self).processed,
            forall|e: int, i: int|
                0 <= e < 6 && 0 <= i < 512 && #[trigger] old(incoming_dir_section_sets).get(
                    e,
                ).index_bit(i) ==> #[trigger] final(incoming_dir_section_sets).get(e).index_bit(i),
            forall|e: int, i: int|
                0 <= e < 6 && 0 <= i < 512 && #[trigger] final(incoming_dir_section_sets).get(
                    e,
                ).index_bit(i) ==> (old(incoming_dir_section_sets).get(e).index_bit(i)
                    || main_visibility_mask.index_bit(i)),
            forall|d: int, i: int|
                0 <= d < 6 && 0 <= i < 512 && #[trigger] final(self).outgoing_dir_section_sets.get(
                    d,
                ).index_bit(i) ==> (old(self).outgoing_dir_section_sets.get(d).index_bit(i)
                    || final(incoming_dir_section_sets).any_bit(i)),
            ({
                let r = fill_round_spec(
                    old(self).connection_section_sets@,
                    traversal_dirs,
                    old(self).outgoing_dir_section_sets,
                    *old(incoming_dir_section_sets),
                    *outward_direction_masks,
                    *angle_visibility_masks,
                    main_visibility_mask,
                );
                &&& final(self).outgoing_dir_section_sets == r.0
                &&& *final(incoming_dir_section_sets) == r.1
            }),
    {
        let ghost inc_s0 = *incoming_dir_section_sets;
        let ghost out_s0 = self.outgoing_dir_section_sets;
        self.try_traverse_dir(
            traversal_dirs,
            crate::direction::NEG_X,
            incoming_dir_section_sets,
            outward_direction_masks,
            angle_visibility_masks,
            main_visibility_mask,
        );
        let ghost inc_s1 = *incoming_dir_section_sets;
        let ghost out_s1 = self.outgoing_dir_section_sets;
        self.try_traverse_dir(
            traversal_dirs,
            crate::direction::NEG_Y,
            incoming_dir_section_sets,
            outward_direction_masks,
            angle_visibility_masks,
            main_visibility_mask,
        );
        let ghost inc_s2 = *incoming_dir_section_sets;
        let ghost out_s2 = self.outgoing_dir_section_sets;
        self.try_traverse_dir(
            traversal_dirs,
            crate::direction::NEG_Z,
            incoming_dir_section_sets,
            outward_direction_masks,
            angle_visibility_masks,
            main_visibility_mask,
        );
        let ghost inc_s3 = *incoming_dir_section_sets;
        let ghost out_s3 = self.outgoing_dir_section_sets;
        self.try_traverse_dir(
            traversal_dirs,
            crate::direction::POS_X,
            incoming_dir_section_sets,
            outward_direction_masks,
            angle_visibility_masks,
            main_visibility_mask,
        );
        let ghost inc_s4 = *incoming_dir_section_sets;
        let ghost out_s4 = self.outgoing_dir_section_sets;
        self.try_traverse_dir(
            traversal_dirs,
            crate::direction::POS_Y,
            incoming_dir_section_sets,
            outward_direction_masks,
            angle_visibility_masks,
            main_visibility_mask,
        );
        let ghost inc_s5 = *incoming_dir_section_sets;
        let ghost out_s5 = self.outgoing_dir_section_sets;
        self.try_traverse_dir(
            traversal_dirs,
            crate::direction::POS_Z,
            incoming_dir_section_sets,
            outward_direction_masks,
            angle_visibility_masks,
            main_visibility_mask,
        );
        proof {
            let conns = old(self).connection_section_sets@;
            let t0 = fill_step_spec(conns, traversal_dirs, 0, out_s0, inc_s0, *outward_direction_masks, *angle_visibility_masks, main_visibility_mask);
            assert(out_s1 == t0.0 && inc_s1 == t0.1);
            let t1 = fill_step_spec(conns, traversal_dirs, 1, out_s1, inc_s1, *outward_direction_masks, *angle_visibility_masks, main_visibility_mask);
            assert(out_s2 == t1.0 && inc_s2 == t1.1);
            let t2 = fill_step_spec(conns, traversal_dirs, 2, out_s2, inc_s2, *outward_direction_masks, *angle_visibility_masks, main_visibility_mask);
            assert(out_s3 == t2.0 && inc_s3 == t2.1);
            let t3 = fill_step_spec(conns, traversal_dirs, 3, out_s3, inc_s3, *outward_direction_masks, *angle_visibility_masks, main_visibility_mask);
            assert(out_s4 == t3.0 && inc_s4 == t3.1);
            let t4 = fill_step_spec(conns, traversal_dirs, 4, out_s4, inc_s4, *outward_direction_masks, *angle_visibility_masks, main_visibility_mask);
            assert(out_s5 == t4.0 && inc_s5 == t4.1);
            let t5 = fill_step_spec(conns, traversal_dirs, 5, out_s5, inc_s5, *outward_direction_masks, *angle_visibility_masks, main_visibility_mask);
            assert(self.outgoing_dir_section_sets == t5.0 && *incoming_dir_section_sets == t5.1);
            assert(fill_round_spec(conns, traversal_dirs, out_s0, inc_s0, *outward_direction_masks, *angle_visibility_masks, main_visibility_mask) == t5);
        }
        proof {
            let inc_s6 = *incoming_dir_section_sets;
            // incoming only grows across the round, and every gained section
            // was allowed by the visibility mask
            assert forall|e: int, i: int|
                0 <= e < 6 && 0 <= i < 512 && #[trigger] inc_s0.get(e).index_bit(i)
                    implies #[trigger] inc_s6.get(e).index_bit(i) by {
                assert(inc_s1.get(e).index_bit(i));
                assert(inc_s2.get(e).index_bit(i));
                assert(inc_s3.get(e).index_bit(i));
                assert(inc_s4.get(e).index_bit(i));
                assert(inc_s5.get(e).index_bit(i));
            }
            assert forall|e: int, i: int|
                0 <= e < 6 && 0 <= i < 512 && #[trigger] inc_s6.get(e).index_bit(i) implies (
            inc_s0.get(e).index_bit(i) || main_visibility_mask.index_bit(i)) by {
                if !main_visibility_mask.index_bit(i) {
                    assert(inc_s5.get(e).index_bit(i));
                    assert(inc_s4.get(e).index_bit(i));
                    assert(inc_s3.get(e).index_bit(i));
                    assert(inc_s2.get(e).index_bit(i));
                    assert(inc_s1.get(e).index_bit(i));
                }
            }
            assert forall|e: int, i: int|
                0 <= e < 6 && 0 <= i < 512 && #[trigger] inc_s1.get(e).index_bit(i)
                    implies #[trigger] inc_s6.get(e).index_bit(i) by {
                assert(inc_s2.get(e).index_bit(i));
                assert(inc_s3.get(e).index_bit(i));
                assert(inc_s4.get(e).index_bit(i));
                assert(inc_s5.get(e).index_bit(i));
            }
            assert forall|e: int, i: int|
                0 <= e < 6 && 0 <= i < 512 && #[trigger] inc_s2.get(e).index_bit(i)
                    implies #[trigger] inc_s6.get(e).index_bit(i) by {
                assert(inc_s3.get(e).index_bit(i));
                assert(inc_s4.get(e).index_bit(i));
                assert(inc_s5.get(e).index_bit(i));
            }
            assert forall|e: int, i: int|
                0 <= e < 6 && 0 <= i < 512 && #[trigger] inc_s3.get(e).index_bit(i)
                    implies #[trigger] inc_s6.get(e).index_bit(i) by {
                assert(inc_s4.get(e).index_bit(i));
                assert(inc_s5.get(e).index_bit(i));
            }
            assert forall|e: int, i: int|
                0 <= e < 6 && 0 <= i < 512 && #[trigger] inc_s4.get(e).index_bit(i)
                    implies #[trigger] inc_s6.get(e).index_bit(i) by {
                assert(inc_s5.get(e).index_bit(i));
            }
            // each outgoing cube was written by exactly one direction's pass,
            // and only with sections some incoming cube held at that moment
            assert forall|d: int, i: int|
                0 <= d < 6 && 0 <= i < 512 && #[trigger] self.outgoing_dir_section_sets.get(
                    d,
                ).index_bit(i) implies (out_s0.get(d).index_bit(i) || inc_s6.any_bit(i)) by {
                if d == 0 {
                    assert(self.outgoing_dir_section_sets.get(0) == out_s1.get(0));
                    if !out_s0.get(0).index_bit(i) {
                        assert(inc_s0.any_bit(i));
                        lemma_any_monotone(inc_s0, inc_s6, i);
                    }
                } else if d == 1 {
                    assert(self.outgoing_dir_section_sets.get(1) == out_s2.get(1));
                    assert(out_s1.get(1) == out_s0.get(1));
                    if !out_s0.get(1).index_bit(i) {
                        assert(inc_s1.any_bit(i));
                        lemma_any_monotone(inc_s1, inc_s6, i);
                    }
                } else if d == 2 {
                    assert(self.outgoing_dir_section_sets.get(2) == out_s3.get(2));
                    assert(out_s2.get(2) == out_s0.get(2));
                    if !out_s0.get(2).index_bit(i) {
                        assert(inc_s2.any_bit(i));
                        lemma_any_monotone(inc_s2, inc_s6, i);
                    }
                } else if d == 3 {
                    assert(self.outgoing_dir_section_sets.get(3) == out_s4.get(3));
                    assert(out_s3.get(3) == out_s0.get(3));
                    if !out_s0.get(3).index_bit(i) {
                        assert(inc_s3.any_bit(i));
                        lemma_any_monotone(inc_s3, inc_s6, i);
                    }
                } else if d == 4 {
                    assert(self.outgoing_dir_section_sets.get(4) == out_s5.get(4));
                    assert(out_s4.get(4) == out_s0.get(4));
                    if !out_s0.get(4).index_bit(i) {
                        assert(inc_s4.any_bit(i));
                        lemma_any_monotone(inc_s4, inc_s6, i);
                    }
                } else {
                    assert(out_s5.get(5) == out_s0.get(5));
                    if !out_s0.get(5).index_bit(i) {
                        assert(inc_s5.any_bit(i));
                        lemma_any_monotone(inc_s5, inc_s6, i);
                    }
                }
            }
        }
    }
}


impl Tile {
    /// The intra-tile occlusion flood fill. Starting from `start_sections`
    /// and the per-face incoming cubes, sections spread through the
    /// connection pairs and one step along each traversal direction, clipped
    /// by the tile's visibility mask, until a fixed point: exactly
    /// `fill_fix_spec`, the six-direction round iterated until no incoming
    /// cube changes. `visible_sections` then holds the start sections plus
    /// everything the fill reached, and every outgoing cube is a subset of
    /// it.
    pub fn traverse(
        &mut self,
        traversal_dirs: u8,
        start_sections: SectionSet,
        incoming_dir_section_sets: DirectionSets,
        outward_direction_masks: &DirectionSets,
        angle_visibility_masks: &AngleMasks,
        visible_sections: &mut SectionSet,
    )
        requires
            old(self).wf(),
            is_dir_set(traversal_dirs),
            forall|d: int, i: int|
                0 <= d < 6 && 0 <= i < 512 && #[trigger] old(self).outgoing_dir_section_sets.get(
                    d,
                ).index_bit(i) ==> start_sections.index_bit(i),
            forall|e: int, i: int|
                0 <= e < 6 && 0 <= i < 512 && #[trigger] incoming_dir_section_sets.get(
                    e,
                ).index_bit(i) ==> old(visible_sections).index_bit(i),
        ensures
            final(self).wf(),
            final(self).connection_section_sets == old(self).connection_section_sets,
            final(self).processed == old(self).processed,
            forall|i: int|
                0 <= i < 512 && start_sections.index_bit(i) ==> #[trigger] final(visible_sections).index_bit(i),
            forall|i: int|
                0 <= i < 512 && #[trigger] final(visible_sections).index_bit(i) ==> (
                start_sections.index_bit(i) || old(visible_sections).index_bit(i)),
            forall|d: int, i: int|
                0 <= d < 6 && 0 <= i < 512 && #[trigger] final(self).outgoing_dir_section_sets.get(
                    d,
                ).index_bit(i) ==> final(visible_sections).index_bit(i),
            ({
                let r = fill_fix_spec(
                    old(self).connection_section_sets@,
                    traversal_dirs,
                    old(self).outgoing_dir_section_sets,
                    incoming_dir_section_sets,
                    *outward_direction_masks,
                    *angle_visibility_masks,
                    *old(visible_sections),
                );
                &&& final(self).outgoing_dir_section_sets == r.0
                &&& *final(visible_sections) == union_with_spec(start_sections, r.1)
            }),
    {
        let main_visibility_mask = *visible_sections;
        let mut incoming = incoming_dir_section_sets;
        let ghost inc0 = incoming;
        let ghost t0 = *self;
        proof {
            lemma_total_count_bounds(incoming);
        }
        loop
            invariant_except_break
                fill_fix_spec(
                    t0.connection_section_sets@,
                    traversal_dirs,
                    self.outgoing_dir_section_sets,
                    incoming,
                    *outward_direction_masks,
                    *angle_visibility_masks,
                    main_visibility_mask,
                ) == fill_fix_spec(
                    t0.connection_section_sets@,
                    traversal_dirs,
                    t0.outgoing_dir_section_sets,
                    inc0,
                    *outward_direction_masks,
                    *angle_visibility_masks,
                    main_visibility_mask,
                ),
            invariant
                self.wf(),
                self.connection_section_sets == t0.connection_section_sets,
                self.processed == t0.processed,
                is_dir_set(traversal_dirs),
                0 <= total_count(incoming) <= 3072,
                forall|e: int, i: int|
                    0 <= e < 6 && 0 <= i < 512 && #[trigger] incoming.get(e).index_bit(i) ==> (
                    inc0.get(e).index_bit(i) || main_visibility_mask.index_bit(i)),
                forall|d: int, i: int|
                    0 <= d < 6 && 0 <= i < 512
                        && #[trigger] self.outgoing_dir_section_sets.get(d).index_bit(i) ==> (
                    t0.outgoing_dir_section_sets.get(d).index_bit(i) || incoming.any_bit(i)),
            ensures
                self.wf(),
                self.connection_section_sets == t0.connection_section_sets,
                self.processed == t0.processed,
                forall|e: int, i: int|
                    0 <= e < 6 && 0 <= i < 512 && #[trigger] incoming.get(e).index_bit(i) ==> (
                    inc0.get(e).index_bit(i) || main_visibility_mask.index_bit(i)),
                forall|d: int, i: int|
                    0 <= d < 6 && 0 <= i < 512
                        && #[trigger] self.outgoing_dir_section_sets.get(d).index_bit(i) ==> (
                    t0.outgoing_dir_section_sets.get(d).index_bit(i) || incoming.any_bit(i)),
                (self.outgoing_dir_section_sets, incoming) == fill_fix_spec(
                    t0.connection_section_sets@,
                    traversal_dirs,
                    t0.outgoing_dir_section_sets,
                    inc0,
                    *outward_direction_masks,
                    *angle_visibility_masks,
                    main_visibility_mask,
                ),
            decreases 3072 - total_count(incoming),
        {
            let snapshot = incoming;
            let ghost out_pre = self.outgoing_dir_section_sets;
            self.traverse_round(
                traversal_dirs,
                &mut incoming,
                outward_direction_masks,
                angle_visibility_masks,
                main_visibility_mask,
            );
            proof {
                // re-establish the outgoing bound against the grown incoming
                assert forall|d: int, i: int|
                    0 <= d < 6 && 0 <= i < 512
                        && #[trigger] self.outgoing_dir_section_sets.get(d).index_bit(i) implies (
                t0.outgoing_dir_section_sets.get(d).index_bit(i) || incoming.any_bit(i)) by {
                    if !incoming.any_bit(i) {
                        assert(out_pre.get(d).index_bit(i));
                        if snapshot.any_bit(i) {
                            lemma_any_monotone(snapshot, incoming, i);
                        }
                    }
                }
                lemma_total_count_bounds(incoming);
                // the round is exactly one unfolding of the fixed-point spec
                let conns = t0.connection_section_sets@;
                let r = fill_round_spec(
                    conns,
                    traversal_dirs,
                    out_pre,
                    snapshot,
                    *outward_direction_masks,
                    *angle_visibility_masks,
                    main_visibility_mask,
                );
                assert(self.outgoing_dir_section_sets == r.0 && incoming == r.1);
                if r.1 == snapshot {
                    assert(fill_fix_spec(
                        conns,
                        traversal_dirs,
                        out_pre,
                        snapshot,
                        *outward_direction_masks,
                        *angle_visibility_masks,
                        main_visibility_mask,
                    ) == (r.0, snapshot));
                } else {
                    assert(fill_fix_spec(
                        conns,
                        traversal_dirs,
                        out_pre,
                        snapshot,
                        *outward_direction_masks,
                        *angle_visibility_masks,
                        main_visibility_mask,
                    ) == fill_fix_spec(
                        conns,
                        traversal_dirs,
                        r.0,
                        r.1,
                        *outward_direction_masks,
                        *angle_visibility_masks,
                        main_visibility_mask,
                    ));
                }
            }
            let incoming_changed = !incoming.equals(&snapshot);
            if !incoming_changed {
                break;
            }
            proof {
                lemma_dirsets_growth(snapshot, incoming);
            }
        }
        let mut combined = start_sections;
        combined = combined.or(&incoming.get_dir(0));
        combined = combined.or(&incoming.get_dir(1));
        combined = combined.or(&incoming.get_dir(2));
        combined = combined.or(&incoming.get_dir(3));
        combined = combined.or(&incoming.get_dir(4));
        combined = combined.or(&incoming.get_dir(5));
        *visible_sections = combined;
        proof {
            assert(combined == union_with_spec(start_sections, incoming));
            assert forall|i: int|
                0 <= i < 512 && #[trigger] combined.index_bit(i) implies (
            start_sections.index_bit(i) || old(visible_sections).index_bit(i)) by {
                if !start_sections.index_bit(i) {
                    let e = choose|e: int| 0 <= e < 6 && incoming.get(e).index_bit(i);
                    assert(incoming.get(e).index_bit(i) ==> inc0.get(e).index_bit(i)
                        || main_visibility_mask.index_bit(i));
                }
            }
            assert forall|d: int, i: int|
                0 <= d < 6 && 0 <= i < 512 && #[trigger] self.outgoing_dir_section_sets.get(
                    d,
                ).index_bit(i) implies combined.index_bit(i) by {
                if !t0.outgoing_dir_section_sets.get(d).index_bit(i) {
                    let e = choose|e: int| 0 <= e < 6 && incoming.get(e).index_bit(i);
                    assert(combined.index_bit(i));
                }
            }
        }
    }
}

} // verus!
