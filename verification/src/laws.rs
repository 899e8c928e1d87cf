//! Laws relating the library's operations to each other.
//!
//! These proof functions state, once and for the whole input space, the
//! structural facts the engine's correctness leans on: tile index packing is
//! a bijection, and carrying a face of a section cube to the opposite face
//! is the same as pushing the whole cube seven single steps across.

use vstd::prelude::*;

use crate::coords::GraphCoordSpace;
use crate::sections::edge_neg_to_pos_x_spec;
use crate::sections::edge_neg_to_pos_y_spec;
use crate::sections::edge_neg_to_pos_z_spec;
use crate::sections::edge_pos_to_neg_x_spec;
use crate::sections::edge_pos_to_neg_y_spec;
use crate::sections::edge_pos_to_neg_z_spec;
use crate::sections::lemma_edge_neg_to_pos_x_bits;
use crate::sections::lemma_edge_neg_to_pos_y_bits;
use crate::sections::lemma_edge_neg_to_pos_z_bits;
use crate::sections::lemma_edge_pos_to_neg_x_bits;
use crate::sections::lemma_edge_pos_to_neg_y_bits;
use crate::sections::lemma_edge_pos_to_neg_z_bits;
use crate::sections::lemma_eq_from_coords;
use crate::sections::lemma_shift_neg_x_bits;
use crate::sections::lemma_shift_neg_y_bits;
use crate::sections::lemma_shift_neg_z_bits;
use crate::sections::lemma_shift_pos_x_bits;
use crate::sections::lemma_shift_pos_y_bits;
use crate::sections::lemma_shift_pos_z_bits;
use crate::sections::shift_neg_x_spec;
use crate::sections::shift_neg_y_spec;
use crate::sections::shift_neg_z_spec;
use crate::sections::shift_pos_x_spec;
use crate::sections::shift_pos_y_spec;
use crate::sections::shift_pos_z_spec;
use crate::context::CameraArea;
use crate::context::GraphSearchContext;
use crate::coords::LocalTileCoords;
use crate::direction::dir_in_set;
use crate::graph::cull_steps_spec;
use crate::graph::edges_acc_spec;
use crate::graph::incoming_edge_spec;
use crate::graph::plan_preds_ok;
use crate::graph::step_coords_spec;
use crate::graph::visit_wf;
use crate::graph::TileGeometry;
use crate::graph::TileVisit;
use crate::sections::SectionSet;
use crate::tile::Tile;

verus! {

/// A cube shifted seven steps towards positive X: only the X = 0 column can
/// survive, landing on the X = 7 face.
pub open spec fn shift_pos_x_7(s: SectionSet) -> SectionSet {
    shift_pos_x_spec(
        shift_pos_x_spec(
            shift_pos_x_spec(
                shift_pos_x_spec(shift_pos_x_spec(shift_pos_x_spec(shift_pos_x_spec(s)))),
            ),
        ),
    )
}

pub open spec fn shift_neg_x_7(s: SectionSet) -> SectionSet {
    shift_neg_x_spec(
        shift_neg_x_spec(
            shift_neg_x_spec(
                shift_neg_x_spec(shift_neg_x_spec(shift_neg_x_spec(shift_neg_x_spec(s)))),
            ),
        ),
    )
}

pub open spec fn shift_pos_y_7(s: SectionSet) -> SectionSet {
    shift_pos_y_spec(
        shift_pos_y_spec(
            shift_pos_y_spec(
                shift_pos_y_spec(shift_pos_y_spec(shift_pos_y_spec(shift_pos_y_spec(s)))),
            ),
        ),
    )
}

pub open spec fn shift_neg_y_7(s: SectionSet) -> SectionSet {
    shift_neg_y_spec(
        shift_neg_y_spec(
            shift_neg_y_spec(
                shift_neg_y_spec(shift_neg_y_spec(shift_neg_y_spec(shift_neg_y_spec(s)))),
            ),
        ),
    )
}

pub open spec fn shift_pos_z_7(s: SectionSet) -> SectionSet {
    shift_pos_z_spec(
        shift_pos_z_spec(
            shift_pos_z_spec(
                shift_pos_z_spec(shift_pos_z_spec(shift_pos_z_spec(shift_pos_z_spec(s)))),
            ),
        ),
    )
}

pub open spec fn shift_neg_z_7(s: SectionSet) -> SectionSet {
    shift_neg_z_spec(
        shift_neg_z_spec(
            shift_neg_z_spec(
                shift_neg_z_spec(shift_neg_z_spec(shift_neg_z_spec(shift_neg_z_spec(s)))),
            ),
        ),
    )
}

/// Face transfer towards positive X is seven single shifts: what the
/// negative face held lands on the positive face, everything else drains
/// out.
pub proof fn law_edge_is_seven_shifts_pos_x(s: SectionSet)
    ensures
        edge_neg_to_pos_x_spec(s) == shift_pos_x_7(s),
        forall|x: u64, y: u64, z: u64|
            x < 8 && y < 8 && z < 8 && #[trigger] edge_neg_to_pos_x_spec(s).bit(x, y, z) ==> x == 7,
{
    lemma_edge_neg_to_pos_x_bits(s);
    lemma_shift_pos_x_bits(s);
    lemma_shift_pos_x_bits(shift_pos_x_spec(s));
    lemma_shift_pos_x_bits(shift_pos_x_spec(shift_pos_x_spec(s)));
    lemma_shift_pos_x_bits(shift_pos_x_spec(shift_pos_x_spec(shift_pos_x_spec(s))));
    lemma_shift_pos_x_bits(
        shift_pos_x_spec(shift_pos_x_spec(shift_pos_x_spec(shift_pos_x_spec(s)))),
    );
    lemma_shift_pos_x_bits(
        shift_pos_x_spec(shift_pos_x_spec(shift_pos_x_spec(shift_pos_x_spec(shift_pos_x_spec(s))))),
    );
    lemma_shift_pos_x_bits(
        shift_pos_x_spec(
            shift_pos_x_spec(
                shift_pos_x_spec(shift_pos_x_spec(shift_pos_x_spec(shift_pos_x_spec(s)))),
            ),
        ),
    );
    lemma_eq_from_coords(edge_neg_to_pos_x_spec(s), shift_pos_x_7(s));
}

/// Face transfer towards negative X is seven single shifts the other way.
pub proof fn law_edge_is_seven_shifts_neg_x(s: SectionSet)
    ensures
        edge_pos_to_neg_x_spec(s) == shift_neg_x_7(s),
        forall|x: u64, y: u64, z: u64|
            x < 8 && y < 8 && z < 8 && #[trigger] edge_pos_to_neg_x_spec(s).bit(x, y, z) ==> x == 0,
{
    lemma_edge_pos_to_neg_x_bits(s);
    lemma_shift_neg_x_bits(s);
    lemma_shift_neg_x_bits(shift_neg_x_spec(s));
    lemma_shift_neg_x_bits(shift_neg_x_spec(shift_neg_x_spec(s)));
    lemma_shift_neg_x_bits(shift_neg_x_spec(shift_neg_x_spec(shift_neg_x_spec(s))));
    lemma_shift_neg_x_bits(
        shift_neg_x_spec(shift_neg_x_spec(shift_neg_x_spec(shift_neg_x_spec(s)))),
    );
    lemma_shift_neg_x_bits(
        shift_neg_x_spec(shift_neg_x_spec(shift_neg_x_spec(shift_neg_x_spec(shift_neg_x_spec(s))))),
    );
    lemma_shift_neg_x_bits(
        shift_neg_x_spec(
            shift_neg_x_spec(
                shift_neg_x_spec(shift_neg_x_spec(shift_neg_x_spec(shift_neg_x_spec(s)))),
            ),
        ),
    );
    lemma_eq_from_coords(edge_pos_to_neg_x_spec(s), shift_neg_x_7(s));
}

/// Face transfer towards positive Y is seven single shifts.
pub proof fn law_edge_is_seven_shifts_pos_y(s: SectionSet)
    ensures
        edge_neg_to_pos_y_spec(s) == shift_pos_y_7(s),
        forall|x: u64, y: u64, z: u64|
            x < 8 && y < 8 && z < 8 && #[trigger] edge_neg_to_pos_y_spec(s).bit(x, y, z) ==> y == 7,
{
    lemma_edge_neg_to_pos_y_bits(s);
    lemma_shift_pos_y_bits(s);
    lemma_shift_pos_y_bits(shift_pos_y_spec(s));
    lemma_shift_pos_y_bits(shift_pos_y_spec(shift_pos_y_spec(s)));
    lemma_shift_pos_y_bits(shift_pos_y_spec(shift_pos_y_spec(shift_pos_y_spec(s))));
    lemma_shift_pos_y_bits(
        shift_pos_y_spec(shift_pos_y_spec(shift_pos_y_spec(shift_pos_y_spec(s)))),
    );
    lemma_shift_pos_y_bits(
        shift_pos_y_spec(shift_pos_y_spec(shift_pos_y_spec(shift_pos_y_spec(shift_pos_y_spec(s))))),
    );
    lemma_shift_pos_y_bits(
        shift_pos_y_spec(
            shift_pos_y_spec(
                shift_pos_y_spec(shift_pos_y_spec(shift_pos_y_spec(shift_pos_y_spec(s)))),
            ),
        ),
    );
    lemma_eq_from_coords(edge_neg_to_pos_y_spec(s), shift_pos_y_7(s));
}

/// Face transfer towards negative Y is seven single shifts.
pub proof fn law_edge_is_seven_shifts_neg_y(s: SectionSet)
    ensures
        edge_pos_to_neg_y_spec(s) == shift_neg_y_7(s),
        forall|x: u64, y: u64, z: u64|
            x < 8 && y < 8 && z < 8 && #[trigger] edge_pos_to_neg_y_spec(s).bit(x, y, z) ==> y == 0,
{
    lemma_edge_pos_to_neg_y_bits(s);
    lemma_shift_neg_y_bits(s);
    lemma_shift_neg_y_bits(shift_neg_y_spec(s));
    lemma_shift_neg_y_bits(shift_neg_y_spec(shift_neg_y_spec(s)));
    lemma_shift_neg_y_bits(shift_neg_y_spec(shift_neg_y_spec(shift_neg_y_spec(s))));
    lemma_shift_neg_y_bits(
        shift_neg_y_spec(shift_neg_y_spec(shift_neg_y_spec(shift_neg_y_spec(s)))),
    );
    lemma_shift_neg_y_bits(
        shift_neg_y_spec(shift_neg_y_spec(shift_neg_y_spec(shift_neg_y_spec(shift_neg_y_spec(s))))),
    );
    lemma_shift_neg_y_bits(
        shift_neg_y_spec(
            shift_neg_y_spec(
                shift_neg_y_spec(shift_neg_y_spec(shift_neg_y_spec(shift_neg_y_spec(s)))),
            ),
        ),
    );
    lemma_eq_from_coords(edge_pos_to_neg_y_spec(s), shift_neg_y_7(s));
}

/// Face transfer towards positive Z is seven single shifts.
pub proof fn law_edge_is_seven_shifts_pos_z(s: SectionSet)
    ensures
        edge_neg_to_pos_z_spec(s) == shift_pos_z_7(s),
        forall|x: u64, y: u64, z: u64|
            x < 8 && y < 8 && z < 8 && #[trigger] edge_neg_to_pos_z_spec(s).bit(x, y, z) ==> z == 7,
{
    lemma_edge_neg_to_pos_z_bits(s);
    lemma_shift_pos_z_bits(s);
    lemma_shift_pos_z_bits(shift_pos_z_spec(s));
    lemma_shift_pos_z_bits(shift_pos_z_spec(shift_pos_z_spec(s)));
    lemma_shift_pos_z_bits(shift_pos_z_spec(shift_pos_z_spec(shift_pos_z_spec(s))));
    lemma_shift_pos_z_bits(
        shift_pos_z_spec(shift_pos_z_spec(shift_pos_z_spec(shift_pos_z_spec(s)))),
    );
    lemma_shift_pos_z_bits(
        shift_pos_z_spec(shift_pos_z_spec(shift_pos_z_spec(shift_pos_z_spec(shift_pos_z_spec(s))))),
    );
    lemma_shift_pos_z_bits(
        shift_pos_z_spec(
            shift_pos_z_spec(
                shift_pos_z_spec(shift_pos_z_spec(shift_pos_z_spec(shift_pos_z_spec(s)))),
            ),
        ),
    );
    lemma_eq_from_coords(edge_neg_to_pos_z_spec(s), shift_pos_z_7(s));
}

/// Face transfer towards negative Z is seven single shifts.
pub proof fn law_edge_is_seven_shifts_neg_z(s: SectionSet)
    ensures
        edge_pos_to_neg_z_spec(s) == shift_neg_z_7(s),
        forall|x: u64, y: u64, z: u64|
            x < 8 && y < 8 && z < 8 && #[trigger] edge_pos_to_neg_z_spec(s).bit(x, y, z) ==> z == 0,
{
    lemma_edge_pos_to_neg_z_bits(s);
    lemma_shift_neg_z_bits(s);
    lemma_shift_neg_z_bits(shift_neg_z_spec(s));
    lemma_shift_neg_z_bits(shift_neg_z_spec(shift_neg_z_spec(s)));
    lemma_shift_neg_z_bits(shift_neg_z_spec(shift_neg_z_spec(shift_neg_z_spec(s))));
    lemma_shift_neg_z_bits(
        shift_neg_z_spec(shift_neg_z_spec(shift_neg_z_spec(shift_neg_z_spec(s)))),
    );
    lemma_shift_neg_z_bits(
        shift_neg_z_spec(shift_neg_z_spec(shift_neg_z_spec(shift_neg_z_spec(shift_neg_z_spec(s))))),
    );
    lemma_shift_neg_z_bits(
        shift_neg_z_spec(
            shift_neg_z_spec(
                shift_neg_z_spec(shift_neg_z_spec(shift_neg_z_spec(shift_neg_z_spec(s)))),
            ),
        ),
    );
    lemma_eq_from_coords(edge_pos_to_neg_z_spec(s), shift_neg_z_7(s));
}

/// Packing is onto: every index below the tile total is the packed index of
/// exactly the in-array position it unpacks to.
pub proof fn law_unpack_pack(cs: GraphCoordSpace, i: int)
    requires
        cs.wf(),
        0 <= i < cs.total_tiles(),
    ensures
        cs.in_array(cs.spec_unpack(i)),
        cs.spec_pack(cs.spec_unpack(i)) == i,
{
    let xz = cs.xz();
    vstd::arithmetic::div_mod::lemma_fundamental_div_mod(i, xz);
    vstd::arithmetic::div_mod::lemma_fundamental_div_mod(i / xz, xz);
    assert(0 <= i % xz < xz);
    assert(0 <= (i / xz) % xz < xz);
    assert(i / (xz * xz) == (i / xz) / xz) by {
        vstd::arithmetic::div_mod::lemma_div_denominator(i, xz, xz);
    }
    assert(0 <= i / xz < cs.y_len() * xz) by (nonlinear_arith)
        requires
            0 <= i < cs.y_len() * xz * xz,
            2 <= xz,
            i == xz * (i / xz) + i % xz,
            0 <= i % xz < xz,
    ;
    assert(0 <= (i / xz) / xz < cs.y_len()) by (nonlinear_arith)
        requires
            0 <= i / xz < cs.y_len() * xz,
            2 <= xz,
            i / xz == xz * ((i / xz) / xz) + (i / xz) % xz,
            0 <= (i / xz) % xz < xz,
    ;
    let c = cs.spec_unpack(i);
    assert(c.x == i % xz && c.z == (i / xz) % xz && c.y == (i / xz) / xz);
    vstd::arithmetic::div_mod::lemma_small_mod((i % xz) as nat, xz as nat);
    vstd::arithmetic::div_mod::lemma_small_mod(((i / xz) % xz) as nat, xz as nat);
    assert(cs.spec_pack(c) == (c.y as int) * xz * xz + (c.z as int) * xz + (c.x as int));
    assert((c.y as int) * xz * xz + (c.z as int) * xz + (c.x as int) == i) by (nonlinear_arith)
        requires
            c.x == i % xz,
            c.z == (i / xz) % xz,
            c.y == (i / xz) / xz,
            i == xz * (i / xz) + i % xz,
            i / xz == xz * ((i / xz) / xz) + (i / xz) % xz,
    ;
}

/// The packed index of any planned position is inside the tile array.
proof fn lemma_pack_in_range(cs: GraphCoordSpace, c: LocalTileCoords)
    requires
        cs.wf(),
        0 <= c.y < cs.y_len(),
    ensures
        0 <= cs.spec_pack(c) < cs.total_tiles(),
{
    let w = LocalTileCoords {
        x: ((c.x as int) % cs.xz()) as i8,
        y: c.y,
        z: ((c.z as int) % cs.xz()) as i8,
    };
    crate::coords::lemma_pack_unpack(cs, w);
    crate::coords::lemma_pack_wraps(cs, c, w);
}

/// An incoming edge reads only the facing neighbor's outgoing cube, so two
/// tile arrays that agree there give the same edge.
proof fn lemma_incoming_edge_congruent(
    t1: Seq<Tile>,
    t2: Seq<Tile>,
    cs: GraphCoordSpace,
    oob: SectionSet,
    area: CameraArea,
    coords: LocalTileCoords,
    d: int,
)
    requires
        t1.len() == t2.len(),
        0 <= d < 6,
        !((d == 4 && coords.y == cs.y_len() - 1) || (d == 1 && coords.y == 0)) ==> ({
            let n = cs.spec_pack(step_coords_spec(coords, d));
            &&& 0 <= n < t1.len()
            &&& t1[n].outgoing_dir_section_sets == t2[n].outgoing_dir_section_sets
        }),
    ensures
        incoming_edge_spec(t1, cs, oob, area, coords, d) == incoming_edge_spec(
            t2,
            cs,
            oob,
            area,
            coords,
            d,
        ),
{
}

/// The gathered incoming edges agree whenever every present face's edge
/// agrees.
proof fn lemma_edges_acc_congruent(
    t1: Seq<Tile>,
    t2: Seq<Tile>,
    cs: GraphCoordSpace,
    oob: SectionSet,
    area: CameraArea,
    coords: LocalTileCoords,
    dirs: u8,
    vis: SectionSet,
    start: SectionSet,
    sets: crate::tile::DirectionSets,
    e: int,
)
    requires
        t1.len() == t2.len(),
        forall|d: int|
            0 <= d < 6 && #[trigger] dir_in_set(dirs, d) ==> incoming_edge_spec(
                t1,
                cs,
                oob,
                area,
                coords,
                d,
            ) == incoming_edge_spec(t2, cs, oob, area, coords, d),
    ensures
        edges_acc_spec(t1, cs, oob, area, coords, dirs, vis, start, sets, e) == edges_acc_spec(
            t2,
            cs,
            oob,
            area,
            coords,
            dirs,
            vis,
            start,
            sets,
            e,
        ),
    decreases 6 - e,
{
    if 0 <= e < 6 {
        if dir_in_set(dirs, e) {
            let edge = crate::sections::spec_and(
                incoming_edge_spec(t1, cs, oob, area, coords, e),
                vis,
            );
            lemma_edges_acc_congruent(
                t1,
                t2,
                cs,
                oob,
                area,
                coords,
                dirs,
                vis,
                crate::sections::spec_or(start, edge),
                sets.set_spec(e, edge),
                e + 1,
            );
        } else {
            lemma_edges_acc_congruent(t1, t2, cs, oob, area, coords, dirs, vis, start, sets, e + 1);
        }
    }
}

/// Culling is deterministic: over any predecessors-first plan of
/// well-formed visits, starting from tiles none of which is processed, the
/// emitted list depends only on the connection cubes, the context, the plan
/// and the geometry - never on the stale outgoing cubes an earlier cull left
/// behind. Each visit reads outgoing cubes only from tiles an earlier visit
/// rewrote, or zeroes its own before reading.
pub proof fn law_cull_deterministic(
    cs: GraphCoordSpace,
    top: SectionSet,
    oob: SectionSet,
    context: GraphSearchContext,
    plan: Seq<TileVisit>,
    geometry: Seq<TileGeometry>,
    ta: Seq<Tile>,
    tb: Seq<Tile>,
    n: int,
)
    requires
        cs.wf(),
        0 <= n <= plan.len(),
        geometry.len() == plan.len(),
        forall|k: int| 0 <= k < plan.len() ==> visit_wf(#[trigger] plan[k], cs),
        plan_preds_ok(plan, cs),
        ta.len() == cs.total_tiles(),
        tb.len() == ta.len(),
        forall|k: int|
            0 <= k < ta.len() ==> (#[trigger] ta[k]).connection_section_sets
                == tb[k].connection_section_sets,
        forall|k: int| 0 <= k < ta.len() ==> !(#[trigger] ta[k]).processed && !tb[k].processed,
    ensures
        ({
            let ra = cull_steps_spec(cs, top, oob, context, plan, geometry, ta, Seq::empty(), n);
            let rb = cull_steps_spec(cs, top, oob, context, plan, geometry, tb, Seq::empty(), n);
            &&& ra.1 == rb.1
            &&& ra.0.len() == ta.len()
            &&& rb.0.len() == ta.len()
            &&& forall|k: int|
                0 <= k < ta.len() ==> (#[trigger] ra.0[k]).connection_section_sets
                    == rb.0[k].connection_section_sets
            &&& forall|k: int|
                0 <= k < ta.len() ==> (#[trigger] ra.0[k]).processed == rb.0[k].processed
            &&& forall|k: int|
                0 <= k < ta.len() ==> ((#[trigger] ra.0[k]).processed <==> exists|j: int|
                    0 <= j < n && cs.spec_pack(plan[j].coords) == k)
            &&& context.use_occlusion_culling ==> (forall|k: int|
                0 <= k < ta.len() && (#[trigger] ra.0[k]).processed
                    ==> ra.0[k].outgoing_dir_section_sets == rb.0[k].outgoing_dir_section_sets)
        }),
    decreases n,
{
    if n > 0 {
        law_cull_deterministic(cs, top, oob, context, plan, geometry, ta, tb, n - 1);
        let pa = cull_steps_spec(cs, top, oob, context, plan, geometry, ta, Seq::empty(), n - 1);
        let pb = cull_steps_spec(cs, top, oob, context, plan, geometry, tb, Seq::empty(), n - 1);
        let v = plan[n - 1];
        let geom = geometry[n - 1];
        let k = cs.spec_pack(v.coords);
        assert(visit_wf(v, cs));
        lemma_pack_in_range(cs, v.coords);
        if pa.0[k].processed {
            assert forall|kk: int| 0 <= kk < ta.len() implies ((#[trigger] cull_steps_spec(
                cs,
                top,
                oob,
                context,
                plan,
                geometry,
                ta,
                Seq::empty(),
                n,
            ).0[kk]).processed <==> exists|j: int|
                0 <= j < n && cs.spec_pack(plan[j].coords) == kk) by {
                if exists|j: int| 0 <= j < n && cs.spec_pack(plan[j].coords) == kk {
                    let j = choose|j: int| 0 <= j < n && cs.spec_pack(plan[j].coords) == kk;
                    if j == n - 1 {
                        assert(pa.0[kk].processed);
                    }
                }
            }
        } else {
            let t_a = pa.0[k];
            let t_b = pb.0[k];
            assert(t_a.connection_section_sets == t_b.connection_section_sets);
            if !geom.test_result.is_outside_spec() && context.use_occlusion_culling
                && v.incoming_dirs != 0 {
                let cut = crate::graph::pt_cut_spec(top, geom.test_result, geom.cut_mask);
                let t1a = pa.0.update(
                    k,
                    Tile {
                        connection_section_sets: t_a.connection_section_sets,
                        outgoing_dir_section_sets: crate::tile::dirsets_empty_spec(),
                        processed: true,
                    },
                );
                let t1b = pb.0.update(
                    k,
                    Tile {
                        connection_section_sets: t_b.connection_section_sets,
                        outgoing_dir_section_sets: crate::tile::dirsets_empty_spec(),
                        processed: true,
                    },
                );
                assert forall|d: int| 0 <= d < 6 && #[trigger] dir_in_set(v.incoming_dirs, d)
                    implies incoming_edge_spec(t1a, cs, oob, context.camera_area, v.coords, d)
                    == incoming_edge_spec(t1b, cs, oob, context.camera_area, v.coords, d) by {
                    if !((d == 4 && v.coords.y == cs.y_len() - 1) || (d == 1 && v.coords.y == 0)) {
                        let sc = step_coords_spec(v.coords, d);
                        assert(0 <= sc.y < cs.y_len());
                        lemma_pack_in_range(cs, sc);
                        let nb = cs.spec_pack(sc);
                        if nb != k {
                            // predecessors first: the neighbor was processed
                            // by an earlier visit, so its outgoing cubes
                            // agree between the two runs
                            assert(crate::graph::visit_pred_ok(plan, n - 1, d, cs));
                            let p = choose|p: int|
                                0 <= p < n - 1 && (#[trigger] plan[p]).coords == sc;
                            assert(cs.spec_pack(plan[p].coords) == nb);
                            assert(pa.0[nb].processed);
                            assert(t1a[nb].outgoing_dir_section_sets
                                == t1b[nb].outgoing_dir_section_sets);
                        } else {
                            assert(t1a[nb].outgoing_dir_section_sets
                                == t1b[nb].outgoing_dir_section_sets);
                        }
                        lemma_incoming_edge_congruent(
                            t1a,
                            t1b,
                            cs,
                            oob,
                            context.camera_area,
                            v.coords,
                            d,
                        );
                    }
                }
                lemma_edges_acc_congruent(
                    t1a,
                    t1b,
                    cs,
                    oob,
                    context.camera_area,
                    v.coords,
                    v.incoming_dirs,
                    cut,
                    SectionSet::empty_spec(),
                    crate::tile::dirsets_empty_spec(),
                    0,
                );
            }
            let r_a = crate::graph::pt_result_spec(
                pa.0,
                cs,
                top,
                oob,
                context,
                v.coords,
                v.incoming_dirs,
                v.traversal_dirs,
                geom.test_result,
                geom.cut_mask,
                geom.angle_visibility_masks,
            );
            let r_b = crate::graph::pt_result_spec(
                pb.0,
                cs,
                top,
                oob,
                context,
                v.coords,
                v.incoming_dirs,
                v.traversal_dirs,
                geom.test_result,
                geom.cut_mask,
                geom.angle_visibility_masks,
            );
            assert(r_a.1 == r_b.1 && r_a.2 == r_b.2);
            assert(context.use_occlusion_culling ==> r_a.0 == r_b.0);
            assert forall|kk: int| 0 <= kk < ta.len() implies ((#[trigger] cull_steps_spec(
                cs,
                top,
                oob,
                context,
                plan,
                geometry,
                ta,
                Seq::empty(),
                n,
            ).0[kk]).processed <==> exists|j: int|
                0 <= j < n && cs.spec_pack(plan[j].coords) == kk) by {
                let na = cull_steps_spec(
                    cs,
                    top,
                    oob,
                    context,
                    plan,
                    geometry,
                    ta,
                    Seq::empty(),
                    n,
                ).0;
                if na[kk].processed {
                    if kk == k {
                        assert(cs.spec_pack(plan[n - 1].coords) == kk);
                    } else {
                        assert(pa.0[kk].processed);
                    }
                } else {
                    if exists|j: int| 0 <= j < n && cs.spec_pack(plan[j].coords) == kk {
                        let j = choose|j: int| 0 <= j < n && cs.spec_pack(plan[j].coords) == kk;
                        if j == n - 1 {
                            assert(kk == k);
                        } else {
                            assert(pa.0[kk].processed);
                        }
                        assert(false);
                    }
                }
            }
        }
    }
}

/// Culling twice with the same connection cubes, context, plan and geometry
/// emits the same list, whatever per-frame state an earlier cull left in
/// the outgoing cubes: a cull's output (the fold its contract names, over
/// its cleared tiles) is a function of the connections and the inputs
/// alone.
pub proof fn law_cull_idempotent(
    cs: GraphCoordSpace,
    top: SectionSet,
    oob: SectionSet,
    context: GraphSearchContext,
    plan: Seq<TileVisit>,
    geometry: Seq<TileGeometry>,
    ta: Seq<Tile>,
    tb: Seq<Tile>,
)
    requires
        cs.wf(),
        geometry.len() == plan.len(),
        forall|k: int| 0 <= k < plan.len() ==> visit_wf(#[trigger] plan[k], cs),
        plan_preds_ok(plan, cs),
        ta.len() == cs.total_tiles(),
        tb.len() == ta.len(),
        forall|k: int|
            0 <= k < ta.len() ==> (#[trigger] ta[k]).connection_section_sets
                == tb[k].connection_section_sets,
    ensures
        cull_steps_spec(
            cs,
            top,
            oob,
            context,
            plan,
            geometry,
            crate::graph::cleared_tiles_spec(ta),
            Seq::empty(),
            plan.len() as int,
        ).1 == cull_steps_spec(
            cs,
            top,
            oob,
            context,
            plan,
            geometry,
            crate::graph::cleared_tiles_spec(tb),
            Seq::empty(),
            plan.len() as int,
        ).1,
{
    law_cull_deterministic(
        cs,
        top,
        oob,
        context,
        plan,
        geometry,
        crate::graph::cleared_tiles_spec(ta),
        crate::graph::cleared_tiles_spec(tb),
        plan.len() as int,
    );
}

} // verus!
