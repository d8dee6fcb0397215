//! One frame of the pipeline: build the forward and back transforms
//! from the current interaction scalars, transform the control grid,
//! evaluate the tessellation, and walk it into drawing commands.
//!
//! The transforms need the sines and cosines of the rotation angles;
//! the host computes those (the library does no trigonometry) and hands
//! them in as fixed-point scalars.

use vstd::prelude::*;
use vstd::arithmetic::div_mod::lemma_div_is_ordered;
use vstd::arithmetic::div_mod::lemma_fundamental_div_mod_converse;
use vstd::arithmetic::div_mod::lemma_div_pos_is_pos;
use crate::fixed::SCALE;
use crate::fixed::FP_BOUND;
use crate::fixed::fp_mul;
use crate::fixed::fp_wf;
use crate::fixed::fp_mul_wide;
use crate::fixed::fp_recip;
use crate::transform::Op;
use crate::transform::op_wf;
use crate::transform::compose;
use crate::transform::compose_spec;
use crate::transform::compose_wf;
use crate::transform::apply_points;
use crate::transform::row_transformed;
use crate::transform::Point3H;
use crate::transform::some_image_unstorable;
use crate::bezier::GeomError;
use crate::bezier::grid_wf;
use crate::bezier::tessellation_of;
use crate::bezier::surf_coord;
use crate::bezier::param;
use crate::transform::app_row;
use crate::figure::Figure;
use crate::figure::DrawCmd;
use crate::figure::is_tile;
use crate::figure::is_marker;
use crate::figure::black;
use crate::figure::blue;
use crate::state::State;
use crate::state::SURFACE_ORDER;

verus! {

/// Fixed-point sines and cosines of the three rotation angles, supplied
/// by the host for the frame.
#[derive(Clone, Copy, PartialEq, Eq, Structural, Debug)]
pub struct TrigTable {
    pub sin_x: i64,
    pub cos_x: i64,
    pub sin_y: i64,
    pub cos_y: i64,
    pub sin_z: i64,
    pub cos_z: i64,
}

/// Every entry is a storable value of magnitude at most one.
pub open spec fn trig_wf(t: TrigTable) -> bool {
    &&& -SCALE <= t.sin_x <= SCALE && -SCALE <= t.cos_x <= SCALE
    &&& -SCALE <= t.sin_y <= SCALE && -SCALE <= t.cos_y <= SCALE
    &&& -SCALE <= t.sin_z <= SCALE && -SCALE <= t.cos_z <= SCALE
}

/// Negation of a storable scalar, stated at the stored width.
pub open spec fn neg64(x: i64) -> i64 {
    (-(x as int)) as i64
}

/// The frame's forward operation sequence: center the unit cube on the
/// origin, rotate about the three axes, scale by the zoom factor, and
/// translate to the canvas center.
pub open spec fn forward_ops(t: TrigTable, zf: i64, center: i64) -> Seq<Op> {
    seq![
        Op::Translate { x: -32768i64, y: -32768i64, z: -32768i64 },
        Op::RotateX { s: t.sin_x, c: t.cos_x },
        Op::RotateY { s: t.sin_y, c: t.cos_y },
        Op::RotateZ { s: t.sin_z, c: t.cos_z },
        Op::Scale { f: zf },
        Op::Translate { x: center, y: center, z: center },
    ]
}

/// The frame's back operation sequence: the forward sequence reversed,
/// with each primitive inverted (opposite translations, reciprocal
/// scale, negated angles).
pub open spec fn backward_ops(t: TrigTable, bz: i64, center: i64) -> Seq<Op> {
    seq![
        Op::Translate { x: neg64(center), y: neg64(center), z: neg64(center) },
        Op::Scale { f: bz },
        Op::RotateZ { s: neg64(t.sin_z), c: t.cos_z },
        Op::RotateY { s: neg64(t.sin_y), c: t.cos_y },
        Op::RotateX { s: neg64(t.sin_x), c: t.cos_x },
        Op::Translate { x: 32768, y: 32768, z: 32768 },
    ]
}

/// The first `rows * cols` commands paint the tiles of `surf`, which is
/// exactly the tessellation of the grid `g`.
pub open spec fn surface_tiles_of(
    cmds: Seq<DrawCmd>, g: Seq<Vec<Point3H>>, n: nat, rows: int, cols: int,
    surf: Seq<Vec<Point3H>>,
) -> bool {
    &&& tessellation_of(g, n, rows, cols, surf)
    &&& forall|t: int|
        0 <= t < rows * cols ==> is_tile(#[trigger] cmds[t], surf, t / cols, t % cols, black())
}

/// `s` is a forward image of the control grid under `m` whose exact
/// tessellation at resolution `(rows, cols)` has a coordinate outside
/// the storable range: the condition under which the surface evaluation
/// of a frame must fail.
pub open spec fn tessellation_overflow(
    m: Seq<int>, control: Seq<Vec<Point3H>>, rows: int, cols: int, s: Seq<Vec<Point3H>>,
) -> bool {
    &&& s.len() == control.len()
    &&& forall|a: int|
        0 <= a < control.len() ==> row_transformed(m, control[a]@, (#[trigger] s[a])@)
    &&& exists|ui: int, vj: int, ax: int|
        0 <= ui <= rows && 0 <= vj <= cols && 0 <= ax < 3 && !fp_wf(
            #[trigger] surf_coord(
                s, (control.len() - 1) as nat, param(ui, rows), param(vj, cols), ax),
        )
}

/// The exact condition under which a frame must fail with a range
/// error: some stage of the pipeline (the zoom products, a partial
/// composition of either op sequence, a transformed control coordinate,
/// or a tessellation coordinate of the transformed grid) has an exactly
/// computed value outside the storable range.  Kept opaque so that
/// callers reason through it as one fact.
#[verifier::opaque]
pub open spec fn frame_range_failure(
    mn: int, t: TrigTable, zoom: i64,
    control: Seq<Vec<Point3H>>, rows: int, cols: int,
) -> bool {
    let coef = mn * SCALE as int / 600;
    let center = mn * SCALE as int * 10 / 21;
    let zf = fp_mul(fp_mul(zoom as int, 163840), coef);
    let bz = (SCALE as int * SCALE as int) / zf;
    let fops = forward_ops(t, zf as i64, center as i64);
    ||| !fp_wf(fp_mul(zoom as int, 163840))
    ||| !fp_wf(zf)
    ||| !compose_wf(fops)
    ||| !compose_wf(backward_ops(t, bz as i64, center as i64))
    ||| some_image_unstorable(compose_spec(fops), control)
    ||| exists|s: Seq<Vec<Point3H>>| #[trigger] tessellation_overflow(
        compose_spec(fops), control, rows, cols, s)
}

/// A tessellation overflow of the forward-transformed control grid is
/// one of the frame's range-failure conditions.
proof fn lemma_failure_from_tessellation(
    mn: int, t: TrigTable, zoom: i64, control: Seq<Vec<Point3H>>, rows: int, cols: int,
    s: Seq<Vec<Point3H>>,
)
    requires
        tessellation_overflow(
            compose_spec(forward_ops(
                t,
                (fp_mul(fp_mul(zoom as int, 163840), mn * SCALE as int / 600)) as i64,
                (mn * SCALE as int * 10 / 21) as i64,
            )),
            control, rows, cols, s,
        ),
    ensures
        frame_range_failure(mn, t, zoom, control, rows, cols),
{
    reveal(frame_range_failure);
    let zf = fp_mul(fp_mul(zoom as int, 163840), mn * SCALE as int / 600);
    let fops = forward_ops(t, zf as i64, (mn * SCALE as int * 10 / 21) as i64);
    assert(exists|s2: Seq<Vec<Point3H>>| #[trigger] tessellation_overflow(
        compose_spec(fops), control, rows, cols, s2)) by {
        assert(tessellation_overflow(compose_spec(fops), control, rows, cols, s));
    };
}

/// Draws one frame.  On success the state holds the freshly composed
/// back-transform and the freshly transformed control grid, and the
/// returned commands paint the tessellated surface, the control net and
/// the control-point markers of exactly that grid, in that order.  On
/// any range failure (or a degenerate zoom) nothing changes at all.
#[verifier::rlimit(100)]
#[verifier::spinoff_prover]
pub fn handle_draw(
    canvas_width: i64,
    canvas_height: i64,
    trig: &TrigTable,
    state: &mut State,
) -> (r: Result<Vec<DrawCmd>, GeomError>)
    requires
        old(state).wf(),
        1 <= canvas_width <= 16384,
        1 <= canvas_height <= 16384,
        trig_wf(*trig),
    ensures
        final(state).wf(),
        ({
            let mn = (if canvas_width < canvas_height { canvas_width } else { canvas_height })
                as int;
            let coef = mn * SCALE / 600;
            let center = mn * SCALE * 10 / 21;
            let zf = fp_mul(fp_mul(old(state).zoom as int, 163840), coef);
            let bz = (SCALE as int * SCALE as int) / zf;
            let fops = forward_ops(*trig, zf as i64, center as i64);
            let bops = backward_ops(*trig, bz as i64, center as i64);
            let rows = old(state).parts_ox as int;
            let cols = old(state).parts_oy as int;
            let m = SURFACE_ORDER as int;
            match r {
                Ok(cmds) => {
                    &&& 1 <= zf <= FP_BOUND
                    &&& compose_wf(fops) && compose_wf(bops)
                    &&& final(state).back_transform.s() == compose_spec(bops)
                    &&& final(state).transformed_control_points@.len() == m
                    &&& forall|a: int|
                        0 <= a < m ==> row_transformed(
                            compose_spec(fops),
                            old(state).control_points@[a]@,
                            (#[trigger] final(state).transformed_control_points@[a])@,
                        )
                    &&& final(state).control_points@ == old(state).control_points@
                    &&& final(state).mouse_x == old(state).mouse_x
                    &&& final(state).mouse_y == old(state).mouse_y
                    &&& final(state).rotate_ox == old(state).rotate_ox
                    &&& final(state).rotate_oy == old(state).rotate_oy
                    &&& final(state).rotate_oz == old(state).rotate_oz
                    &&& final(state).parts_ox == old(state).parts_ox
                    &&& final(state).parts_oy == old(state).parts_oy
                    &&& final(state).zoom == old(state).zoom
                    &&& final(state).point_chosen == old(state).point_chosen
                    &&& cmds@.len() == rows * cols + (m - 1) * (m - 1) + m * m
                    &&& exists|surf: Seq<Vec<Point3H>>| #[trigger] surface_tiles_of(
                        cmds@, final(state).transformed_control_points@, (m - 1) as nat,
                        rows, cols, surf)
                    &&& forall|t: int|
                        0 <= t < (m - 1) * (m - 1) ==> is_tile(
                            #[trigger] cmds@[rows * cols + t],
                            final(state).transformed_control_points@, t / (m - 1), t % (m - 1),
                            blue())
                    &&& forall|t: int|
                        0 <= t < m * m ==> is_marker(
                            #[trigger] cmds@[rows * cols + (m - 1) * (m - 1) + t],
                            final(state).transformed_control_points@, t / m, t % m)
                },
                Err(_) => *final(state) == *old(state),
            }
        }),
        r == Err::<Vec<DrawCmd>, GeomError>(GeomError::DegenerateTransform) ==> ({
            let mn = (if canvas_width < canvas_height { canvas_width } else { canvas_height })
                as int;
            fp_mul(fp_mul(old(state).zoom as int, 163840), mn * SCALE / 600) < 1
        }),
        r == Err::<Vec<DrawCmd>, GeomError>(GeomError::RangeExceeded) ==> frame_range_failure(
            (if canvas_width < canvas_height { canvas_width } else { canvas_height }) as int,
            *trig, old(state).zoom, old(state).control_points@,
            old(state).parts_ox as int, old(state).parts_oy as int,
        ),
{
    let mn: i64 = if canvas_width < canvas_height {
        canvas_width
    } else {
        canvas_height
    };
    let coef_u: u64 = (mn as u64) * 65536 / 600;
    let center_u: u64 = (mn as u64) * 655360 / 21;
    proof {
        lemma_div_is_ordered(mn as int * 65536, 1073741824, 600);
        lemma_fundamental_div_mod_converse(1073741824, 600, 1789569, 424);
        lemma_div_pos_is_pos(mn as int * 65536, 600);
        lemma_div_is_ordered(65536, mn as int * 65536, 600);
        lemma_fundamental_div_mod_converse(65536, 600, 109, 136);
        lemma_div_is_ordered(mn as int * 655360, 10737418240, 21);
        lemma_fundamental_div_mod_converse(10737418240, 21, 511305630, 10);
        lemma_div_pos_is_pos(mn as int * 655360, 21);
        assert(mn as int * 655360 == mn as int * SCALE as int * 10);
    }
    let coef: i64 = coef_u as i64;
    let center: i64 = center_u as i64;
    let zf_w1: i128 = fp_mul_wide(state.zoom, 163840);
    if zf_w1 > FP_BOUND as i128 {
        proof {
            reveal(frame_range_failure);
            assert(!fp_wf(fp_mul(old(state).zoom as int, 163840)));
            assert(frame_range_failure(mn as int, *trig, old(state).zoom,
                old(state).control_points@, old(state).parts_ox as int,
                old(state).parts_oy as int));
        }
        return Err(GeomError::RangeExceeded);
    }
    proof {
        lemma_div_pos_is_pos(state.zoom as int * 163840, 65536);
    }
    let zf1: i64 = zf_w1 as i64;
    let zf_w2: i128 = fp_mul_wide(zf1, coef);
    if zf_w2 > FP_BOUND as i128 {
        proof {
            reveal(frame_range_failure);
            let mnspec = (if canvas_width < canvas_height {
                canvas_width
            } else {
                canvas_height
            }) as int;
            assert(coef as int == mnspec * SCALE as int / 600);
            assert(zf_w2 == fp_mul(fp_mul(old(state).zoom as int, 163840), coef as int));
            assert(!fp_wf(fp_mul(fp_mul(old(state).zoom as int, 163840),
                mnspec * SCALE as int / 600)));
            assert(frame_range_failure(mnspec, *trig, old(state).zoom,
                old(state).control_points@, old(state).parts_ox as int,
                old(state).parts_oy as int));
        }
        return Err(GeomError::RangeExceeded);
    }
    if zf_w2 < 1 {
        return Err(GeomError::DegenerateTransform);
    }
    let zf: i64 = zf_w2 as i64;
    let bz: i64 = fp_recip(zf);
    let fwd_ops_v: Vec<Op> = vec![
        Op::Translate { x: -32768i64, y: -32768i64, z: -32768i64 },
        Op::RotateX { s: trig.sin_x, c: trig.cos_x },
        Op::RotateY { s: trig.sin_y, c: trig.cos_y },
        Op::RotateZ { s: trig.sin_z, c: trig.cos_z },
        Op::Scale { f: zf },
        Op::Translate { x: center, y: center, z: center },
    ];
    let ncenter: i64 = -center;
    let nsx: i64 = -trig.sin_x;
    let nsy: i64 = -trig.sin_y;
    let nsz: i64 = -trig.sin_z;
    let back_ops_v: Vec<Op> = vec![
        Op::Translate { x: ncenter, y: ncenter, z: ncenter },
        Op::Scale { f: bz },
        Op::RotateZ { s: nsz, c: trig.cos_z },
        Op::RotateY { s: nsy, c: trig.cos_y },
        Op::RotateX { s: nsx, c: trig.cos_x },
        Op::Translate { x: 32768, y: 32768, z: 32768 },
    ];
    proof {
        assert(fwd_ops_v@ =~= forward_ops(*trig, zf, center));
        assert(back_ops_v@ =~= backward_ops(*trig, bz, center));
        assert(forall|k: int| 0 <= k < fwd_ops_v@.len() ==> op_wf(#[trigger] fwd_ops_v@[k]));
        assert(forall|k: int| 0 <= k < back_ops_v@.len() ==> op_wf(#[trigger] back_ops_v@[k]));
    }
    let fwd = match compose(&fwd_ops_v) {
        Some(mx) => mx,
        None => {
            proof {
                reveal(frame_range_failure);
                let mnspec = (if canvas_width < canvas_height {
                    canvas_width
                } else {
                    canvas_height
                }) as int;
                let zfspec = fp_mul(fp_mul(old(state).zoom as int, 163840),
                    mnspec * SCALE as int / 600);
                assert(coef as int == mnspec * SCALE as int / 600);
                assert(center as int == mnspec * SCALE as int * 10 / 21);
                assert(zf1 as int == fp_mul(old(state).zoom as int, 163840));
                assert(zf as int == zfspec);
                assert(zfspec as i64 == zf);
                assert((mnspec * SCALE as int * 10 / 21) as i64 == center);
                assert(bz as int == SCALE as int * SCALE as int / zfspec);
                assert((SCALE as int * SCALE as int / zfspec) as i64 == bz);
                assert(!compose_wf(fwd_ops_v@));
                assert(fwd_ops_v@ == forward_ops(*trig, zfspec as i64,
                    (mnspec * SCALE as int * 10 / 21) as i64));
                assert(frame_range_failure(mnspec, *trig, old(state).zoom,
                    old(state).control_points@, old(state).parts_ox as int,
                    old(state).parts_oy as int));
            }
            return Err(GeomError::RangeExceeded);
        },
    };
    let back = match compose(&back_ops_v) {
        Some(mx) => mx,
        None => {
            proof {
                reveal(frame_range_failure);
                let mnspec = (if canvas_width < canvas_height {
                    canvas_width
                } else {
                    canvas_height
                }) as int;
                let zfspec = fp_mul(fp_mul(old(state).zoom as int, 163840),
                    mnspec * SCALE as int / 600);
                assert(coef as int == mnspec * SCALE as int / 600);
                assert(center as int == mnspec * SCALE as int * 10 / 21);
                assert(zf1 as int == fp_mul(old(state).zoom as int, 163840));
                assert(zf as int == zfspec);
                assert(zfspec as i64 == zf);
                assert((mnspec * SCALE as int * 10 / 21) as i64 == center);
                assert(bz as int == SCALE as int * SCALE as int / zfspec);
                assert((SCALE as int * SCALE as int / zfspec) as i64 == bz);
                assert(!compose_wf(back_ops_v@));
                assert(back_ops_v@ == backward_ops(*trig,
                    (SCALE as int * SCALE as int / zfspec) as i64,
                    (mnspec * SCALE as int * 10 / 21) as i64));
                assert(frame_range_failure(mnspec, *trig, old(state).zoom,
                    old(state).control_points@, old(state).parts_ox as int,
                    old(state).parts_oy as int));
            }
            return Err(GeomError::RangeExceeded);
        },
    };
    let mut transformed: Vec<Vec<Point3H>> = Vec::new();
    let mut a: usize = 0;
    while a < SURFACE_ORDER
        invariant
            old(state).wf(),
            *state == *old(state),
            fwd.wf(),
            1 <= zf <= FP_BOUND,
            zf as int == fp_mul(fp_mul(old(state).zoom as int, 163840),
                ((if canvas_width < canvas_height { canvas_width } else { canvas_height })
                    as int) * SCALE as int / 600),
            center as int == ((if canvas_width < canvas_height {
                canvas_width
            } else {
                canvas_height
            }) as int) * SCALE as int * 10 / 21,
            fwd.s() == compose_spec(forward_ops(*trig, zf, center)),
            a <= SURFACE_ORDER,
            transformed@.len() == a,
            forall|c: int|
                0 <= c < a ==> row_transformed(
                    fwd.s(),
                    state.control_points@[c]@,
                    (#[trigger] transformed@[c])@,
                ),
            forall|c: int| 0 <= c < a ==> (#[trigger] transformed@[c])@.len() == SURFACE_ORDER,
        decreases SURFACE_ORDER - a,
    {
        match apply_points(&fwd, &state.control_points[a]) {
            Some(row) => {
                transformed.push(row);
            },
            None => {
                proof {
                    let g = state.control_points@;
                    let (k, r0) = choose|k: int, r0: int|
                        0 <= k < g[a as int]@.len() && 0 <= r0 < 4 && !fp_wf(
                            app_row(fwd.s(), g[a as int]@[k].x as int, g[a as int]@[k].y as int,
                                g[a as int]@[k].z as int, g[a as int]@[k].w as int, r0),
                        );
                    assert(some_image_unstorable(fwd.s(), g)) by {
                        assert(!fp_wf(app_row(fwd.s(), g[a as int]@[k].x as int,
                            g[a as int]@[k].y as int, g[a as int]@[k].z as int,
                            g[a as int]@[k].w as int, r0)));
                    };
                    reveal(frame_range_failure);
                    let mnspec = (if canvas_width < canvas_height {
                        canvas_width
                    } else {
                        canvas_height
                    }) as int;
                    let zfspec = fp_mul(fp_mul(old(state).zoom as int, 163840),
                        mnspec * SCALE as int / 600);
                    assert(zf as int == zfspec);
                    assert(zfspec as i64 == zf);
                    assert((mnspec * SCALE as int * 10 / 21) as i64 == center);
                    assert(fwd.s() == compose_spec(forward_ops(*trig, zfspec as i64,
                        (mnspec * SCALE as int * 10 / 21) as i64)));
                    assert(some_image_unstorable(compose_spec(forward_ops(*trig, zfspec as i64,
                        (mnspec * SCALE as int * 10 / 21) as i64)),
                        old(state).control_points@));
                    assert(frame_range_failure(mnspec, *trig,
                        old(state).zoom, old(state).control_points@,
                        old(state).parts_ox as int, old(state).parts_oy as int));
                }
                return Err(GeomError::RangeExceeded);
            },
        }
        a += 1;
    }
    proof {
        assert(grid_wf(transformed@, SURFACE_ORDER as int, SURFACE_ORDER as int));
    }
    let parts: (usize, usize) = (state.parts_ox, state.parts_oy);
    let ghost pre = transformed@;
    let fig = match Figure::new_bezier_surface(transformed, parts) {
        Ok(f) => f,
        Err(e) => {
            proof {
                let mnspec = (if canvas_width < canvas_height {
                    canvas_width
                } else {
                    canvas_height
                }) as int;
                let zfspec = fp_mul(fp_mul(old(state).zoom as int, 163840),
                    mnspec * SCALE as int / 600);
                let centerspec = mnspec * SCALE as int * 10 / 21;
                assert(zfspec as i64 == zf);
                assert(centerspec as i64 == center);
                let fops = forward_ops(*trig, zfspec as i64, centerspec as i64);
                assert(fops == forward_ops(*trig, zf, center));
                assert(tessellation_overflow(
                    compose_spec(fops), old(state).control_points@,
                    old(state).parts_ox as int, old(state).parts_oy as int, pre));
                lemma_failure_from_tessellation(
                    mnspec, *trig, old(state).zoom,
                    old(state).control_points@, old(state).parts_ox as int,
                    old(state).parts_oy as int, pre);
            }
            return Err(e);
        },
    };
    let cmds = fig.draw(parts);
    let ghost tg = fig.control_points@;
    let ghost sg = fig.surface_points@;
    state.back_transform = back;
    state.transformed_control_points = fig.control_points;
    proof {
        assert(state.transformed_control_points@ == tg);
        assert(zf1 as int == fp_mul(old(state).zoom as int, 163840));
        assert(zf as int == fp_mul(zf1 as int, coef as int));
        assert(surface_tiles_of(cmds@, tg, (SURFACE_ORDER - 1) as nat, parts.0 as int,
            parts.1 as int, sg));
        assert(exists|surf: Seq<Vec<Point3H>>| #[trigger] surface_tiles_of(
            cmds@, state.transformed_control_points@, (SURFACE_ORDER as int - 1) as nat,
            parts.0 as int, parts.1 as int, surf)) by {
            assert(surface_tiles_of(cmds@, state.transformed_control_points@,
                (SURFACE_ORDER as int - 1) as nat, parts.0 as int, parts.1 as int, sg));
        };
        assert(grid_wf(state.transformed_control_points@, SURFACE_ORDER as int,
            SURFACE_ORDER as int));
        let rowsi = old(state).parts_ox as int;
        let colsi = old(state).parts_oy as int;
        assert(cmds@.len() == rowsi * colsi + 9 + 16);
        assert forall|t: int| 0 <= t < 9 implies is_tile(
            #[trigger] cmds@[rowsi * colsi + t], state.transformed_control_points@, t / 3, t % 3,
            blue()) by {};
        assert forall|t: int| 0 <= t < 16 implies is_marker(
            #[trigger] cmds@[rowsi * colsi + 9 + t], state.transformed_control_points@, t / 4,
            t % 4) by {};
    }
    Ok(cmds)
}

} // verus!
