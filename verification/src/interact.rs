//! Pointer interaction: the picking state machine.
//!
//! A press grabs the control point under the cursor (the grid is scanned
//! in row-major order and the last point within the pick radius wins the
//! tie), a release frees it unconditionally,
//! and motion either orbits the scene (nothing grabbed) or drags the
//! grabbed point in the screen plane, re-deriving its control row through
//! the current back-transform.

use vstd::prelude::*;
use vstd::arithmetic::div_mod::lemma_fundamental_div_mod;
use vstd::arithmetic::div_mod::lemma_fundamental_div_mod_converse;
use vstd::arithmetic::div_mod::lemma_div_is_ordered;
use crate::fixed::FP_BOUND;
use crate::fixed::fp_wf;
use crate::fixed::div_floor;
use crate::bezier::GeomError;
use crate::transform::Point3H;
use crate::transform::point_wf;
use crate::transform::app_row;
use crate::transform::apply_points;
use crate::state::State;
use crate::state::Picked;
use crate::state::SURFACE_ORDER;

verus! {

/// Squared pick radius: 10 screen units, in squared fixed-point units
/// (100 * SCALE * SCALE).
pub const PICK_RADIUS_SQ: i64 = 429496729600;

/// The press position is within the pick radius of the point's projected
/// screen position.
pub open spec fn within_radius(p: Point3H, x: int, y: int) -> bool {
    (p.x - x) * (p.x - x) + (p.y - y) * (p.y - y) <= PICK_RADIUS_SQ
}

/// The result of scanning the first `k` grid cells in row-major order,
/// starting from `base` and overwriting the choice on every hit: the
/// last cell within the radius wins.
pub open spec fn pick_scan(
    g: Seq<Vec<Point3H>>, m: nat, x: int, y: int, base: Picked, k: nat,
) -> Picked
    decreases k,
{
    if k == 0 {
        base
    } else {
        let c = (k - 1) as int;
        let ci = c / m as int;
        let cj = c % m as int;
        if within_radius(g[ci]@[cj], x, y) {
            Picked::Grabbed { i: ci as usize, j: cj as usize }
        } else {
            pick_scan(g, m, x, y, base, (k - 1) as nat)
        }
    }
}

/// Exact squared-distance test against the pick radius.
fn within_exec(p: &Point3H, x: i64, y: i64) -> (b: bool)
    requires
        point_wf(*p),
        fp_wf(x as int),
        fp_wf(y as int),
    ensures
        b == within_radius(*p, x as int, y as int),
{
    let dx: i64 = p.x - x;
    let dy: i64 = p.y - y;
    proof {
        assert((dx as int) * (dx as int) <= 0x40000000000000000000
            && (dx as int) * (dx as int) >= 0) by (nonlinear_arith)
            requires
                -0x8000000000 <= dx as int <= 0x8000000000,
        ;
        assert((dy as int) * (dy as int) <= 0x40000000000000000000
            && (dy as int) * (dy as int) >= 0) by (nonlinear_arith)
            requires
                -0x8000000000 <= dy as int <= 0x8000000000,
        ;
    }
    let d2: i128 = (dx as i128) * (dx as i128) + (dy as i128) * (dy as i128);
    d2 <= PICK_RADIUS_SQ as i128
}

/// Pointer press: scan the transformed grid and grab the last control
/// point within the pick radius, if any (the choice otherwise stays what
/// it was); the pointer position is recorded.  Nothing else changes.
pub fn on_press(state: &mut State, x: i64, y: i64)
    requires
        old(state).wf(),
        fp_wf(x as int),
        fp_wf(y as int),
    ensures
        final(state).wf(),
        final(state).point_chosen == pick_scan(
            old(state).transformed_control_points@,
            SURFACE_ORDER as nat,
            x as int,
            y as int,
            old(state).point_chosen,
            (SURFACE_ORDER * SURFACE_ORDER) as nat,
        ),
        final(state).mouse_x == x && final(state).mouse_y == y,
        final(state).control_points@ == old(state).control_points@,
        final(state).transformed_control_points@ == old(state).transformed_control_points@,
        final(state).rotate_ox == old(state).rotate_ox,
        final(state).rotate_oy == old(state).rotate_oy,
        final(state).rotate_oz == old(state).rotate_oz,
        final(state).parts_ox == old(state).parts_ox,
        final(state).parts_oy == old(state).parts_oy,
        final(state).zoom == old(state).zoom,
        final(state).back_transform.m@ == old(state).back_transform.m@,
{
    let ghost g = state.transformed_control_points@;
    let ghost base = state.point_chosen;
    let mut chosen: Picked = state.point_chosen;
    let mut i: usize = 0;
    while i < SURFACE_ORDER
        invariant
            old(state).wf(),
            *state == *old(state),
            g == state.transformed_control_points@,
            base == old(state).point_chosen,
            fp_wf(x as int),
            fp_wf(y as int),
            i <= SURFACE_ORDER,
            chosen == pick_scan(g, SURFACE_ORDER as nat, x as int, y as int, base,
                (i * SURFACE_ORDER) as nat),
            match chosen {
                Picked::Free => true,
                Picked::Grabbed { i: a, j: b } => a < SURFACE_ORDER && b < SURFACE_ORDER,
            },
        decreases SURFACE_ORDER - i,
    {
        let mut j: usize = 0;
        while j < SURFACE_ORDER
            invariant
                old(state).wf(),
                *state == *old(state),
                g == state.transformed_control_points@,
                base == old(state).point_chosen,
                fp_wf(x as int),
                fp_wf(y as int),
                i < SURFACE_ORDER,
                j <= SURFACE_ORDER,
                chosen == pick_scan(g, SURFACE_ORDER as nat, x as int, y as int, base,
                    (i * SURFACE_ORDER + j) as nat),
                match chosen {
                    Picked::Free => true,
                    Picked::Grabbed { i: a, j: b } => a < SURFACE_ORDER && b < SURFACE_ORDER,
                },
            decreases SURFACE_ORDER - j,
        {
            let p: Point3H = state.transformed_control_points[i][j];
            proof {
                let c = (i * SURFACE_ORDER + j) as int;
                lemma_fundamental_div_mod_converse(c, SURFACE_ORDER as int, i as int, j as int);
            }
            if within_exec(&p, x, y) {
                chosen = Picked::Grabbed { i, j };
            }
            j += 1;
        }
        i += 1;
    }
    state.point_chosen = chosen;
    state.mouse_x = x;
    state.mouse_y = y;
}

/// Pointer release: the grab ends unconditionally, whatever motion came
/// in between; nothing else changes.
pub fn on_release(state: &mut State)
    requires
        old(state).wf(),
    ensures
        final(state).wf(),
        final(state).point_chosen == Picked::Free,
        final(state).mouse_x == old(state).mouse_x && final(state).mouse_y == old(state).mouse_y,
        final(state).control_points@ == old(state).control_points@,
        final(state).transformed_control_points@ == old(state).transformed_control_points@,
        final(state).rotate_ox == old(state).rotate_ox,
        final(state).rotate_oy == old(state).rotate_oy,
        final(state).rotate_oz == old(state).rotate_oz,
        final(state).parts_ox == old(state).parts_ox,
        final(state).parts_oy == old(state).parts_oy,
        final(state).zoom == old(state).zoom,
        final(state).back_transform.m@ == old(state).back_transform.m@,
{
    state.point_chosen = Picked::Free;
}

/// The x coordinate of cell `b` of a row after cell `j` was dragged by
/// `dx`.
pub open spec fn drag_x(row: Seq<Point3H>, j: int, dx: int, b: int) -> int {
    if b == j {
        row[b].x + dx
    } else {
        row[b].x as int
    }
}

/// The y coordinate of cell `b` of a row after cell `j` was dragged by
/// `dy`.
pub open spec fn drag_y(row: Seq<Point3H>, j: int, dy: int, b: int) -> int {
    if b == j {
        row[b].y + dy
    } else {
        row[b].y as int
    }
}

/// One coordinate (`r0` selects it) of the back-transformed image of
/// cell `b` of a dragged row.
pub open spec fn back_coord(
    back: Seq<int>, row: Seq<Point3H>, j: int, dx: int, dy: int, b: int, r0: int,
) -> int {
    app_row(back, drag_x(row, j, dx, b), drag_y(row, j, dy, b), row[b].z as int,
        row[b].w as int, r0)
}

/// Pointer motion.  With nothing grabbed the deltas orbit the scene
/// (`oz += dx/10`, `ox -= dy/10`); with a grabbed point the deltas move
/// its transformed position in the screen plane and the whole control
/// row of the grabbed point is re-derived through the current
/// back-transform.  `Err` exactly when an exactly computed updated value
/// is not storable, and then nothing changes at all.
pub fn on_motion(state: &mut State, x: i64, y: i64) -> (r: Result<(), GeomError>)
    requires
        old(state).wf(),
        fp_wf(x as int),
        fp_wf(y as int),
    ensures
        final(state).wf(),
        ({
            let dx = x as int - old(state).mouse_x as int;
            let dy = y as int - old(state).mouse_y as int;
            match r {
                Ok(_) => {
                    &&& final(state).mouse_x == x && final(state).mouse_y == y
                    &&& final(state).point_chosen == old(state).point_chosen
                    &&& final(state).parts_ox == old(state).parts_ox
                    &&& final(state).parts_oy == old(state).parts_oy
                    &&& final(state).zoom == old(state).zoom
                    &&& final(state).back_transform.m@ == old(state).back_transform.m@
                    &&& match old(state).point_chosen {
                        Picked::Free => {
                            &&& final(state).rotate_oz == old(state).rotate_oz + dx / 10
                            &&& final(state).rotate_ox == old(state).rotate_ox - dy / 10
                            &&& final(state).rotate_oy == old(state).rotate_oy
                            &&& final(state).control_points@ == old(state).control_points@
                            &&& final(state).transformed_control_points@
                                == old(state).transformed_control_points@
                        },
                        Picked::Grabbed { i, j } => {
                            let oldt = old(state).transformed_control_points@;
                            let back = old(state).back_transform.s();
                            &&& final(state).rotate_ox == old(state).rotate_ox
                            &&& final(state).rotate_oy == old(state).rotate_oy
                            &&& final(state).rotate_oz == old(state).rotate_oz
                            &&& final(state).transformed_control_points@.len() == SURFACE_ORDER
                            &&& final(state).control_points@.len() == SURFACE_ORDER
                            &&& forall|a: int|
                                0 <= a < SURFACE_ORDER && a != i
                                    ==> (#[trigger] final(state).transformed_control_points@[a])@
                                        == oldt[a]@
                            &&& forall|a: int|
                                0 <= a < SURFACE_ORDER && a != i
                                    ==> (#[trigger] final(state).control_points@[a])@
                                        == old(state).control_points@[a]@
                            &&& forall|b: int|
                                0 <= b < SURFACE_ORDER ==> {
                                    let q = #[trigger] final(state).transformed_control_points@[
                                        i as int]@[b];
                                    &&& q.x == drag_x(oldt[i as int]@, j as int, dx, b)
                                    &&& q.y == drag_y(oldt[i as int]@, j as int, dy, b)
                                    &&& q.z == oldt[i as int]@[b].z
                                    &&& q.w == oldt[i as int]@[b].w
                                }
                            &&& forall|b: int|
                                0 <= b < SURFACE_ORDER ==> {
                                    let q = #[trigger] final(state).control_points@[i as int]@[b];
                                    &&& q.x == back_coord(back, oldt[i as int]@, j as int,
                                        dx, dy, b, 0)
                                    &&& q.y == back_coord(back, oldt[i as int]@, j as int,
                                        dx, dy, b, 1)
                                    &&& q.z == back_coord(back, oldt[i as int]@, j as int,
                                        dx, dy, b, 2)
                                    &&& q.w == back_coord(back, oldt[i as int]@, j as int,
                                        dx, dy, b, 3)
                                }
                        },
                    }
                },
                Err(_) => {
                    &&& *final(state) == *old(state)
                    &&& match old(state).point_chosen {
                        Picked::Free => !fp_wf(old(state).rotate_oz + dx / 10)
                            || !fp_wf(old(state).rotate_ox - dy / 10),
                        Picked::Grabbed { i, j } => {
                            let oldt = old(state).transformed_control_points@;
                            let back = old(state).back_transform.s();
                            ||| !fp_wf(oldt[i as int]@[j as int].x + dx)
                            ||| !fp_wf(oldt[i as int]@[j as int].y + dy)
                            ||| exists|b: int, r0: int|
                                0 <= b < SURFACE_ORDER && 0 <= r0 < 4 && !fp_wf(
                                    back_coord(back, oldt[i as int]@, j as int, dx, dy, b, r0),
                                )
                        },
                    }
                },
            }
        }),
{
    let dx: i64 = x - state.mouse_x;
    let dy: i64 = y - state.mouse_y;
    let picked: Picked = state.point_chosen;
    match picked {
        Picked::Free => {
            let ddx: i64 = div_floor(dx as i128, 10) as i64;
            let ddy: i64 = div_floor(dy as i128, 10) as i64;
            let new_oz: i64 = state.rotate_oz + ddx;
            let new_ox: i64 = state.rotate_ox - ddy;
            if new_oz < -FP_BOUND || new_oz > FP_BOUND || new_ox < -FP_BOUND
                || new_ox > FP_BOUND {
                return Err(GeomError::RangeExceeded);
            }
            state.rotate_oz = new_oz;
            state.rotate_ox = new_ox;
            state.mouse_x = x;
            state.mouse_y = y;
            Ok(())
        },
        Picked::Grabbed { i, j } => {
            let p: Point3H = state.transformed_control_points[i][j];
            let tx: i64 = p.x + dx;
            let ty: i64 = p.y + dy;
            if tx < -FP_BOUND || tx > FP_BOUND || ty < -FP_BOUND || ty > FP_BOUND {
                return Err(GeomError::RangeExceeded);
            }
            let ghost oldrow = state.transformed_control_points@[i as int]@;
            let mut new_row: Vec<Point3H> = Vec::new();
            let mut b: usize = 0;
            while b < SURFACE_ORDER
                invariant
                    old(state).wf(),
                    *state == *old(state),
                    oldrow == state.transformed_control_points@[i as int]@,
                    i < SURFACE_ORDER && j < SURFACE_ORDER,
                    state.point_chosen == (Picked::Grabbed { i, j }),
                    p == oldrow[j as int],
                    tx == oldrow[j as int].x + dx,
                    ty == oldrow[j as int].y + dy,
                    fp_wf(tx as int) && fp_wf(ty as int),
                    b <= SURFACE_ORDER,
                    new_row@.len() == b,
                    forall|c: int|
                        0 <= c < b ==> {
                            let q = #[trigger] new_row@[c];
                            &&& point_wf(q)
                            &&& q.x == drag_x(oldrow, j as int, dx as int, c)
                            &&& q.y == drag_y(oldrow, j as int, dy as int, c)
                            &&& q.z == oldrow[c].z
                            &&& q.w == oldrow[c].w
                        },
                decreases SURFACE_ORDER - b,
            {
                proof {
                    assert(state.transformed_control_points@[i as int]@[b as int]
                        == oldrow[b as int]);
                    assert(point_wf(oldrow[b as int]));
                    assert(state.transformed_control_points@[i as int]@[j as int]
                        == oldrow[j as int]);
                }
                if b == j {
                    new_row.push(Point3H { x: tx, y: ty, z: p.z, w: p.w });
                } else {
                    new_row.push(state.transformed_control_points[i][b]);
                }
                b += 1;
            }
            match apply_points(&state.back_transform, &new_row) {
                Some(back_row) => {
                    state.transformed_control_points[i] = new_row;
                    state.control_points[i] = back_row;
                    state.mouse_x = x;
                    state.mouse_y = y;
                    Ok(())
                },
                None => {
                    proof {
                        let back = state.back_transform.s();
                        let (k, r0) = choose|k: int, r0: int|
                            0 <= k < new_row@.len() && 0 <= r0 < 4 && !fp_wf(
                                app_row(back, new_row@[k].x as int, new_row@[k].y as int,
                                    new_row@[k].z as int, new_row@[k].w as int, r0),
                            );
                        assert(0 <= k < SURFACE_ORDER && 0 <= r0 < 4 && !fp_wf(
                            back_coord(back, oldrow, j as int, dx as int, dy as int, k, r0),
                        ));
                    }
                    Err(GeomError::RangeExceeded)
                },
            }
        },
    }
}

/// Picking exclusivity, scan prefix form: when exactly one grid cell is
/// within the pick radius, a scan that has passed it has grabbed it, and
/// a scan that has not reached it still holds the base choice.
proof fn lemma_pick_scan_unique(
    g: Seq<Vec<Point3H>>, m: nat, x: int, y: int, base: Picked, i0: int, j0: int, k: nat,
)
    requires
        1 <= m,
        0 <= i0 < m,
        0 <= j0 < m,
        k <= m * m,
        within_radius(g[i0]@[j0], x, y),
        forall|i: int, j: int|
            0 <= i < m && 0 <= j < m && !(i == i0 && j == j0)
                ==> !within_radius(#[trigger] g[i]@[j], x, y),
    ensures
        pick_scan(g, m, x, y, base, k) == (if k > i0 * m + j0 {
            Picked::Grabbed { i: i0 as usize, j: j0 as usize }
        } else {
            base
        }),
    decreases k,
{
    assert(0 <= i0 * m + j0 < m * m) by (nonlinear_arith)
        requires
            0 <= i0 < m,
            0 <= j0 < m,
    ;
    if k == 0 {
    } else {
        lemma_pick_scan_unique(g, m, x, y, base, i0, j0, (k - 1) as nat);
        let c = (k - 1) as int;
        lemma_fundamental_div_mod(c, m as int);
        let ci = c / m as int;
        let cj = c % m as int;
        assert(c <= m * m - 1);
        lemma_div_is_ordered(c, m * m - 1, m as int);
        assert(m * m - 1 == (m as int - 1) * (m as int) + (m as int - 1)) by (nonlinear_arith);
        lemma_fundamental_div_mod_converse(
            m * m - 1, m as int, m as int - 1, m as int - 1);
        assert(ci <= m - 1);
        assert(ci >= 0) by {
            vstd::arithmetic::div_mod::lemma_div_pos_is_pos(c, m as int);
        };
        if c == i0 * m + j0 {
            assert(i0 * m + j0 == i0 * (m as int) + j0);
            assert(i0 * (m as int) + j0 == (m as int) * i0 + j0) by (nonlinear_arith);
            lemma_fundamental_div_mod_converse(c, m as int, i0, j0);
            assert(ci == i0 && cj == j0);
            assert(within_radius(g[ci]@[cj], x, y));
        } else {
            assert(!(ci == i0 && cj == j0)) by {
                if ci == i0 && cj == j0 {
                    assert(c == (m as int) * ci + cj);
                    assert((m as int) * i0 + j0 == i0 * m + j0) by (nonlinear_arith);
                }
            };
            assert(!within_radius(g[ci]@[cj], x, y));
        }
    }
}

/// Picking exclusivity: when the press position is within the pick
/// radius of exactly one cell of the transformed grid, the full scan
/// grabs exactly that cell, whatever choice it started from.
pub proof fn lemma_pick_exclusive(
    g: Seq<Vec<Point3H>>, m: nat, x: int, y: int, base: Picked, i0: int, j0: int,
)
    requires
        1 <= m,
        0 <= i0 < m,
        0 <= j0 < m,
        within_radius(g[i0]@[j0], x, y),
        forall|i: int, j: int|
            0 <= i < m && 0 <= j < m && !(i == i0 && j == j0)
                ==> !within_radius(#[trigger] g[i]@[j], x, y),
    ensures
        pick_scan(g, m, x, y, base, (m * m) as nat) == (Picked::Grabbed {
            i: i0 as usize,
            j: j0 as usize,
        }),
{
    lemma_pick_scan_unique(g, m, x, y, base, i0, j0, (m * m) as nat);
    assert(i0 * m + j0 < m * m) by (nonlinear_arith)
        requires
            0 <= i0 < m,
            0 <= j0 < m,
    ;
}

} // verus!
