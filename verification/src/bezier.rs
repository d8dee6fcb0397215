//! The Bezier surface engine.
//!
//! Given an `order x order` control grid and a tessellation resolution
//! `(rows, cols)`, the engine samples the tensor-product surface at the
//! regular parameter grid `u = ui/rows`, `v = vj/cols`, blending the
//! control points with Bernstein weights read from the binomial table.
//! Every arithmetic step is fixed point with floor rounding, so the
//! contract pins each produced coordinate exactly.

use vstd::prelude::*;
use crate::fixed::SCALE;
use crate::fixed::FP_BOUND;
use crate::fixed::fp_wf;
use crate::fixed::fp_mul;
use crate::fixed::fp_mul_wide;
use crate::fixed::fp_mul_wide2;
use crate::fixed::fp_mul_i64;
use crate::fixed::lemma_fp_mul_unit;
use crate::fixed::lemma_fp_mul_one_zero;
use crate::combo::binom;
use crate::combo::table_wf;
use crate::combo::lemma_binom_bound;
use crate::combo::combination_precomputation;
use crate::transform::Point3H;
use crate::transform::point_wf;

verus! {

/// The failures of the numeric core: an exactly computed value fell
/// outside the storable fixed-point range, or the frame's scale factor
/// rounded to zero and has no reciprocal.
#[derive(Clone, Copy, PartialEq, Eq, Structural, Debug)]
pub enum GeomError {
    RangeExceeded,
    DegenerateTransform,
}

/// A `rows x cols` grid of well-formed points.
pub open spec fn grid_wf(g: Seq<Vec<Point3H>>, rows: int, cols: int) -> bool {
    &&& g.len() == rows
    &&& forall|i: int| 0 <= i < rows ==> (#[trigger] g[i])@.len() == cols
    &&& forall|i: int, j: int|
        0 <= i < rows && 0 <= j < cols ==> point_wf(#[trigger] g[i]@[j])
}

/// The tessellation parameter at step `idx` of `parts`: the fixed-point
/// value of `idx/parts`.
pub open spec fn param(idx: int, parts: int) -> int {
    (idx * SCALE as int) / parts
}

/// Fixed-point power: `t` multiplied into the representation of one,
/// `k` times, with floor rounding at each step.
pub open spec fn fp_pow(t: int, k: nat) -> int
    decreases k,
{
    if k == 0 {
        SCALE as int
    } else {
        fp_mul(t, fp_pow(t, (k - 1) as nat))
    }
}

/// The fixed-point Bernstein weight `C(n,k) * t^k * (1-t)^(n-k)`; the
/// binomial factor is an exact integer, the powers round at each step.
pub open spec fn bern(n: nat, k: nat, t: int) -> int {
    binom(n, k) * fp_mul(fp_pow(t, k), fp_pow(SCALE as int - t, (n - k) as nat))
}

/// One coordinate of a point (`0` is x, `1` is y, anything else z).
pub open spec fn coord(p: Point3H, ax: int) -> int {
    if ax == 0 {
        p.x as int
    } else if ax == 1 {
        p.y as int
    } else {
        p.z as int
    }
}

/// One blending term: the control coordinate weighted by the row weight
/// (in `v`) and then the column weight (in `u`).
pub open spec fn blend_term(c: Point3H, n: nat, i: nat, j: nat, u: int, v: int, ax: int) -> int {
    fp_mul(fp_mul(coord(c, ax), bern(n, i, v)), bern(n, j, u))
}

/// Partial sum of the blending terms of control row `i`, over column
/// indices below `j`.
pub open spec fn row_sum(
    row: Seq<Point3H>, n: nat, i: nat, u: int, v: int, ax: int, j: nat,
) -> int
    decreases j,
{
    if j == 0 {
        0
    } else {
        row_sum(row, n, i, u, v, ax, (j - 1) as nat)
            + blend_term(row[j - 1], n, i, (j - 1) as nat, u, v, ax)
    }
}

/// Partial sum of the fully blended control rows below `i`.
pub open spec fn grid_sum(
    g: Seq<Vec<Point3H>>, n: nat, u: int, v: int, ax: int, i: nat,
) -> int
    decreases i,
{
    if i == 0 {
        0
    } else {
        grid_sum(g, n, u, v, ax, (i - 1) as nat)
            + row_sum(g[i - 1]@, n, (i - 1) as nat, u, v, ax, n + 1)
    }
}

/// One exact coordinate of the surface sample at parameters `(u, v)`:
/// the full double blending sum over the `(n+1) x (n+1)` control grid.
pub open spec fn surf_coord(g: Seq<Vec<Point3H>>, n: nat, u: int, v: int, ax: int) -> int {
    grid_sum(g, n, u, v, ax, n + 1)
}

/// `s` is exactly the `(rows+1) x (cols+1)` tessellation of the control
/// grid `g` of degree `n`: every sample coordinate is the blending sum
/// at its parameter pair, and every sample is an affine storable point.
pub open spec fn tessellation_of(
    g: Seq<Vec<Point3H>>, n: nat, rows: int, cols: int, s: Seq<Vec<Point3H>>,
) -> bool {
    &&& s.len() == rows + 1
    &&& forall|ui: int| 0 <= ui <= rows ==> (#[trigger] s[ui])@.len() == cols + 1
    &&& forall|ui: int, vj: int|
        0 <= ui <= rows && 0 <= vj <= cols ==> {
            let u = param(ui, rows);
            let v = param(vj, cols);
            &&& point_wf(#[trigger] s[ui]@[vj])
            &&& s[ui]@[vj].x == surf_coord(g, n, u, v, 0)
            &&& s[ui]@[vj].y == surf_coord(g, n, u, v, 1)
            &&& s[ui]@[vj].z == surf_coord(g, n, u, v, 2)
            &&& s[ui]@[vj].w == SCALE
        }
}

/// Fixed-point power of a unit-interval scalar; stays in the unit
/// interval.
pub fn fp_pow_exec(t: i64, k: usize) -> (r: i64)
    requires
        0 <= t <= SCALE,
    ensures
        r == fp_pow(t as int, k as nat),
        0 <= r <= SCALE,
{
    let mut acc: i64 = SCALE;
    let mut step: usize = 0;
    while step < k
        invariant
            0 <= t <= SCALE,
            step <= k,
            acc == fp_pow(t as int, step as nat),
            0 <= acc <= SCALE,
        decreases k - step,
    {
        proof {
            lemma_fp_mul_unit(t as int, acc as int);
        }
        acc = fp_mul_i64(t, acc);
        step += 1;
    }
    acc
}

/// The fixed-point Bernstein weight; nonnegative and at most
/// `C(n,k) * SCALE`, which is storable for every supported order.
pub fn bernstein(c_nk: u64, n: usize, k: usize, t: i64) -> (b: i64)
    requires
        k <= n <= 15,
        c_nk == binom(n as nat, k as nat),
        0 <= t <= SCALE,
    ensures
        b == bern(n as nat, k as nat, t as int),
        0 <= b <= 0x80000000,
{
    proof {
        lemma_binom_bound(n as nat, k as nat);
        if n < 15 {
            vstd::arithmetic::power2::lemma_pow2_strictly_increases(n as nat, 15);
        }
        vstd::arithmetic::power2::lemma2_to64();
        assert(c_nk <= 32768);
    }
    let pk: i64 = fp_pow_exec(t, k);
    let pnk: i64 = fp_pow_exec(SCALE - t, n - k);
    proof {
        lemma_fp_mul_unit(pk as int, pnk as int);
    }
    let m: i64 = fp_mul_i64(pk, pnk);
    proof {
        assert((c_nk as int) * (m as int) <= 32768 * 65536
            && (c_nk as int) * (m as int) >= 0) by (nonlinear_arith)
            requires
                0 <= c_nk as int <= 32768,
                0 <= m as int <= 65536,
        ;
    }
    (c_nk as i64) * m
}

/// Evaluates the tessellation: a `(rows+1) x (cols+1)` grid of surface
/// samples.  `Err` exactly when some exactly computed sample coordinate
/// is not storable; every returned sample's coordinates equal the
/// blending sums, and its homogeneous weight is one.
pub fn evaluate(control: &Vec<Vec<Point3H>>, parts: (usize, usize)) -> (r: Result<
    Vec<Vec<Point3H>>,
    GeomError,
>)
    requires
        1 <= control@.len() <= 16,
        grid_wf(control@, control@.len() as int, control@.len() as int),
        1 <= parts.0 <= 30000,
        1 <= parts.1 <= 30000,
    ensures
        ({
            let n = (control@.len() - 1) as nat;
            match r {
                Ok(s) => tessellation_of(control@, n, parts.0 as int, parts.1 as int, s@),
                Err(e) => e == GeomError::RangeExceeded && exists|ui: int, vj: int, ax: int|
                    0 <= ui <= parts.0 && 0 <= vj <= parts.1 && 0 <= ax < 3 && !fp_wf(
                        surf_coord(
                            control@, n, param(ui, parts.0 as int), param(vj, parts.1 as int), ax,
                        ),
                    ),
            }
        }),
{
    let order: usize = control.len();
    let n: usize = order - 1;
    let prec: Vec<Vec<u64>> = combination_precomputation(order);
    let mut surface: Vec<Vec<Point3H>> = Vec::new();
    let mut ui: usize = 0;
    while ui <= parts.0
        invariant
            1 <= order <= 16,
            n == order - 1,
            control@.len() == order,
            grid_wf(control@, order as int, order as int),
            table_wf(prec@, order as nat),
            1 <= parts.0 <= 30000,
            1 <= parts.1 <= 30000,
            ui <= parts.0 + 1,
            surface@.len() == ui,
            forall|a: int| 0 <= a < ui ==> (#[trigger] surface@[a])@.len() == parts.1 + 1,
            forall|a: int, b: int|
                0 <= a < ui && 0 <= b <= parts.1 ==> {
                    let u = param(a, parts.0 as int);
                    let v = param(b, parts.1 as int);
                    &&& point_wf(#[trigger] surface@[a]@[b])
                    &&& surface@[a]@[b].x == surf_coord(control@, n as nat, u, v, 0)
                    &&& surface@[a]@[b].y == surf_coord(control@, n as nat, u, v, 1)
                    &&& surface@[a]@[b].z == surf_coord(control@, n as nat, u, v, 2)
                    &&& surface@[a]@[b].w == SCALE
                },
        decreases parts.0 + 1 - ui,
    {
        let u: i64 = param_exec(ui, parts.0);
        let mut row_out: Vec<Point3H> = Vec::new();
        let mut vj: usize = 0;
        while vj <= parts.1
            invariant
                1 <= order <= 16,
                n == order - 1,
                control@.len() == order,
                grid_wf(control@, order as int, order as int),
                table_wf(prec@, order as nat),
                1 <= parts.0 <= 30000,
                1 <= parts.1 <= 30000,
                ui <= parts.0,
                u == param(ui as int, parts.0 as int),
                0 <= u <= SCALE,
                vj <= parts.1 + 1,
                row_out@.len() == vj,
                forall|b: int|
                    0 <= b < vj ==> {
                        let uu = param(ui as int, parts.0 as int);
                        let v = param(b, parts.1 as int);
                        &&& point_wf(#[trigger] row_out@[b])
                        &&& row_out@[b].x == surf_coord(control@, n as nat, uu, v, 0)
                        &&& row_out@[b].y == surf_coord(control@, n as nat, uu, v, 1)
                        &&& row_out@[b].z == surf_coord(control@, n as nat, uu, v, 2)
                        &&& row_out@[b].w == SCALE
                    },
            decreases parts.1 + 1 - vj,
        {
            let v: i64 = param_exec(vj, parts.1);
            match sample_point(control, &prec, n, u, v) {
                Ok(p) => {
                    row_out.push(p);
                },
                Err(e) => {
                    return Err(e);
                },
            }
            vj += 1;
        }
        surface.push(row_out);
        ui += 1;
    }
    Ok(surface)
}

/// The tessellation parameter `idx/parts` as an executable fixed-point
/// scalar; lands in the unit interval, and exactly on its ends.
pub fn param_exec(idx: usize, parts: usize) -> (r: i64)
    requires
        1 <= parts <= 30000,
        idx <= parts,
    ensures
        r == param(idx as int, parts as int),
        0 <= r <= SCALE,
{
    let scaled: usize = idx * 65536;
    let q: usize = scaled / parts;
    proof {
        vstd::arithmetic::div_mod::lemma_div_is_ordered(
            idx as int * 65536, parts as int * 65536, parts as int);
        assert((parts as int * 65536) / (parts as int) == 65536) by {
            assert(parts as int * 65536 == 65536 * (parts as int) + 0) by (nonlinear_arith);
            vstd::arithmetic::div_mod::lemma_fundamental_div_mod_converse(
                parts as int * 65536, parts as int, 65536, 0);
        };
        vstd::arithmetic::div_mod::lemma_div_pos_is_pos(idx as int * 65536, parts as int);
        assert(idx as int * 65536 <= parts as int * 65536) by (nonlinear_arith)
            requires idx as int <= parts as int;
    }
    q as i64
}

/// One surface sample: the double blending sum at `(u, v)`, each
/// coordinate accumulated exactly in 128-bit arithmetic and then checked
/// against the storable range.
fn sample_point(
    control: &Vec<Vec<Point3H>>,
    prec: &Vec<Vec<u64>>,
    n: usize,
    u: i64,
    v: i64,
) -> (r: Result<Point3H, GeomError>)
    requires
        1 <= control@.len() <= 16,
        n == control@.len() - 1,
        grid_wf(control@, control@.len() as int, control@.len() as int),
        table_wf(prec@, control@.len() as nat),
        0 <= u <= SCALE,
        0 <= v <= SCALE,
    ensures
        match r {
            Ok(p) => {
                &&& point_wf(p)
                &&& p.x == surf_coord(control@, n as nat, u as int, v as int, 0)
                &&& p.y == surf_coord(control@, n as nat, u as int, v as int, 1)
                &&& p.z == surf_coord(control@, n as nat, u as int, v as int, 2)
                &&& p.w == SCALE
            },
            Err(e) => e == GeomError::RangeExceeded && exists|ax: int|
                0 <= ax < 3 && !fp_wf(surf_coord(control@, n as nat, u as int, v as int, ax)),
        },
{
    let order: usize = n + 1;
    let mut acc_x: i128 = 0;
    let mut acc_y: i128 = 0;
    let mut acc_z: i128 = 0;
    let mut i: usize = 0;
    while i < order
        invariant
            1 <= order <= 16,
            order == control@.len(),
            n == order - 1,
            grid_wf(control@, order as int, order as int),
            table_wf(prec@, order as nat),
            0 <= u <= SCALE,
            0 <= v <= SCALE,
            i <= order,
            acc_x == grid_sum(control@, n as nat, u as int, v as int, 0, i as nat),
            acc_y == grid_sum(control@, n as nat, u as int, v as int, 1, i as nat),
            acc_z == grid_sum(control@, n as nat, u as int, v as int, 2, i as nat),
            -0x400000000000000000000 * (17 * i as int)
                <= acc_x <= 0x400000000000000000000 * (17 * i as int),
            -0x400000000000000000000 * (17 * i as int)
                <= acc_y <= 0x400000000000000000000 * (17 * i as int),
            -0x400000000000000000000 * (17 * i as int)
                <= acc_z <= 0x400000000000000000000 * (17 * i as int),
        decreases order - i,
    {
        let b1: i64 = bernstein(prec[n][i], n, i, v);
        let mut j: usize = 0;
        while j < order
            invariant
                1 <= order <= 16,
                order == control@.len(),
                n == order - 1,
                grid_wf(control@, order as int, order as int),
                table_wf(prec@, order as nat),
                0 <= u <= SCALE,
                0 <= v <= SCALE,
                i < order,
                j <= order,
                b1 == bern(n as nat, i as nat, v as int),
                0 <= b1 <= 0x80000000,
                acc_x == grid_sum(control@, n as nat, u as int, v as int, 0, i as nat)
                    + row_sum(control@[i as int]@, n as nat, i as nat, u as int, v as int, 0, j as nat),
                acc_y == grid_sum(control@, n as nat, u as int, v as int, 1, i as nat)
                    + row_sum(control@[i as int]@, n as nat, i as nat, u as int, v as int, 1, j as nat),
                acc_z == grid_sum(control@, n as nat, u as int, v as int, 2, i as nat)
                    + row_sum(control@[i as int]@, n as nat, i as nat, u as int, v as int, 2, j as nat),
                -0x400000000000000000000 * (17 * i as int + j as int)
                    <= acc_x <= 0x400000000000000000000 * (17 * i as int + j as int),
                -0x400000000000000000000 * (17 * i as int + j as int)
                    <= acc_y <= 0x400000000000000000000 * (17 * i as int + j as int),
                -0x400000000000000000000 * (17 * i as int + j as int)
                    <= acc_z <= 0x400000000000000000000 * (17 * i as int + j as int),
            decreases order - j,
        {
            let b2: i64 = bernstein(prec[n][j], n, j, u);
            let cp: Point3H = control[i][j];
            let tx: i128 = fp_mul_wide2(fp_mul_wide(cp.x, b1), b2);
            let ty: i128 = fp_mul_wide2(fp_mul_wide(cp.y, b1), b2);
            let tz: i128 = fp_mul_wide2(fp_mul_wide(cp.z, b1), b2);
            proof {
                assert(tx == blend_term(cp, n as nat, i as nat, j as nat, u as int, v as int, 0));
                assert(ty == blend_term(cp, n as nat, i as nat, j as nat, u as int, v as int, 1));
                assert(tz == blend_term(cp, n as nat, i as nat, j as nat, u as int, v as int, 2));
            }
            acc_x = acc_x + tx;
            acc_y = acc_y + ty;
            acc_z = acc_z + tz;
            j += 1;
        }
        proof {
            assert(grid_sum(control@, n as nat, u as int, v as int, 0, (i + 1) as nat)
                == grid_sum(control@, n as nat, u as int, v as int, 0, i as nat)
                    + row_sum(control@[i as int]@, n as nat, i as nat, u as int, v as int, 0,
                        (n + 1) as nat));
            assert(grid_sum(control@, n as nat, u as int, v as int, 1, (i + 1) as nat)
                == grid_sum(control@, n as nat, u as int, v as int, 1, i as nat)
                    + row_sum(control@[i as int]@, n as nat, i as nat, u as int, v as int, 1,
                        (n + 1) as nat));
            assert(grid_sum(control@, n as nat, u as int, v as int, 2, (i + 1) as nat)
                == grid_sum(control@, n as nat, u as int, v as int, 2, i as nat)
                    + row_sum(control@[i as int]@, n as nat, i as nat, u as int, v as int, 2,
                        (n + 1) as nat));
        }
        i += 1;
    }
    let lim: i128 = FP_BOUND as i128;
    if acc_x < -lim || acc_x > lim {
        proof {
            assert(exists|ax: int|
                0 <= ax < 3 && !fp_wf(surf_coord(control@, n as nat, u as int, v as int, ax)))
                by {
                assert(!fp_wf(surf_coord(control@, n as nat, u as int, v as int, 0)));
            };
        }
        return Err(GeomError::RangeExceeded);
    }
    if acc_y < -lim || acc_y > lim {
        proof {
            assert(exists|ax: int|
                0 <= ax < 3 && !fp_wf(surf_coord(control@, n as nat, u as int, v as int, ax)))
                by {
                assert(!fp_wf(surf_coord(control@, n as nat, u as int, v as int, 1)));
            };
        }
        return Err(GeomError::RangeExceeded);
    }
    if acc_z < -lim || acc_z > lim {
        proof {
            assert(exists|ax: int|
                0 <= ax < 3 && !fp_wf(surf_coord(control@, n as nat, u as int, v as int, ax)))
                by {
                assert(!fp_wf(surf_coord(control@, n as nat, u as int, v as int, 2)));
            };
        }
        return Err(GeomError::RangeExceeded);
    }
    Ok(Point3H { x: acc_x as i64, y: acc_y as i64, z: acc_z as i64, w: SCALE })
}

/// Fixed-point powers of the parameter endpoints are exact: powers of
/// one are one, and positive powers of zero are zero.
pub proof fn lemma_pow_ends(k: nat)
    ensures
        fp_pow(SCALE as int, k) == SCALE as int,
        k >= 1 ==> fp_pow(0, k) == 0,
    decreases k,
{
    if k == 0 {
    } else {
        lemma_pow_ends((k - 1) as nat);
        lemma_fp_mul_one_zero(SCALE as int);
        lemma_fp_mul_one_zero(fp_pow(0, (k - 1) as nat));
    }
}

/// The control-grid index selected by a parameter endpoint: the first
/// row or column at zero, the last at one.
pub open spec fn corner_idx(t: int, n: nat) -> nat {
    if t == 0 {
        0
    } else {
        n
    }
}

/// At a parameter endpoint the Bernstein weights are exact indicators:
/// the weight of the selected index is one, every other weight is zero.
pub proof fn lemma_bern_corner(n: nat, k: nat, t: int)
    requires
        k <= n,
        t == 0 || t == SCALE as int,
    ensures
        bern(n, k, t) == if k == corner_idx(t, n) {
            SCALE as int
        } else {
            0
        },
{
    lemma_pow_ends(k);
    lemma_pow_ends((n - k) as nat);
    lemma_fp_mul_one_zero(SCALE as int);
    if t == 0 {
        if k == 0 {
            assert(fp_mul(fp_pow(0, 0), fp_pow(SCALE as int, n)) == SCALE as int);
            assert(binom(n, 0) == 1);
        } else {
            assert(fp_pow(0, k) == 0);
            lemma_fp_mul_one_zero(fp_pow(SCALE as int, (n - k) as nat));
            assert(fp_mul(0, fp_pow(SCALE as int, (n - k) as nat)) == 0);
        }
    } else {
        if k == n {
            assert(fp_mul(fp_pow(SCALE as int, n), fp_pow(0, 0)) == SCALE as int);
            assert(binom(n, n) == 1);
        } else {
            assert(fp_pow(SCALE as int - t, (n - k) as nat) == 0);
            lemma_fp_mul_one_zero(fp_pow(SCALE as int, k));
            assert(fp_mul(fp_pow(SCALE as int, k), 0) == 0);
        }
    }
}

/// At parameter endpoints a blending term is the bare control coordinate
/// for the selected indices and zero for all others.
proof fn lemma_term_corner(c: Point3H, n: nat, i: nat, j: nat, u: int, v: int, ax: int)
    requires
        i <= n,
        j <= n,
        u == 0 || u == SCALE as int,
        v == 0 || v == SCALE as int,
    ensures
        blend_term(c, n, i, j, u, v, ax) == if i == corner_idx(v, n) && j == corner_idx(u, n) {
            coord(c, ax)
        } else {
            0
        },
{
    lemma_bern_corner(n, i, v);
    lemma_bern_corner(n, j, u);
    lemma_fp_mul_one_zero(coord(c, ax));
    lemma_fp_mul_one_zero(bern(n, j, u));
    lemma_fp_mul_one_zero(0);
}

/// At parameter endpoints a partial row sum collapses to the selected
/// coordinate once the scan has passed it, and to zero before.
proof fn lemma_row_corner(row: Seq<Point3H>, n: nat, i: nat, u: int, v: int, ax: int, j: nat)
    requires
        i <= n,
        j <= n + 1,
        row.len() >= n + 1,
        u == 0 || u == SCALE as int,
        v == 0 || v == SCALE as int,
    ensures
        row_sum(row, n, i, u, v, ax, j) == if i == corner_idx(v, n) && j > corner_idx(u, n) {
            coord(row[corner_idx(u, n) as int], ax)
        } else {
            0
        },
    decreases j,
{
    if j == 0 {
    } else {
        lemma_row_corner(row, n, i, u, v, ax, (j - 1) as nat);
        lemma_term_corner(row[j - 1], n, i, (j - 1) as nat, u, v, ax);
    }
}

/// At parameter endpoints a partial grid sum collapses to the selected
/// corner coordinate once the scan has passed its row.
proof fn lemma_grid_corner(g: Seq<Vec<Point3H>>, n: nat, u: int, v: int, ax: int, i: nat)
    requires
        i <= n + 1,
        grid_wf(g, n as int + 1, n as int + 1),
        u == 0 || u == SCALE as int,
        v == 0 || v == SCALE as int,
    ensures
        grid_sum(g, n, u, v, ax, i) == if i > corner_idx(v, n) {
            coord(g[corner_idx(v, n) as int]@[corner_idx(u, n) as int], ax)
        } else {
            0
        },
    decreases i,
{
    if i == 0 {
    } else {
        lemma_grid_corner(g, n, u, v, ax, (i - 1) as nat);
        lemma_row_corner(g[i - 1]@, n, (i - 1) as nat, u, v, ax, n + 1);
    }
}

/// Endpoint interpolation: at the four parameter corners the blending
/// sum returns the matching corner control point's coordinate exactly,
/// for any well-formed control grid of any supported order.
pub proof fn lemma_endpoint_interpolation(g: Seq<Vec<Point3H>>, n: nat, u: int, v: int, ax: int)
    requires
        grid_wf(g, n as int + 1, n as int + 1),
        u == 0 || u == SCALE as int,
        v == 0 || v == SCALE as int,
    ensures
        surf_coord(g, n, u, v, ax)
            == coord(g[corner_idx(v, n) as int]@[corner_idx(u, n) as int], ax),
{
    lemma_grid_corner(g, n, u, v, ax, n + 1);
}

/// Endpoint interpolation of a whole tessellation: its four corner
/// samples are exactly the four corner control points (the v direction
/// selects the control row, the u direction the control column).
pub proof fn lemma_tessellation_corners(
    g: Seq<Vec<Point3H>>, n: nat, rows: int, cols: int, s: Seq<Vec<Point3H>>,
)
    requires
        grid_wf(g, n as int + 1, n as int + 1),
        tessellation_of(g, n, rows, cols, s),
        1 <= rows,
        1 <= cols,
    ensures
        xyz_equal(s[0]@[0], g[0]@[0]),
        xyz_equal(s[0]@[cols], g[n as int]@[0]),
        xyz_equal(s[rows]@[0], g[0]@[n as int]),
        xyz_equal(s[rows]@[cols], g[n as int]@[n as int]),
{
    lemma_param_ends(rows);
    lemma_param_ends(cols);
    lemma_endpoint_interpolation(g, n, 0, 0, 0);
    lemma_endpoint_interpolation(g, n, 0, 0, 1);
    lemma_endpoint_interpolation(g, n, 0, 0, 2);
    lemma_endpoint_interpolation(g, n, 0, SCALE as int, 0);
    lemma_endpoint_interpolation(g, n, 0, SCALE as int, 1);
    lemma_endpoint_interpolation(g, n, 0, SCALE as int, 2);
    lemma_endpoint_interpolation(g, n, SCALE as int, 0, 0);
    lemma_endpoint_interpolation(g, n, SCALE as int, 0, 1);
    lemma_endpoint_interpolation(g, n, SCALE as int, 0, 2);
    lemma_endpoint_interpolation(g, n, SCALE as int, SCALE as int, 0);
    lemma_endpoint_interpolation(g, n, SCALE as int, SCALE as int, 1);
    lemma_endpoint_interpolation(g, n, SCALE as int, SCALE as int, 2);
}

/// The two points agree in all three spatial coordinates.
pub open spec fn xyz_equal(a: Point3H, b: Point3H) -> bool {
    a.x == b.x && a.y == b.y && a.z == b.z
}

/// The tessellation parameter grid hits the ends of the unit interval
/// exactly: step zero is zero and the last step is one.
pub proof fn lemma_param_ends(parts: int)
    requires
        1 <= parts,
    ensures
        param(0, parts) == 0,
        param(parts, parts) == SCALE as int,
{
    vstd::arithmetic::div_mod::lemma_fundamental_div_mod_converse(0, parts, 0, 0);
    assert(parts * (SCALE as int) == (SCALE as int) * parts) by (nonlinear_arith);
    vstd::arithmetic::div_mod::lemma_fundamental_div_mod_converse(
        parts * (SCALE as int), parts, SCALE as int, 0);
}

} // verus!
