//! The 4x4 affine-transform pipeline.
//!
//! A transform is composed from primitive operations (translate, rotate
//! about an axis, uniform scale) in call order and applied to homogeneous
//! points.  Rotations take the sine and cosine of their angle as
//! fixed-point scalars: the host computes those, the pipeline never does
//! trigonometry itself.  Points are treated as column vectors, so a
//! composition applying `ops[0]` first is the matrix product
//! `M(ops[n-1]) * ... * M(ops[0])`.
//!
//! Every executable routine here is total over well-formed inputs except
//! for range: an entry or coordinate whose exact fixed-point value would
//! leave the storable range makes the routine return `None`, and the
//! contracts say precisely when that happens.

use vstd::prelude::*;
use crate::fixed::SCALE;
use crate::fixed::FP_BOUND;
use crate::fixed::fp_wf;
use crate::fixed::fp_mul;
use crate::fixed::fp_mul_wide;
use crate::fixed::lemma_fp_mul_one_zero;

verus! {

/// Homogeneous 3D point: `w` is the representation of one for affine
/// points and zero for direction vectors.
#[derive(Clone, Copy, PartialEq, Eq, Structural, Debug)]
pub struct Point3H {
    pub x: i64,
    pub y: i64,
    pub z: i64,
    pub w: i64,
}

/// All four scalars of the point are storable.
pub open spec fn point_wf(p: Point3H) -> bool {
    fp_wf(p.x as int) && fp_wf(p.y as int) && fp_wf(p.z as int) && fp_wf(p.w as int)
}

impl Point3H {
    /// An affine point with the given coordinates.
    pub fn new(x: i64, y: i64, z: i64) -> (p: Point3H)
        ensures
            p.x == x && p.y == y && p.z == z && p.w == SCALE,
    {
        Point3H { x, y, z, w: SCALE }
    }
}

/// A composed 4x4 transform, sixteen fixed-point entries in row-major
/// order.
pub struct TransformMatrix {
    pub m: Vec<i64>,
}

/// The mathematical-integer image of a stored entry sequence.
pub open spec fn ints(m: Seq<i64>) -> Seq<int> {
    Seq::new(m.len(), |k: int| m[k] as int)
}

/// Sixteen entries, all storable.
pub open spec fn mat_wf_int(m: Seq<int>) -> bool {
    m.len() == 16 && forall|k: int| 0 <= k < 16 ==> fp_wf(#[trigger] m[k])
}

/// Row-major entry access.
pub open spec fn ent(m: Seq<int>, r: int, c: int) -> int {
    m[4 * r + c]
}

impl TransformMatrix {
    /// The entries as mathematical integers.
    pub open spec fn s(&self) -> Seq<int> {
        ints(self.m@)
    }

    /// The stored matrix is shaped and bounded.
    pub open spec fn wf(&self) -> bool {
        self.m@.len() == 16 && forall|k: int|
            0 <= k < 16 ==> fp_wf(#[trigger] self.m@[k] as int)
    }
}

/// A stored matrix is well-formed exactly when its integer image is.
pub proof fn lemma_wf_int(m: &TransformMatrix)
    requires
        m.m@.len() == 16,
    ensures
        m.wf() <==> mat_wf_int(m.s()),
{
    if m.wf() {
        assert forall|k: int| 0 <= k < 16 implies fp_wf(#[trigger] m.s()[k]) by {
            assert(m.s()[k] == m.m@[k] as int);
        };
    }
    if mat_wf_int(m.s()) {
        assert forall|k: int| 0 <= k < 16 implies fp_wf(#[trigger] m.m@[k] as int) by {
            assert(m.s()[k] == m.m@[k] as int);
        };
    }
}

/// One entry of the fixed-point matrix product.
pub open spec fn mm_ent(a: Seq<int>, b: Seq<int>, r: int, c: int) -> int {
    fp_mul(ent(a, r, 0), ent(b, 0, c)) + fp_mul(ent(a, r, 1), ent(b, 1, c))
        + fp_mul(ent(a, r, 2), ent(b, 2, c)) + fp_mul(ent(a, r, 3), ent(b, 3, c))
}

/// The fixed-point matrix product, entry by entry.
pub open spec fn mm_spec(a: Seq<int>, b: Seq<int>) -> Seq<int> {
    Seq::new(16, |k: int| mm_ent(a, b, k / 4, k % 4))
}

/// One coordinate of a transformed point (`r` selects the matrix row).
pub open spec fn app_row(m: Seq<int>, x: int, y: int, z: int, w: int, r: int) -> int {
    fp_mul(ent(m, r, 0), x) + fp_mul(ent(m, r, 1), y) + fp_mul(ent(m, r, 2), z)
        + fp_mul(ent(m, r, 3), w)
}

/// The identity transform (diagonal of fixed-point ones).
pub open spec fn ident_spec() -> Seq<int> {
    seq![
        SCALE as int, 0, 0, 0,
        0, SCALE as int, 0, 0,
        0, 0, SCALE as int, 0,
        0, 0, 0, SCALE as int,
    ]
}

/// Translation by `(vx, vy, vz)`.
pub open spec fn translate_spec(vx: int, vy: int, vz: int) -> Seq<int> {
    seq![
        SCALE as int, 0, 0, vx,
        0, SCALE as int, 0, vy,
        0, 0, SCALE as int, vz,
        0, 0, 0, SCALE as int,
    ]
}

/// Rotation about the X axis by an angle of sine `s` and cosine `c`.
pub open spec fn rotate_x_spec(s: int, c: int) -> Seq<int> {
    seq![
        SCALE as int, 0, 0, 0,
        0, c, -s, 0,
        0, s, c, 0,
        0, 0, 0, SCALE as int,
    ]
}

/// Rotation about the Y axis.
pub open spec fn rotate_y_spec(s: int, c: int) -> Seq<int> {
    seq![
        c, 0, s, 0,
        0, SCALE as int, 0, 0,
        -s, 0, c, 0,
        0, 0, 0, SCALE as int,
    ]
}

/// Rotation about the Z axis.
pub open spec fn rotate_z_spec(s: int, c: int) -> Seq<int> {
    seq![
        c, -s, 0, 0,
        s, c, 0, 0,
        0, 0, SCALE as int, 0,
        0, 0, 0, SCALE as int,
    ]
}

/// Uniform scale by `f` (the homogeneous channel keeps weight one).
pub open spec fn scale_spec(f: int) -> Seq<int> {
    seq![
        f, 0, 0, 0,
        0, f, 0, 0,
        0, 0, f, 0,
        0, 0, 0, SCALE as int,
    ]
}

/// A primitive transform operation; rotations carry the fixed-point sine
/// and cosine of their angle.
#[derive(Clone, Copy)]
pub enum Op {
    Translate { x: i64, y: i64, z: i64 },
    RotateX { s: i64, c: i64 },
    RotateY { s: i64, c: i64 },
    RotateZ { s: i64, c: i64 },
    Scale { f: i64 },
}

/// All scalars of the operation are storable.
pub open spec fn op_wf(op: Op) -> bool {
    match op {
        Op::Translate { x, y, z } => fp_wf(x as int) && fp_wf(y as int) && fp_wf(z as int),
        Op::RotateX { s, c } => fp_wf(s as int) && fp_wf(c as int),
        Op::RotateY { s, c } => fp_wf(s as int) && fp_wf(c as int),
        Op::RotateZ { s, c } => fp_wf(s as int) && fp_wf(c as int),
        Op::Scale { f } => fp_wf(f as int),
    }
}

/// The primitive matrix of an operation.
pub open spec fn mat_of_spec(op: Op) -> Seq<int> {
    match op {
        Op::Translate { x, y, z } => translate_spec(x as int, y as int, z as int),
        Op::RotateX { s, c } => rotate_x_spec(s as int, c as int),
        Op::RotateY { s, c } => rotate_y_spec(s as int, c as int),
        Op::RotateZ { s, c } => rotate_z_spec(s as int, c as int),
        Op::Scale { f } => scale_spec(f as int),
    }
}

/// The composed matrix of a call-ordered operation sequence: the first
/// operation is applied to points first, so it stands rightmost in the
/// product.
pub open spec fn compose_spec(ops: Seq<Op>) -> Seq<int>
    decreases ops.len(),
{
    if ops.len() == 0 {
        ident_spec()
    } else {
        mm_spec(mat_of_spec(ops.last()), compose_spec(ops.drop_last()))
    }
}

/// Every partial composition of the sequence has storable entries.
pub open spec fn compose_wf(ops: Seq<Op>) -> bool
    decreases ops.len(),
{
    if ops.len() == 0 {
        true
    } else {
        compose_wf(ops.drop_last()) && mat_wf_int(compose_spec(ops))
    }
}

/// The identity transform.
pub fn identity() -> (r: TransformMatrix)
    ensures
        r.wf(),
        r.s() == ident_spec(),
{
    let m: Vec<i64> = vec![
        SCALE, 0, 0, 0,
        0, SCALE, 0, 0,
        0, 0, SCALE, 0,
        0, 0, 0, SCALE,
    ];
    let r = TransformMatrix { m };
    proof {
        assert(r.s() =~= ident_spec());
    }
    r
}

/// The primitive matrix of an operation.
pub fn mat_of(op: &Op) -> (r: TransformMatrix)
    requires
        op_wf(*op),
    ensures
        r.wf(),
        r.s() == mat_of_spec(*op),
{
    let m: Vec<i64> = match op {
        Op::Translate { x, y, z } => vec![
            SCALE, 0, 0, *x,
            0, SCALE, 0, *y,
            0, 0, SCALE, *z,
            0, 0, 0, SCALE,
        ],
        Op::RotateX { s, c } => vec![
            SCALE, 0, 0, 0,
            0, *c, -*s, 0,
            0, *s, *c, 0,
            0, 0, 0, SCALE,
        ],
        Op::RotateY { s, c } => vec![
            *c, 0, *s, 0,
            0, SCALE, 0, 0,
            -*s, 0, *c, 0,
            0, 0, 0, SCALE,
        ],
        Op::RotateZ { s, c } => vec![
            *c, -*s, 0, 0,
            *s, *c, 0, 0,
            0, 0, SCALE, 0,
            0, 0, 0, SCALE,
        ],
        Op::Scale { f } => vec![
            *f, 0, 0, 0,
            0, *f, 0, 0,
            0, 0, *f, 0,
            0, 0, 0, SCALE,
        ],
    };
    let r = TransformMatrix { m };
    proof {
        assert(r.s() =~= mat_of_spec(*op));
    }
    r
}

/// The fixed-point matrix product; `None` exactly when some entry of the
/// exact product is not storable.
pub fn mat_mul(a: &TransformMatrix, b: &TransformMatrix) -> (r: Option<TransformMatrix>)
    requires
        a.wf(),
        b.wf(),
    ensures
        match r {
            Some(m) => m.wf() && m.s() == mm_spec(a.s(), b.s()),
            None => !mat_wf_int(mm_spec(a.s(), b.s())),
        },
{
    let mut out: Vec<i64> = Vec::new();
    let mut k: usize = 0;
    while k < 16
        invariant
            a.wf(),
            b.wf(),
            k <= 16,
            out@.len() == k,
            forall|kk: int|
                0 <= kk < k ==> #[trigger] out@[kk] as int == mm_spec(a.s(), b.s())[kk]
                    && fp_wf(out@[kk] as int),
        decreases 16 - k,
    {
        let r: usize = k / 4;
        let c: usize = k % 4;
        proof {
            vstd::arithmetic::div_mod::lemma_div_is_ordered(k as int, 15, 4);
            vstd::arithmetic::div_mod::lemma_fundamental_div_mod_converse(15, 4, 3, 3);
            assert(r <= 3 && c <= 3);
        }
        let s: i128 = fp_mul_wide(a.m[4 * r], b.m[c])
            + fp_mul_wide(a.m[4 * r + 1], b.m[4 + c])
            + fp_mul_wide(a.m[4 * r + 2], b.m[8 + c])
            + fp_mul_wide(a.m[4 * r + 3], b.m[12 + c]);
        proof {
            assert(ent(a.s(), r as int, 0) == a.m@[4 * r as int] as int);
            assert(ent(a.s(), r as int, 1) == a.m@[4 * r as int + 1] as int);
            assert(ent(a.s(), r as int, 2) == a.m@[4 * r as int + 2] as int);
            assert(ent(a.s(), r as int, 3) == a.m@[4 * r as int + 3] as int);
            assert(ent(b.s(), 0, c as int) == b.m@[c as int] as int);
            assert(ent(b.s(), 1, c as int) == b.m@[4 + c as int] as int);
            assert(ent(b.s(), 2, c as int) == b.m@[8 + c as int] as int);
            assert(ent(b.s(), 3, c as int) == b.m@[12 + c as int] as int);
            assert(s == mm_ent(a.s(), b.s(), r as int, c as int));
            assert(mm_spec(a.s(), b.s())[k as int] == mm_ent(a.s(), b.s(), r as int, c as int));
        }
        if s < -FP_BOUND as i128 || s > FP_BOUND as i128 {
            proof {
                assert(!fp_wf(mm_spec(a.s(), b.s())[k as int]));
            }
            return None;
        }
        out.push(s as i64);
        k += 1;
    }
    let r = TransformMatrix { m: out };
    proof {
        assert(r.s() =~= mm_spec(a.s(), b.s()));
    }
    Some(r)
}

/// Every prefix of a sequence whose partial compositions are storable has
/// storable partial compositions itself.
pub proof fn lemma_compose_wf_prefix(ops: Seq<Op>, k: int)
    requires
        compose_wf(ops),
        0 <= k <= ops.len(),
    ensures
        compose_wf(ops.take(k)),
    decreases ops.len() - k,
{
    if k == ops.len() {
        assert(ops.take(k) =~= ops);
    } else {
        lemma_compose_wf_prefix(ops, k + 1);
        assert(ops.take(k + 1).drop_last() =~= ops.take(k));
    }
}

/// Composes the operations in call order; `None` exactly when some
/// partial composition has an entry that is not storable.
pub fn compose(ops: &Vec<Op>) -> (r: Option<TransformMatrix>)
    requires
        forall|k: int| 0 <= k < ops@.len() ==> op_wf(#[trigger] ops@[k]),
    ensures
        match r {
            Some(m) => m.wf() && m.s() == compose_spec(ops@) && compose_wf(ops@),
            None => !compose_wf(ops@),
        },
{
    let mut acc: TransformMatrix = identity();
    proof {
        assert(ops@.take(0) =~= Seq::<Op>::empty());
        assert(acc.s() =~= compose_spec(ops@.take(0)));
    }
    let mut i: usize = 0;
    while i < ops.len()
        invariant
            forall|k: int| 0 <= k < ops@.len() ==> op_wf(#[trigger] ops@[k]),
            i <= ops@.len(),
            acc.wf(),
            acc.s() == compose_spec(ops@.take(i as int)),
            compose_wf(ops@.take(i as int)),
        decreases ops@.len() - i,
    {
        let prim: TransformMatrix = mat_of(&ops[i]);
        proof {
            assert(ops@.take(i + 1).drop_last() =~= ops@.take(i as int));
            assert(ops@.take(i + 1).last() == ops@[i as int]);
        }
        match mat_mul(&prim, &acc) {
            Some(next) => {
                proof {
                    lemma_wf_int(&next);
                    assert(compose_wf(ops@.take(i + 1)));
                }
                acc = next;
            },
            None => {
                proof {
                    assert(!compose_wf(ops@.take(i + 1)));
                    if compose_wf(ops@) {
                        lemma_compose_wf_prefix(ops@, i + 1);
                    }
                }
                return None;
            },
        }
        i += 1;
    }
    proof {
        assert(ops@.take(ops@.len() as int) =~= ops@);
    }
    Some(acc)
}

/// Applies the transform to one point; `None` exactly when some exact
/// output coordinate is not storable.
pub fn apply_point(m: &TransformMatrix, p: &Point3H) -> (r: Option<Point3H>)
    requires
        m.wf(),
        point_wf(*p),
    ensures
        match r {
            Some(q) => {
                &&& point_wf(q)
                &&& q.x == app_row(m.s(), p.x as int, p.y as int, p.z as int, p.w as int, 0)
                &&& q.y == app_row(m.s(), p.x as int, p.y as int, p.z as int, p.w as int, 1)
                &&& q.z == app_row(m.s(), p.x as int, p.y as int, p.z as int, p.w as int, 2)
                &&& q.w == app_row(m.s(), p.x as int, p.y as int, p.z as int, p.w as int, 3)
            },
            None => exists|r0: int|
                0 <= r0 < 4 && !fp_wf(
                    app_row(m.s(), p.x as int, p.y as int, p.z as int, p.w as int, r0),
                ),
        },
{
    let x: i128 = fp_mul_wide(m.m[0], p.x) + fp_mul_wide(m.m[1], p.y)
        + fp_mul_wide(m.m[2], p.z) + fp_mul_wide(m.m[3], p.w);
    let y: i128 = fp_mul_wide(m.m[4], p.x) + fp_mul_wide(m.m[5], p.y)
        + fp_mul_wide(m.m[6], p.z) + fp_mul_wide(m.m[7], p.w);
    let z: i128 = fp_mul_wide(m.m[8], p.x) + fp_mul_wide(m.m[9], p.y)
        + fp_mul_wide(m.m[10], p.z) + fp_mul_wide(m.m[11], p.w);
    let w: i128 = fp_mul_wide(m.m[12], p.x) + fp_mul_wide(m.m[13], p.y)
        + fp_mul_wide(m.m[14], p.z) + fp_mul_wide(m.m[15], p.w);
    proof {
        assert forall|k: int| 0 <= k < 16 implies m.s()[k] == m.m@[k] as int by {};
        assert(x == app_row(m.s(), p.x as int, p.y as int, p.z as int, p.w as int, 0));
        assert(y == app_row(m.s(), p.x as int, p.y as int, p.z as int, p.w as int, 1));
        assert(z == app_row(m.s(), p.x as int, p.y as int, p.z as int, p.w as int, 2));
        assert(w == app_row(m.s(), p.x as int, p.y as int, p.z as int, p.w as int, 3));
    }
    let lim: i128 = FP_BOUND as i128;
    if x < -lim || x > lim {
        return None;
    }
    if y < -lim || y > lim {
        return None;
    }
    if z < -lim || z > lim {
        return None;
    }
    if w < -lim || w > lim {
        return None;
    }
    Some(Point3H { x: x as i64, y: y as i64, z: z as i64, w: w as i64 })
}

/// `after` is the pointwise image of `before` under the matrix `m`,
/// every image point storable.
pub open spec fn row_transformed(m: Seq<int>, before: Seq<Point3H>, after: Seq<Point3H>) -> bool {
    &&& after.len() == before.len()
    &&& forall|k: int|
        0 <= k < before.len() ==> {
            let p = before[k];
            let q = #[trigger] after[k];
            &&& point_wf(q)
            &&& q.x == app_row(m, p.x as int, p.y as int, p.z as int, p.w as int, 0)
            &&& q.y == app_row(m, p.x as int, p.y as int, p.z as int, p.w as int, 1)
            &&& q.z == app_row(m, p.x as int, p.y as int, p.z as int, p.w as int, 2)
            &&& q.w == app_row(m, p.x as int, p.y as int, p.z as int, p.w as int, 3)
        }
}

/// Some point of the grid has an exact image coordinate under `m` that
/// is not storable: the condition under which transforming the whole
/// grid must fail.
pub open spec fn some_image_unstorable(m: Seq<int>, g: Seq<Vec<Point3H>>) -> bool {
    exists|a: int, k: int, r0: int|
        0 <= a < g.len() && 0 <= k < g[a]@.len() && 0 <= r0 < 4 && !fp_wf(
            #[trigger] app_row(m, g[a]@[k].x as int, g[a]@[k].y as int, g[a]@[k].z as int,
                g[a]@[k].w as int, r0),
        )
}

/// Applies the transform to every point of a row; `None` exactly when
/// some point of the row has a non-storable exact image.
pub fn apply_points(m: &TransformMatrix, pts: &Vec<Point3H>) -> (r: Option<Vec<Point3H>>)
    requires
        m.wf(),
        forall|k: int| 0 <= k < pts@.len() ==> point_wf(#[trigger] pts@[k]),
    ensures
        match r {
            Some(out) => row_transformed(m.s(), pts@, out@),
            None => exists|k: int, r0: int|
                0 <= k < pts@.len() && 0 <= r0 < 4 && !fp_wf(
                    app_row(m.s(), pts@[k].x as int, pts@[k].y as int, pts@[k].z as int,
                        pts@[k].w as int, r0),
                ),
        },
{
    let mut out: Vec<Point3H> = Vec::new();
    let mut k: usize = 0;
    while k < pts.len()
        invariant
            m.wf(),
            forall|kk: int| 0 <= kk < pts@.len() ==> point_wf(#[trigger] pts@[kk]),
            k <= pts@.len(),
            out@.len() == k,
            forall|kk: int|
                0 <= kk < k ==> point_wf(#[trigger] out@[kk])
                    && out@[kk].x == app_row(
                        m.s(), pts@[kk].x as int, pts@[kk].y as int, pts@[kk].z as int,
                        pts@[kk].w as int, 0)
                    && out@[kk].y == app_row(
                        m.s(), pts@[kk].x as int, pts@[kk].y as int, pts@[kk].z as int,
                        pts@[kk].w as int, 1)
                    && out@[kk].z == app_row(
                        m.s(), pts@[kk].x as int, pts@[kk].y as int, pts@[kk].z as int,
                        pts@[kk].w as int, 2)
                    && out@[kk].w == app_row(
                        m.s(), pts@[kk].x as int, pts@[kk].y as int, pts@[kk].z as int,
                        pts@[kk].w as int, 3),
        decreases pts@.len() - k,
    {
        match apply_point(m, &pts[k]) {
            Some(q) => {
                out.push(q);
            },
            None => {
                return None;
            },
        }
        k += 1;
    }
    Some(out)
}

/// A rotation by a zero angle (sine zero, cosine one) and a scale by
/// one apply as exact identities, whatever the point: the stages of the
/// frame pipeline are lossless wherever their scalars are exact.
pub proof fn lemma_neutral_ops_identity(x: int, y: int, z: int, w: int, r: int)
    requires
        0 <= r < 4,
    ensures
        app_row(rotate_x_spec(0, SCALE as int), x, y, z, w, r) == coord4(x, y, z, w, r),
        app_row(rotate_y_spec(0, SCALE as int), x, y, z, w, r) == coord4(x, y, z, w, r),
        app_row(rotate_z_spec(0, SCALE as int), x, y, z, w, r) == coord4(x, y, z, w, r),
        app_row(scale_spec(SCALE as int), x, y, z, w, r) == coord4(x, y, z, w, r),
        app_row(ident_spec(), x, y, z, w, r) == coord4(x, y, z, w, r),
{
    lemma_fp_mul_one_zero(x);
    lemma_fp_mul_one_zero(y);
    lemma_fp_mul_one_zero(z);
    lemma_fp_mul_one_zero(w);
}

/// Coordinate selector over the four homogeneous channels.
pub open spec fn coord4(x: int, y: int, z: int, w: int, r: int) -> int {
    if r == 0 {
        x
    } else if r == 1 {
        y
    } else if r == 2 {
        z
    } else {
        w
    }
}

/// Transform round trip for the translation stage: translating forward
/// and then back by the opposite vector returns every coordinate exactly,
/// for any affine point and any storable vector.  (The rotation and scale
/// stages of the pipeline round to fixed-point precision, so the full
/// round trip holds only to that precision and is checked by tests, not
/// stated here.)
pub proof fn lemma_translate_round_trip(x: int, y: int, z: int, vx: int, vy: int, vz: int)
    ensures
        ({
            let fwd = translate_spec(vx, vy, vz);
            let back = translate_spec(-vx, -vy, -vz);
            let qx = app_row(fwd, x, y, z, SCALE as int, 0);
            let qy = app_row(fwd, x, y, z, SCALE as int, 1);
            let qz = app_row(fwd, x, y, z, SCALE as int, 2);
            let qw = app_row(fwd, x, y, z, SCALE as int, 3);
            &&& qw == SCALE as int
            &&& app_row(back, qx, qy, qz, qw, 0) == x
            &&& app_row(back, qx, qy, qz, qw, 1) == y
            &&& app_row(back, qx, qy, qz, qw, 2) == z
            &&& app_row(back, qx, qy, qz, qw, 3) == SCALE as int
        }),
{
    lemma_fp_mul_one_zero(x);
    lemma_fp_mul_one_zero(y);
    lemma_fp_mul_one_zero(z);
    lemma_fp_mul_one_zero(vx);
    lemma_fp_mul_one_zero(-vx);
    lemma_fp_mul_one_zero(vy);
    lemma_fp_mul_one_zero(-vy);
    lemma_fp_mul_one_zero(vz);
    lemma_fp_mul_one_zero(-vz);
    lemma_fp_mul_one_zero(SCALE as int);
    lemma_fp_mul_one_zero(x + vx);
    lemma_fp_mul_one_zero(y + vy);
    lemma_fp_mul_one_zero(z + vz);
    lemma_fp_mul_one_zero(0);
}

} // verus!
