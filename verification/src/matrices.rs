//! Row-major 4x4 transforms over fixed-point scalars: constructors for the
//! standard model/view/projection matrices, the matrix product, and the
//! proof that the identity is neutral for the product.

use vstd::prelude::*;
use crate::fixed::FX_ONE;
use crate::fixed::COORD_MAX;
use crate::fixed::div_trunc;
use crate::fixed::iabs;
use crate::fixed::fx_div;
use crate::fixed::lemma_mul_bound;
use crate::fixed::lemma_div_trunc_bounds;
use crate::fixed::Vec3;
use crate::fixed::vec3_bounded;

verus! {

/// Largest magnitude (raw fixed-point units) a well-formed matrix entry
/// may take.
pub const MAT_MAX: i64 = 1_000_000_000;

/// A row-major 4x4 matrix; entry `mIJ` sits in row `I`, column `J`.
#[derive(Clone, Copy, PartialEq, Eq, Structural, Debug)]
pub struct Mat4 {
    pub m00: i64,
    pub m01: i64,
    pub m02: i64,
    pub m03: i64,
    pub m10: i64,
    pub m11: i64,
    pub m12: i64,
    pub m13: i64,
    pub m20: i64,
    pub m21: i64,
    pub m22: i64,
    pub m23: i64,
    pub m30: i64,
    pub m31: i64,
    pub m32: i64,
    pub m33: i64,
}

pub open spec fn mat_bounded(m: Mat4, k: int) -> bool {
    &&& iabs(m.m00 as int) <= k
    &&& iabs(m.m01 as int) <= k
    &&& iabs(m.m02 as int) <= k
    &&& iabs(m.m03 as int) <= k
    &&& iabs(m.m10 as int) <= k
    &&& iabs(m.m11 as int) <= k
    &&& iabs(m.m12 as int) <= k
    &&& iabs(m.m13 as int) <= k
    &&& iabs(m.m20 as int) <= k
    &&& iabs(m.m21 as int) <= k
    &&& iabs(m.m22 as int) <= k
    &&& iabs(m.m23 as int) <= k
    &&& iabs(m.m30 as int) <= k
    &&& iabs(m.m31 as int) <= k
    &&& iabs(m.m32 as int) <= k
    &&& iabs(m.m33 as int) <= k
}

pub open spec fn mat_wf(m: Mat4) -> bool {
    mat_bounded(m, MAT_MAX as int)
}

/// One entry of the fixed-point matrix product: the dot of a row of `a`
/// with a column of `b`, scaled back down by one fixed-point unit.
pub open spec fn spec_dot4(a0: int, a1: int, a2: int, a3: int, b0: int, b1: int, b2: int, b3: int) -> int {
    div_trunc(a0 * b0 + a1 * b1 + a2 * b2 + a3 * b3, FX_ONE as int)
}

/// The fixed-point matrix product, row-major: entry (i, j) is the dot of
/// row i of `a` with column j of `b`.
pub open spec fn spec_mat_mul(a: Mat4, b: Mat4) -> Mat4 {
    Mat4 {
        m00: spec_dot4(a.m00 as int, a.m01 as int, a.m02 as int, a.m03 as int, b.m00 as int, b.m10 as int, b.m20 as int, b.m30 as int) as i64,
        m01: spec_dot4(a.m00 as int, a.m01 as int, a.m02 as int, a.m03 as int, b.m01 as int, b.m11 as int, b.m21 as int, b.m31 as int) as i64,
        m02: spec_dot4(a.m00 as int, a.m01 as int, a.m02 as int, a.m03 as int, b.m02 as int, b.m12 as int, b.m22 as int, b.m32 as int) as i64,
        m03: spec_dot4(a.m00 as int, a.m01 as int, a.m02 as int, a.m03 as int, b.m03 as int, b.m13 as int, b.m23 as int, b.m33 as int) as i64,
        m10: spec_dot4(a.m10 as int, a.m11 as int, a.m12 as int, a.m13 as int, b.m00 as int, b.m10 as int, b.m20 as int, b.m30 as int) as i64,
        m11: spec_dot4(a.m10 as int, a.m11 as int, a.m12 as int, a.m13 as int, b.m01 as int, b.m11 as int, b.m21 as int, b.m31 as int) as i64,
        m12: spec_dot4(a.m10 as int, a.m11 as int, a.m12 as int, a.m13 as int, b.m02 as int, b.m12 as int, b.m22 as int, b.m32 as int) as i64,
        m13: spec_dot4(a.m10 as int, a.m11 as int, a.m12 as int, a.m13 as int, b.m03 as int, b.m13 as int, b.m23 as int, b.m33 as int) as i64,
        m20: spec_dot4(a.m20 as int, a.m21 as int, a.m22 as int, a.m23 as int, b.m00 as int, b.m10 as int, b.m20 as int, b.m30 as int) as i64,
        m21: spec_dot4(a.m20 as int, a.m21 as int, a.m22 as int, a.m23 as int, b.m01 as int, b.m11 as int, b.m21 as int, b.m31 as int) as i64,
        m22: spec_dot4(a.m20 as int, a.m21 as int, a.m22 as int, a.m23 as int, b.m02 as int, b.m12 as int, b.m22 as int, b.m32 as int) as i64,
        m23: spec_dot4(a.m20 as int, a.m21 as int, a.m22 as int, a.m23 as int, b.m03 as int, b.m13 as int, b.m23 as int, b.m33 as int) as i64,
        m30: spec_dot4(a.m30 as int, a.m31 as int, a.m32 as int, a.m33 as int, b.m00 as int, b.m10 as int, b.m20 as int, b.m30 as int) as i64,
        m31: spec_dot4(a.m30 as int, a.m31 as int, a.m32 as int, a.m33 as int, b.m01 as int, b.m11 as int, b.m21 as int, b.m31 as int) as i64,
        m32: spec_dot4(a.m30 as int, a.m31 as int, a.m32 as int, a.m33 as int, b.m02 as int, b.m12 as int, b.m22 as int, b.m32 as int) as i64,
        m33: spec_dot4(a.m30 as int, a.m31 as int, a.m32 as int, a.m33 as int, b.m03 as int, b.m13 as int, b.m23 as int, b.m33 as int) as i64,
    }
}

pub open spec fn spec_identity() -> Mat4 {
    Mat4 {
        m00: FX_ONE, m01: 0, m02: 0, m03: 0,
        m10: 0, m11: FX_ONE, m12: 0, m13: 0,
        m20: 0, m21: 0, m22: FX_ONE, m23: 0,
        m30: 0, m31: 0, m32: 0, m33: FX_ONE,
    }
}

/// The identity transform.
pub fn mat4_identity() -> (r: Mat4)
    ensures
        r == spec_identity(),
        mat_wf(r),
{
    Mat4 {
        m00: FX_ONE, m01: 0, m02: 0, m03: 0,
        m10: 0, m11: FX_ONE, m12: 0, m13: 0,
        m20: 0, m21: 0, m22: FX_ONE, m23: 0,
        m30: 0, m31: 0, m32: 0, m33: FX_ONE,
    }
}

/// The translation by `t`: the identity with `t` in the last column.
pub fn mat4_translation(t: Vec3) -> (r: Mat4)
    requires
        vec3_bounded(t, MAT_MAX as int),
    ensures
        r == (Mat4 { m03: t.x, m13: t.y, m23: t.z, ..spec_identity() }),
        mat_wf(r),
{
    Mat4 {
        m00: FX_ONE, m01: 0, m02: 0, m03: t.x,
        m10: 0, m11: FX_ONE, m12: 0, m13: t.y,
        m20: 0, m21: 0, m22: FX_ONE, m23: t.z,
        m30: 0, m31: 0, m32: 0, m33: FX_ONE,
    }
}

/// The axis-aligned scale by `s`: `s` on the diagonal.
pub fn mat4_scale(s: Vec3) -> (r: Mat4)
    requires
        vec3_bounded(s, MAT_MAX as int),
    ensures
        r == (Mat4 { m00: s.x, m11: s.y, m22: s.z, ..spec_identity() }),
        mat_wf(r),
{
    Mat4 {
        m00: s.x, m01: 0, m02: 0, m03: 0,
        m10: 0, m11: s.y, m12: 0, m13: 0,
        m20: 0, m21: 0, m22: s.z, m23: 0,
        m30: 0, m31: 0, m32: 0, m33: FX_ONE,
    }
}

/// The right-handed rotation about the x axis whose cosine and sine are
/// `c` and `s` (both fixed-point, computed by the caller).
pub fn mat4_rotation_x(c: i64, s: i64) -> (r: Mat4)
    requires
        iabs(c as int) <= FX_ONE as int,
        iabs(s as int) <= FX_ONE as int,
    ensures
        r == (Mat4 { m11: c, m12: (-(s as int)) as i64, m21: s, m22: c, ..spec_identity() }),
        mat_bounded(r, FX_ONE as int),
{
    Mat4 {
        m00: FX_ONE, m01: 0, m02: 0, m03: 0,
        m10: 0, m11: c, m12: -s, m13: 0,
        m20: 0, m21: s, m22: c, m23: 0,
        m30: 0, m31: 0, m32: 0, m33: FX_ONE,
    }
}

/// The right-handed rotation about the y axis whose cosine and sine are
/// `c` and `s`.
pub fn mat4_rotation_y(c: i64, s: i64) -> (r: Mat4)
    requires
        iabs(c as int) <= FX_ONE as int,
        iabs(s as int) <= FX_ONE as int,
    ensures
        r == (Mat4 { m00: c, m02: s, m20: (-(s as int)) as i64, m22: c, ..spec_identity() }),
        mat_bounded(r, FX_ONE as int),
{
    Mat4 {
        m00: c, m01: 0, m02: s, m03: 0,
        m10: 0, m11: FX_ONE, m12: 0, m13: 0,
        m20: -s, m21: 0, m22: c, m23: 0,
        m30: 0, m31: 0, m32: 0, m33: FX_ONE,
    }
}

/// One fixed-point dot term of the product.
fn dot4(a0: i64, a1: i64, a2: i64, a3: i64, b0: i64, b1: i64, b2: i64, b3: i64) -> (r: i64)
    requires
        iabs(a0 as int) <= MAT_MAX as int,
        iabs(a1 as int) <= MAT_MAX as int,
        iabs(a2 as int) <= MAT_MAX as int,
        iabs(a3 as int) <= MAT_MAX as int,
        iabs(b0 as int) <= MAT_MAX as int,
        iabs(b1 as int) <= MAT_MAX as int,
        iabs(b2 as int) <= MAT_MAX as int,
        iabs(b3 as int) <= MAT_MAX as int,
    ensures
        r as int == spec_dot4(a0 as int, a1 as int, a2 as int, a3 as int, b0 as int, b1 as int, b2 as int, b3 as int),
{
    proof {
        lemma_mul_bound(a0 as int, b0 as int, MAT_MAX as int, MAT_MAX as int);
        lemma_mul_bound(a1 as int, b1 as int, MAT_MAX as int, MAT_MAX as int);
        lemma_mul_bound(a2 as int, b2 as int, MAT_MAX as int, MAT_MAX as int);
        lemma_mul_bound(a3 as int, b3 as int, MAT_MAX as int, MAT_MAX as int);
    }
    let sum: i64 = a0 * b0 + a1 * b1 + a2 * b2 + a3 * b3;
    fx_div(sum, FX_ONE)
}

/// The matrix product `a * b` (not commutative; `a` is applied after `b`
/// when a column point is transformed).
pub fn mat4_mul(a: Mat4, b: Mat4) -> (r: Mat4)
    requires
        mat_wf(a),
        mat_wf(b),
    ensures
        r == spec_mat_mul(a, b),
{
    Mat4 {
        m00: dot4(a.m00, a.m01, a.m02, a.m03, b.m00, b.m10, b.m20, b.m30),
        m01: dot4(a.m00, a.m01, a.m02, a.m03, b.m01, b.m11, b.m21, b.m31),
        m02: dot4(a.m00, a.m01, a.m02, a.m03, b.m02, b.m12, b.m22, b.m32),
        m03: dot4(a.m00, a.m01, a.m02, a.m03, b.m03, b.m13, b.m23, b.m33),
        m10: dot4(a.m10, a.m11, a.m12, a.m13, b.m00, b.m10, b.m20, b.m30),
        m11: dot4(a.m10, a.m11, a.m12, a.m13, b.m01, b.m11, b.m21, b.m31),
        m12: dot4(a.m10, a.m11, a.m12, a.m13, b.m02, b.m12, b.m22, b.m32),
        m13: dot4(a.m10, a.m11, a.m12, a.m13, b.m03, b.m13, b.m23, b.m33),
        m20: dot4(a.m20, a.m21, a.m22, a.m23, b.m00, b.m10, b.m20, b.m30),
        m21: dot4(a.m20, a.m21, a.m22, a.m23, b.m01, b.m11, b.m21, b.m31),
        m22: dot4(a.m20, a.m21, a.m22, a.m23, b.m02, b.m12, b.m22, b.m32),
        m23: dot4(a.m20, a.m21, a.m22, a.m23, b.m03, b.m13, b.m23, b.m33),
        m30: dot4(a.m30, a.m31, a.m32, a.m33, b.m00, b.m10, b.m20, b.m30),
        m31: dot4(a.m30, a.m31, a.m32, a.m33, b.m01, b.m11, b.m21, b.m31),
        m32: dot4(a.m30, a.m31, a.m32, a.m33, b.m02, b.m12, b.m22, b.m32),
        m33: dot4(a.m30, a.m31, a.m32, a.m33, b.m03, b.m13, b.m23, b.m33),
    }
}

/// Scaling a multiple of one fixed-point unit back down is exact.
proof fn lemma_mul_div_one(x: int)
    ensures
        div_trunc(FX_ONE as int * x, FX_ONE as int) == x,
{
    if x >= 0 {
        vstd::arithmetic::div_mod::lemma_div_multiples_vanish(x, FX_ONE as int);
    } else {
        vstd::arithmetic::div_mod::lemma_div_multiples_vanish(-x, FX_ONE as int);
        assert(-(FX_ONE as int * x) == FX_ONE as int * (-x)) by (nonlinear_arith);
    }
}

/// The identity is neutral for the matrix product on both sides: the
/// round-trip `identity * m == m == m * identity` holds for every matrix.
pub proof fn lemma_mul_identity(m: Mat4)
    ensures
        spec_mat_mul(spec_identity(), m) == m,
        spec_mat_mul(m, spec_identity()) == m,
{
    lemma_mul_div_one(m.m00 as int);
    lemma_mul_div_one(m.m01 as int);
    lemma_mul_div_one(m.m02 as int);
    lemma_mul_div_one(m.m03 as int);
    lemma_mul_div_one(m.m10 as int);
    lemma_mul_div_one(m.m11 as int);
    lemma_mul_div_one(m.m12 as int);
    lemma_mul_div_one(m.m13 as int);
    lemma_mul_div_one(m.m20 as int);
    lemma_mul_div_one(m.m21 as int);
    lemma_mul_div_one(m.m22 as int);
    lemma_mul_div_one(m.m23 as int);
    lemma_mul_div_one(m.m30 as int);
    lemma_mul_div_one(m.m31 as int);
    lemma_mul_div_one(m.m32 as int);
    lemma_mul_div_one(m.m33 as int);
}

/// Entries of a product are bounded by what the input bounds force.
pub proof fn lemma_mat_mul_bounded(a: Mat4, b: Mat4, ka: int, kb: int)
    requires
        mat_bounded(a, ka),
        mat_bounded(b, kb),
        0 <= ka,
        0 <= kb,
    ensures
        mat_bounded(spec_mat_mul(a, b), div_trunc(4 * ka * kb, FX_ONE as int) + 1),
{
    let cap = 4 * ka * kb;
    assert forall|a0: int, a1: int, a2: int, a3: int, b0: int, b1: int, b2: int, b3: int|
        iabs(a0) <= ka && iabs(a1) <= ka && iabs(a2) <= ka && iabs(a3) <= ka
        && iabs(b0) <= kb && iabs(b1) <= kb && iabs(b2) <= kb && iabs(b3) <= kb
        implies iabs(#[trigger] spec_dot4(a0, a1, a2, a3, b0, b1, b2, b3)) <= div_trunc(cap, FX_ONE as int) + 1 by {
        lemma_mul_bound(a0, b0, ka, kb);
        lemma_mul_bound(a1, b1, ka, kb);
        lemma_mul_bound(a2, b2, ka, kb);
        lemma_mul_bound(a3, b3, ka, kb);
        let s = a0 * b0 + a1 * b1 + a2 * b2 + a3 * b3;
        lemma_div_trunc_bounds(s, FX_ONE as int);
        lemma_div_trunc_bounds(cap, FX_ONE as int);
        assert(4 * ka * kb == 4 * (ka * kb)) by (nonlinear_arith);
        assert(iabs(s) <= cap);
        let q = div_trunc(s, FX_ONE as int);
        let qc = div_trunc(cap, FX_ONE as int);
        assert(iabs(q) * FX_ONE as int <= iabs(s));
        assert(cap < (qc + 1) * FX_ONE as int);
        assert(iabs(q) <= qc ==> iabs(q) <= qc + 1);
        if iabs(q) > qc {
            assert(iabs(q) >= qc + 1);
            assert(iabs(q) * FX_ONE as int >= (qc + 1) * FX_ONE as int) by (nonlinear_arith)
                requires
                    iabs(q) >= qc + 1,
                    FX_ONE as int > 0,
            ;
            assert(false);
        }
    }
}

/// The projection built from a symmetric frustum: `tan_half` is the
/// tangent of half the vertical field of view, the horizontal extent is
/// widened by `aspect`, and depth is mapped linearly from `near`..`far`.
pub open spec fn spec_perspective(tan_half: int, aspect: int, near: int, far: int) -> Mat4 {
    let rr = div_trunc(aspect * tan_half, FX_ONE as int);
    Mat4 {
        m00: div_trunc(FX_ONE * FX_ONE, rr) as i64,
        m01: 0,
        m02: 0,
        m03: 0,
        m10: 0,
        m11: div_trunc(FX_ONE * FX_ONE, tan_half) as i64,
        m12: 0,
        m13: 0,
        m20: 0,
        m21: 0,
        m22: (-div_trunc(2 * FX_ONE * FX_ONE, far - near)) as i64,
        m23: (-div_trunc((far + near) * FX_ONE, far - near)) as i64,
        m30: 0,
        m31: 0,
        m32: 0,
        m33: FX_ONE,
    }
}

/// The projection matrix of a symmetric viewing volume; `tan_half` and
/// `aspect` are fixed-point (0.1..10 and 0.01..100), the depth planes sit
/// at `near` and `far` with at least one unit between them.
pub fn mat4_perspective(tan_half: i64, aspect: i64, near: i64, far: i64) -> (r: Mat4)
    requires
        1000 <= tan_half <= 100_000,
        100 <= aspect <= 1_000_000,
        0 <= near,
        near + FX_ONE <= far <= COORD_MAX,
    ensures
        r == spec_perspective(tan_half as int, aspect as int, near as int, far as int),
        mat_wf(r),
{
    proof {
        lemma_mul_bound(aspect as int, tan_half as int, 1_000_000, 100_000);
        lemma_div_trunc_bounds(aspect as int * tan_half as int, FX_ONE as int);
        assert(aspect as int * tan_half as int >= 100_000) by (nonlinear_arith)
            requires
                aspect as int >= 100,
                tan_half as int >= 1000,
        ;
        vstd::arithmetic::div_mod::lemma_div_is_ordered(
            100_000int,
            aspect as int * tan_half as int,
            FX_ONE as int,
        );
    }
    let rr: i64 = fx_div(aspect * tan_half, FX_ONE);
    proof {
        lemma_div_trunc_bounds(FX_ONE as int * FX_ONE as int, rr as int);
        lemma_div_trunc_bounds(FX_ONE as int * FX_ONE as int, tan_half as int);
        lemma_div_trunc_bounds(2 * FX_ONE as int * FX_ONE as int, far as int - near as int);
        lemma_mul_bound(far as int + near as int, FX_ONE as int, 2 * COORD_MAX as int, FX_ONE as int);
        lemma_div_trunc_bounds((far as int + near as int) * FX_ONE as int, far as int - near as int);
        let w = div_trunc((far as int + near as int) * FX_ONE as int, far as int - near as int);
        assert(iabs(w) <= 2 * COORD_MAX as int) by (nonlinear_arith)
            requires
                iabs(w) * (far as int - near as int) <= iabs((far as int + near as int) * FX_ONE as int),
                iabs((far as int + near as int) * FX_ONE as int) <= 2 * COORD_MAX as int * FX_ONE as int,
                far as int - near as int >= FX_ONE as int,
                FX_ONE == 10000,
                iabs(w) >= 0,
        ;
    }
    Mat4 {
        m00: fx_div(FX_ONE * FX_ONE, rr),
        m01: 0,
        m02: 0,
        m03: 0,
        m10: 0,
        m11: fx_div(FX_ONE * FX_ONE, tan_half),
        m12: 0,
        m13: 0,
        m20: 0,
        m21: 0,
        m22: -fx_div(2 * FX_ONE * FX_ONE, far - near),
        m23: -fx_div((far + near) * FX_ONE, far - near),
        m30: 0,
        m31: 0,
        m32: 0,
        m33: FX_ONE,
    }
}

/// The per-frame model transform under the rotation-only policy: the
/// rotation about y (cosine `cy`, sine `sy`) composed with the rotation
/// about x (cosine `cx`, sine `sx`), y applied last.
pub fn model_matrix(cy: i64, sy: i64, cx: i64, sx: i64) -> (r: Mat4)
    requires
        iabs(cy as int) <= FX_ONE as int,
        iabs(sy as int) <= FX_ONE as int,
        iabs(cx as int) <= FX_ONE as int,
        iabs(sx as int) <= FX_ONE as int,
    ensures
        r == spec_mat_mul(
            Mat4 { m00: cy, m02: sy, m20: (-(sy as int)) as i64, m22: cy, ..spec_identity() },
            Mat4 { m11: cx, m12: (-(sx as int)) as i64, m21: sx, m22: cx, ..spec_identity() },
        ),
        mat_wf(r),
{
    let ry: Mat4 = mat4_rotation_y(cy, sy);
    let rx: Mat4 = mat4_rotation_x(cx, sx);
    proof {
        lemma_mat_mul_bounded(ry, rx, FX_ONE as int, FX_ONE as int);
    }
    mat4_mul(ry, rx)
}

/// The view matrix of a camera at `eye` looking toward `target` with the
/// given up hint: rows are the Gram-Schmidt-orthonormalized camera basis
/// (right, up, minus forward) with the projected eye offsets in the last
/// column. A degenerate configuration (eye on target, or up parallel to
/// the view direction) falls back through normalization's fixed fallback
/// direction instead of failing.
pub open spec fn spec_look_at(eye: Vec3, target: Vec3, up: Vec3) -> Mat4 {
    let f = crate::fixed::spec_normalize(
        target.x - eye.x,
        target.y - eye.y,
        target.z - eye.z,
    );
    let rc = crate::fixed::spec_cross(f.0, f.1, f.2, up.x as int, up.y as int, up.z as int);
    let r = crate::fixed::spec_normalize(rc.0, rc.1, rc.2);
    let uc = crate::fixed::spec_cross(r.0, r.1, r.2, f.0, f.1, f.2);
    let u = (
        div_trunc(uc.0, FX_ONE as int),
        div_trunc(uc.1, FX_ONE as int),
        div_trunc(uc.2, FX_ONE as int),
    );
    Mat4 {
        m00: r.0 as i64,
        m01: r.1 as i64,
        m02: r.2 as i64,
        m03: (-div_trunc(r.0 * eye.x + r.1 * eye.y + r.2 * eye.z, FX_ONE as int)) as i64,
        m10: u.0 as i64,
        m11: u.1 as i64,
        m12: u.2 as i64,
        m13: (-div_trunc(u.0 * eye.x + u.1 * eye.y + u.2 * eye.z, FX_ONE as int)) as i64,
        m20: (-f.0) as i64,
        m21: (-f.1) as i64,
        m22: (-f.2) as i64,
        m23: div_trunc(f.0 * eye.x + f.1 * eye.y + f.2 * eye.z, FX_ONE as int) as i64,
        m30: 0,
        m31: 0,
        m32: 0,
        m33: FX_ONE,
    }
}

/// One projected offset of the view matrix's last column.
fn view_dot(bx: i64, by: i64, bz: i64, e: Vec3) -> (r: i64)
    requires
        iabs(bx as int) <= 2 * FX_ONE as int,
        iabs(by as int) <= 2 * FX_ONE as int,
        iabs(bz as int) <= 2 * FX_ONE as int,
        vec3_bounded(e, COORD_MAX as int),
    ensures
        r as int == div_trunc(
            bx as int * e.x as int + by as int * e.y as int + bz as int * e.z as int,
            FX_ONE as int,
        ),
        iabs(r as int) <= 3 * 2 * COORD_MAX as int,
{
    proof {
        lemma_mul_bound(bx as int, e.x as int, 2 * FX_ONE as int, COORD_MAX as int);
        lemma_mul_bound(by as int, e.y as int, 2 * FX_ONE as int, COORD_MAX as int);
        lemma_mul_bound(bz as int, e.z as int, 2 * FX_ONE as int, COORD_MAX as int);
        lemma_div_trunc_bounds(
            bx as int * e.x as int + by as int * e.y as int + bz as int * e.z as int,
            FX_ONE as int,
        );
        let q = div_trunc(
            bx as int * e.x as int + by as int * e.y as int + bz as int * e.z as int,
            FX_ONE as int,
        );
        assert(iabs(q) <= 3 * 2 * COORD_MAX as int) by (nonlinear_arith)
            requires
                iabs(q) * FX_ONE as int <= iabs(
                    bx as int * e.x as int + by as int * e.y as int + bz as int * e.z as int,
                ),
                iabs(
                    bx as int * e.x as int + by as int * e.y as int + bz as int * e.z as int,
                ) <= 3 * (2 * FX_ONE as int * COORD_MAX as int),
                FX_ONE == 10000,
                COORD_MAX == 10_000_000,
                iabs(q) >= 0,
        ;
    }
    fx_div(bx * e.x + by * e.y + bz * e.z, FX_ONE)
}

/// Builds the view matrix; see `spec_look_at` for the basis and the
/// degenerate-case fallback.
pub fn look_at(eye: Vec3, target: Vec3, up: Vec3) -> (m: Mat4)
    requires
        vec3_bounded(eye, COORD_MAX as int),
        vec3_bounded(target, COORD_MAX as int),
        vec3_bounded(up, COORD_MAX as int),
    ensures
        m == spec_look_at(eye, target, up),
        mat_wf(m),
{
    let f: Vec3 = crate::fixed::normalize3(target.x - eye.x, target.y - eye.y, target.z - eye.z);
    let rc: Vec3 = crate::fixed::cross3(f, up);
    let rv: Vec3 = crate::fixed::normalize3(rc.x, rc.y, rc.z);
    let uc: Vec3 = crate::fixed::cross3(rv, f);
    proof {
        lemma_mul_bound(rv.y as int, f.z as int, FX_ONE as int, FX_ONE as int);
        lemma_mul_bound(rv.z as int, f.y as int, FX_ONE as int, FX_ONE as int);
        lemma_mul_bound(rv.z as int, f.x as int, FX_ONE as int, FX_ONE as int);
        lemma_mul_bound(rv.x as int, f.z as int, FX_ONE as int, FX_ONE as int);
        lemma_mul_bound(rv.x as int, f.y as int, FX_ONE as int, FX_ONE as int);
        lemma_mul_bound(rv.y as int, f.x as int, FX_ONE as int, FX_ONE as int);
        lemma_div_trunc_bounds(uc.x as int, FX_ONE as int);
        lemma_div_trunc_bounds(uc.y as int, FX_ONE as int);
        lemma_div_trunc_bounds(uc.z as int, FX_ONE as int);
    }
    let ux: i64 = fx_div(uc.x, FX_ONE);
    let uy: i64 = fx_div(uc.y, FX_ONE);
    let uz: i64 = fx_div(uc.z, FX_ONE);
    let rdot: i64 = view_dot(rv.x, rv.y, rv.z, eye);
    let udot: i64 = view_dot(ux, uy, uz, eye);
    let fdot: i64 = view_dot(f.x, f.y, f.z, eye);
    Mat4 {
        m00: rv.x,
        m01: rv.y,
        m02: rv.z,
        m03: -rdot,
        m10: ux,
        m11: uy,
        m12: uz,
        m13: -udot,
        m20: -f.x,
        m21: -f.y,
        m22: -f.z,
        m23: fdot,
        m30: 0,
        m31: 0,
        m32: 0,
        m33: FX_ONE,
    }
}

/// Applies the affine part of `m` to the point `p` (w taken as one, no
/// perspective divide).
pub fn transform_point(m: &Mat4, p: Vec3) -> (r: Vec3)
    requires
        mat_wf(*m),
        vec3_bounded(p, MAT_MAX as int),
    ensures
        r.x as int == spec_dot4(m.m00 as int, m.m01 as int, m.m02 as int, m.m03 as int, p.x as int, p.y as int, p.z as int, FX_ONE as int),
        r.y as int == spec_dot4(m.m10 as int, m.m11 as int, m.m12 as int, m.m13 as int, p.x as int, p.y as int, p.z as int, FX_ONE as int),
        r.z as int == spec_dot4(m.m20 as int, m.m21 as int, m.m22 as int, m.m23 as int, p.x as int, p.y as int, p.z as int, FX_ONE as int),
{
    Vec3 {
        x: dot4(m.m00, m.m01, m.m02, m.m03, p.x, p.y, p.z, FX_ONE),
        y: dot4(m.m10, m.m11, m.m12, m.m13, p.x, p.y, p.z, FX_ONE),
        z: dot4(m.m20, m.m21, m.m22, m.m23, p.x, p.y, p.z, FX_ONE),
    }
}

} // verus!
