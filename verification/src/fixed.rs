//! Fixed-point scalars and the small numeric helpers the rest of the
//! library is built on. Every scalar is an `i64` holding the real value
//! times `FX_ONE`, so four decimal digits of fraction are kept; all
//! divisions truncate toward zero.

use vstd::prelude::*;

verus! {

/// One unit of the fixed-point scale.
pub const FX_ONE: i64 = 10000;

/// Largest magnitude (raw fixed-point units) accepted for a scalar read
/// from a mesh or material description: 1000.0 in real terms.
pub const COORD_MAX: i64 = 10_000_000;

/// Largest magnitude (raw fixed-point units) a scene-state scalar may
/// reach before it is clamped.
pub const FX_ABS_MAX: i64 = 1_000_000_000_000;

pub open spec fn iabs(a: int) -> int {
    if a >= 0 {
        a
    } else {
        -a
    }
}

pub open spec fn imin(a: int, b: int) -> int {
    if a <= b {
        a
    } else {
        b
    }
}

pub open spec fn imax(a: int, b: int) -> int {
    if a >= b {
        a
    } else {
        b
    }
}

pub open spec fn fx_wf(v: i64) -> bool {
    -FX_ABS_MAX <= v <= FX_ABS_MAX
}

pub open spec fn coord_wf(v: i64) -> bool {
    -COORD_MAX <= v <= COORD_MAX
}

/// Division truncated toward zero, the rounding used throughout.
pub open spec fn div_trunc(a: int, b: int) -> int {
    if a >= 0 {
        a / b
    } else {
        -((-a) / b)
    }
}

/// Truncated division moves the quotient toward zero by less than one
/// divisor's worth.
pub proof fn lemma_div_trunc_bounds(a: int, b: int)
    requires
        b > 0,
    ensures
        iabs(div_trunc(a, b)) * b <= iabs(a),
        iabs(a) < iabs(div_trunc(a, b)) * b + b,
        iabs(div_trunc(a, b)) <= iabs(a),
        a >= 0 ==> div_trunc(a, b) >= 0,
        a <= 0 ==> div_trunc(a, b) <= 0,
{
    let m = iabs(a);
    let q = m / b;
    vstd::arithmetic::div_mod::lemma_fundamental_div_mod(m, b);
    assert(q * b <= m < q * b + b);
    assert(q >= 0) by (nonlinear_arith)
        requires
            m >= 0,
            b > 0,
            q == m / b,
    ;
    assert(q <= q * b) by (nonlinear_arith)
        requires
            q >= 0,
            b >= 1,
    ;
    if a >= 0 {
        assert(div_trunc(a, b) == q);
    } else {
        assert(div_trunc(a, b) == -q);
    }
    assert(iabs(div_trunc(a, b)) == q);
}

/// A sum pulled back into the well-formed scalar range.
pub open spec fn spec_clamp(v: int) -> int {
    if v < -FX_ABS_MAX {
        -FX_ABS_MAX as int
    } else if v > FX_ABS_MAX {
        FX_ABS_MAX as int
    } else {
        v
    }
}

/// Adds two well-formed scalars, clamping the sum into the well-formed
/// range so state nudged every frame can never leave it.
pub fn fx_add_clamped(a: i64, b: i64) -> (r: i64)
    requires
        fx_wf(a),
        fx_wf(b),
    ensures
        r as int == spec_clamp(a + b),
        fx_wf(r),
{
    let s: i64 = a + b;
    if s < -FX_ABS_MAX {
        -FX_ABS_MAX
    } else if s > FX_ABS_MAX {
        FX_ABS_MAX
    } else {
        s
    }
}

/// Quotient of `a` by `b`, truncated toward zero.
pub fn fx_div(a: i64, b: i64) -> (r: i64)
    requires
        b > 0,
        a > i64::MIN,
    ensures
        r as int == div_trunc(a as int, b as int),
{
    proof {
        lemma_div_trunc_bounds(a as int, b as int);
    }
    if a >= 0 {
        ((a as u64) / (b as u64)) as i64
    } else {
        let m: u64 = (-a) as u64;
        -((m / (b as u64)) as i64)
    }
}

/// A product of scalars stays within the product of their bounds.
pub proof fn lemma_mul_bound(a: int, b: int, ka: int, kb: int)
    by (nonlinear_arith)
    requires
        -ka <= a <= ka,
        -kb <= b <= kb,
    ensures
        -(ka * kb) <= a * b <= ka * kb,
{
}

/// The integer square root: for `s >= 0` the largest `r` with `r * r <= s`.
pub open spec fn sqrt_floor(s: int) -> int
    decreases
        (if s <= 0 {
            0int
        } else {
            s
        }),
{
    if s <= 0 {
        0
    } else {
        let r = sqrt_floor(s - 1);
        if (r + 1) * (r + 1) <= s {
            r + 1
        } else {
            r
        }
    }
}

pub proof fn lemma_sqrt_floor(s: int)
    requires
        s >= 0,
    ensures
        0 <= sqrt_floor(s),
        sqrt_floor(s) * sqrt_floor(s) <= s,
        s < (sqrt_floor(s) + 1) * (sqrt_floor(s) + 1),
    decreases s,
{
    if s == 0 {
    } else {
        lemma_sqrt_floor(s - 1);
        let r = sqrt_floor(s - 1);
        if (r + 1) * (r + 1) <= s {
            assert(sqrt_floor(s) == r + 1);
            assert((r + 2) * (r + 2) > (r + 1) * (r + 1)) by (nonlinear_arith)
                requires
                    r >= 0,
            ;
            assert(s - 1 < (r + 1) * (r + 1));
            assert(s == (r + 1) * (r + 1));
        } else {
            assert(sqrt_floor(s) == r);
            assert(r * r <= s - 1);
        }
    }
}

/// Any `r` with `r * r <= s < (r + 1) * (r + 1)` is the integer square root.
pub proof fn lemma_sqrt_floor_unique(s: int, r: int)
    requires
        0 <= r,
        r * r <= s,
        s < (r + 1) * (r + 1),
    ensures
        r == sqrt_floor(s),
{
    let q = sqrt_floor(s);
    lemma_sqrt_floor(s);
    assert(q >= r + 1 && r >= 0 ==> q * q >= (r + 1) * (r + 1)) by (nonlinear_arith);
    assert(r >= q + 1 && q >= 0 ==> r * r >= (q + 1) * (q + 1)) by (nonlinear_arith);
}

/// Integer square root by bisection.
pub fn isqrt_u128(s: u128) -> (r: u64)
    ensures
        r as int == sqrt_floor(s as int),
{
    let mut lo: u128 = 0;
    let mut hi: u128 = 0x1_0000_0000_0000_0000;
    proof {
        assert((hi as int) * (hi as int) > u128::MAX as int) by (nonlinear_arith)
            requires
                hi == 0x1_0000_0000_0000_0000,
        ;
    }
    while hi - lo > 1
        invariant
            lo < hi,
            hi <= 0x1_0000_0000_0000_0000,
            (lo as int) * (lo as int) <= s as int,
            (s as int) < (hi as int) * (hi as int),
        decreases hi - lo,
    {
        let mid: u128 = lo + (hi - lo) / 2;
        proof {
            assert((mid as int) * (mid as int) <= u128::MAX as int) by (nonlinear_arith)
                requires
                    mid < 0x1_0000_0000_0000_0000,
            ;
        }
        if mid * mid <= s {
            lo = mid;
        } else {
            hi = mid;
        }
    }
    proof {
        lemma_sqrt_floor_unique(s as int, lo as int);
    }
    lo as u64
}

/// A component triple: a point, a direction, or a color.
#[derive(Clone, Copy, PartialEq, Eq, Structural, Debug)]
pub struct Vec3 {
    pub x: i64,
    pub y: i64,
    pub z: i64,
}

/// A texture coordinate pair.
#[derive(Clone, Copy, PartialEq, Eq, Structural, Debug)]
pub struct Tex2 {
    pub u: i64,
    pub v: i64,
}

pub open spec fn vec3_bounded(v: Vec3, k: int) -> bool {
    &&& iabs(v.x as int) <= k
    &&& iabs(v.y as int) <= k
    &&& iabs(v.z as int) <= k
}

pub open spec fn tex2_bounded(t: Tex2, k: int) -> bool {
    &&& iabs(t.u as int) <= k
    &&& iabs(t.v as int) <= k
}

/// Largest component magnitude the cross product accepts.
pub const CROSS_IN_MAX: i64 = 20_000_000;

/// Largest component magnitude normalization accepts; a cross product of
/// two vectors within `CROSS_IN_MAX` stays within it.
pub const NORM_IN_MAX: i64 = 800_000_000_000_000;

pub open spec fn spec_len_sq(x: int, y: int, z: int) -> int {
    x * x + y * y + z * z
}

pub open spec fn spec_cross(ax: int, ay: int, az: int, bx: int, by: int, bz: int) -> (int, int, int) {
    (ay * bz - az * by, az * bx - ax * bz, ax * by - ay * bx)
}

/// The direction of `(x, y, z)` scaled to one fixed-point unit of length,
/// each component truncated toward zero; the zero vector maps to the fixed
/// fallback, the unit y direction.
pub open spec fn spec_normalize(x: int, y: int, z: int) -> (int, int, int) {
    let s = spec_len_sq(x, y, z);
    if s == 0 {
        (0, FX_ONE as int, 0)
    } else {
        let l = sqrt_floor(s);
        (div_trunc(x * FX_ONE, l), div_trunc(y * FX_ONE, l), div_trunc(z * FX_ONE, l))
    }
}

/// The cross product of `a` and `b`, component formulas unscaled.
pub fn cross3(a: Vec3, b: Vec3) -> (r: Vec3)
    requires
        vec3_bounded(a, CROSS_IN_MAX as int),
        vec3_bounded(b, CROSS_IN_MAX as int),
    ensures
        (r.x as int, r.y as int, r.z as int)
            == spec_cross(a.x as int, a.y as int, a.z as int, b.x as int, b.y as int, b.z as int),
        vec3_bounded(r, NORM_IN_MAX as int),
{
    proof {
        lemma_mul_bound(a.y as int, b.z as int, CROSS_IN_MAX as int, CROSS_IN_MAX as int);
        lemma_mul_bound(a.z as int, b.y as int, CROSS_IN_MAX as int, CROSS_IN_MAX as int);
        lemma_mul_bound(a.z as int, b.x as int, CROSS_IN_MAX as int, CROSS_IN_MAX as int);
        lemma_mul_bound(a.x as int, b.z as int, CROSS_IN_MAX as int, CROSS_IN_MAX as int);
        lemma_mul_bound(a.x as int, b.y as int, CROSS_IN_MAX as int, CROSS_IN_MAX as int);
        lemma_mul_bound(a.y as int, b.x as int, CROSS_IN_MAX as int, CROSS_IN_MAX as int);
    }
    Vec3 {
        x: a.y * b.z - a.z * b.y,
        y: a.z * b.x - a.x * b.z,
        z: a.x * b.y - a.y * b.x,
    }
}

/// Each component of the normalized vector of a nonzero input is at most
/// one fixed-point unit in magnitude.
proof fn lemma_norm_comp_bounded(x: int, s: int, l: int)
    requires
        x * x <= s,
        l >= 1,
        l * l <= s,
        s < (l + 1) * (l + 1),
    ensures
        iabs(div_trunc(x * FX_ONE, l)) <= FX_ONE as int,
        iabs(x) <= l,
{
    assert(iabs(x) <= l) by (nonlinear_arith)
        requires
            x * x <= s,
            s < (l + 1) * (l + 1),
            l >= 0,
    ;
    lemma_div_trunc_bounds(x * FX_ONE as int, l);
    let q = div_trunc(x * FX_ONE as int, l);
    assert(iabs(x * FX_ONE as int) <= l * FX_ONE as int) by (nonlinear_arith)
        requires
            iabs(x) <= l,
    ;
    assert(iabs(q) <= FX_ONE as int) by (nonlinear_arith)
        requires
            iabs(q) * l <= l * FX_ONE as int,
            l >= 1,
            iabs(q) >= 0,
    ;
}

/// Scales `(x, y, z)` to one fixed-point unit of length (truncating), with
/// the unit y direction as the fallback for the zero vector.
pub fn normalize3(x: i64, y: i64, z: i64) -> (r: Vec3)
    requires
        iabs(x as int) <= NORM_IN_MAX as int,
        iabs(y as int) <= NORM_IN_MAX as int,
        iabs(z as int) <= NORM_IN_MAX as int,
    ensures
        (r.x as int, r.y as int, r.z as int) == spec_normalize(x as int, y as int, z as int),
        vec3_bounded(r, FX_ONE as int),
{
    proof {
        lemma_mul_bound(x as int, x as int, NORM_IN_MAX as int, NORM_IN_MAX as int);
        lemma_mul_bound(y as int, y as int, NORM_IN_MAX as int, NORM_IN_MAX as int);
        lemma_mul_bound(z as int, z as int, NORM_IN_MAX as int, NORM_IN_MAX as int);
        assert((x as int) * (x as int) >= 0) by (nonlinear_arith);
        assert((y as int) * (y as int) >= 0) by (nonlinear_arith);
        assert((z as int) * (z as int) >= 0) by (nonlinear_arith);
    }
    let xi: i128 = x as i128;
    let yi: i128 = y as i128;
    let zi: i128 = z as i128;
    let s: i128 = xi * xi + yi * yi + zi * zi;
    if s == 0 {
        Vec3 { x: 0, y: FX_ONE, z: 0 }
    } else {
        let l: u64 = isqrt_u128(s as u128);
        proof {
            lemma_sqrt_floor(s as int);
            assert(l as int >= 1);
            assert(l as int <= 2_000_000_000_000_000) by (nonlinear_arith)
                requires
                    (l as int) * (l as int) <= s as int,
                    s as int <= 3 * (NORM_IN_MAX as int) * (NORM_IN_MAX as int),
                    l as int >= 0,
            ;
            lemma_mul_bound(x as int, FX_ONE as int, NORM_IN_MAX as int, FX_ONE as int);
            lemma_mul_bound(y as int, FX_ONE as int, NORM_IN_MAX as int, FX_ONE as int);
            lemma_mul_bound(z as int, FX_ONE as int, NORM_IN_MAX as int, FX_ONE as int);
            lemma_norm_comp_bounded(x as int, s as int, l as int);
            lemma_norm_comp_bounded(y as int, s as int, l as int);
            lemma_norm_comp_bounded(z as int, s as int, l as int);
        }
        let li: i64 = l as i64;
        Vec3 {
            x: fx_div(x * FX_ONE, li),
            y: fx_div(y * FX_ONE, li),
            z: fx_div(z * FX_ONE, li),
        }
    }
}

proof fn lemma_abs_sq(v: int)
    ensures
        iabs(v) * iabs(v) == v * v,
{
    if v < 0 {
        assert((-v) * (-v) == v * v) by (nonlinear_arith);
    }
}

proof fn lemma_abs_mul_pos(v: int, c: int)
    requires
        c > 0,
    ensures
        iabs(v * c) == iabs(v) * c,
{
    if v >= 0 {
        assert(v * c >= 0) by (nonlinear_arith)
            requires
                v >= 0,
                c > 0,
        ;
    } else {
        assert(v * c < 0) by (nonlinear_arith)
            requires
                v < 0,
                c > 0,
        ;
        assert(-(v * c) == (-v) * c) by (nonlinear_arith);
    }
}

/// One truncated normalization component squared, bounded on both sides
/// against the exact value.
proof fn lemma_norm_comp_sq(x: int, s: int, l: int)
    requires
        x * x <= s,
        l >= 1,
        l * l <= s,
        s < (l + 1) * (l + 1),
    ensures
        ({
            let q = div_trunc(x * FX_ONE, l);
            &&& q * q * (l * l) <= (x * x) * ((FX_ONE * FX_ONE) as int)
            &&& q * q * (l * l) > (x * x) * ((FX_ONE * FX_ONE) as int) - (2 * FX_ONE + 1) * (l * l)
        }),
{
    lemma_norm_comp_bounded(x, s, l);
    let q = div_trunc(x * FX_ONE, l);
    let a = iabs(q);
    let m = iabs(x * FX_ONE as int);
    lemma_div_trunc_bounds(x * FX_ONE as int, l);
    assert(a * l <= m < a * l + l);
    lemma_abs_mul_pos(x, FX_ONE as int);
    assert(m == iabs(x) * FX_ONE as int);
    lemma_abs_sq(q);
    assert(q * q == a * a);
    lemma_abs_sq(x);
    assert(x * x == iabs(x) * iabs(x));
    // upper: (a l)^2 <= m^2
    assert(a * a * (l * l) <= (iabs(x) * iabs(x)) * ((FX_ONE * FX_ONE) as int)) by (nonlinear_arith)
        requires
            a * l <= m,
            m == iabs(x) * FX_ONE as int,
            a >= 0,
            l >= 1,
            m >= 0,
    ;
    // lower: m < (a + 1) l, a <= FX_ONE, so m^2 < (a l)^2 + (2 a + 1) l^2 <= (a l)^2 + (2 FX_ONE + 1) l^2
    assert((iabs(x) * iabs(x)) * ((FX_ONE * FX_ONE) as int) < a * a * (l * l) + (2 * a + 1) * (l * l)) by (nonlinear_arith)
        requires
            m < a * l + l,
            m == iabs(x) * FX_ONE as int,
            a >= 0,
            l >= 1,
            m >= 0,
    ;
    assert((2 * a + 1) * (l * l) <= (2 * FX_ONE + 1) * (l * l)) by (nonlinear_arith)
        requires
            a <= FX_ONE as int,
            l * l >= 0,
    ;
}

/// Away from degeneracy, the normalized vector's squared length stays
/// within a narrow band around one squared fixed-point unit: truncation
/// can lose at most a few thousandths of the unit length.
pub proof fn lemma_normalize_unit_length(x: int, y: int, z: int)
    requires
        spec_len_sq(x, y, z) >= FX_ONE * FX_ONE,
    ensures
        ({
            let n = spec_normalize(x, y, z);
            let len = spec_len_sq(n.0, n.1, n.2);
            FX_ONE * FX_ONE - 6 * FX_ONE - 3 <= len <= FX_ONE * FX_ONE + 3 * FX_ONE
        }),
{
    let s = spec_len_sq(x, y, z);
    let l = sqrt_floor(s);
    lemma_sqrt_floor(s);
    assert((x * x >= 0 && y * y >= 0 && z * z >= 0)) by (nonlinear_arith);
    assert(l >= FX_ONE as int) by (nonlinear_arith)
        requires
            s >= FX_ONE * FX_ONE,
            s < (l + 1) * (l + 1),
            l >= 0,
            FX_ONE == 10000,
    ;
    lemma_norm_comp_sq(x, s, l);
    lemma_norm_comp_sq(y, s, l);
    lemma_norm_comp_sq(z, s, l);
    let qx = div_trunc(x * FX_ONE, l);
    let qy = div_trunc(y * FX_ONE, l);
    let qz = div_trunc(z * FX_ONE, l);
    let sum = qx * qx + qy * qy + qz * qz;
    let one2 = (FX_ONE * FX_ONE) as int;
    let l2 = l * l;
    assert(sum * l2 == qx * qx * l2 + qy * qy * l2 + qz * qz * l2) by (nonlinear_arith)
        requires
            sum == qx * qx + qy * qy + qz * qz,
    ;
    assert((l + 1) * (l + 1) == l * l + 2 * l + 1) by (nonlinear_arith);
    assert(s <= l * l + 2 * l);
    assert(sum * l2 <= s * one2) by (nonlinear_arith)
        requires
            sum * l2 == qx * qx * l2 + qy * qy * l2 + qz * qz * l2,
            qx * qx * l2 <= (x * x) * one2,
            qy * qy * l2 <= (y * y) * one2,
            qz * qz * l2 <= (z * z) * one2,
            s == x * x + y * y + z * z,
    ;
    assert(sum * l2 > s * one2 - 3 * (2 * FX_ONE + 1) * l2) by (nonlinear_arith)
        requires
            sum * l2 == qx * qx * l2 + qy * qy * l2 + qz * qz * l2,
            qx * qx * l2 > (x * x) * one2 - (2 * FX_ONE + 1) * l2,
            qy * qy * l2 > (y * y) * one2 - (2 * FX_ONE + 1) * l2,
            qz * qz * l2 > (z * z) * one2 - (2 * FX_ONE + 1) * l2,
            s == x * x + y * y + z * z,
    ;
    // upper bound: s <= l^2 + 2 l, and (3 FX_ONE + 1) l > 2 one2 since l >= FX_ONE
    assert(sum <= one2 + 3 * FX_ONE) by (nonlinear_arith)
        requires
            sum * l2 <= s * one2,
            l2 == l * l,
            s <= l * l + 2 * l,
            l >= FX_ONE as int,
            FX_ONE == 10000,
            one2 == FX_ONE * FX_ONE,
    ;
    // lower bound: s >= l^2
    assert(sum >= one2 - 6 * FX_ONE - 3) by (nonlinear_arith)
        requires
            sum * l2 > s * one2 - 3 * (2 * FX_ONE + 1) * l2,
            l2 == l * l,
            s >= l * l,
            l >= 1,
            one2 == FX_ONE * FX_ONE,
    ;
    assert(spec_normalize(x, y, z) == (qx, qy, qz));
}

/// A degenerate input (the zero vector, which is the cross product of the
/// edges of a zero-area triangle) normalizes to the fixed fallback, the
/// unit y direction.
pub proof fn lemma_normalize_degenerate(x: int, y: int, z: int)
    requires
        spec_len_sq(x, y, z) == 0,
    ensures
        spec_normalize(x, y, z) == (0int, FX_ONE as int, 0int),
{
}

} // verus!
