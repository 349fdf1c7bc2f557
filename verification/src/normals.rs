//! The normal synthesizer: when a mesh description supplies no normals,
//! every face contributes its unit normal (with a fixed fallback for
//! zero-area faces) to each of its three corners, and each vertex then
//! averages its contributions by count and renormalizes. The result is
//! area-unweighted, count-averaged smoothing, deterministic by
//! construction.

use vstd::prelude::*;
use crate::fixed::COORD_MAX;
use crate::fixed::FX_ONE;
use crate::fixed::cross3;
use crate::fixed::div_trunc;
use crate::fixed::fx_div;
use crate::fixed::iabs;
use crate::fixed::lemma_div_trunc_bounds;
use crate::fixed::lemma_normalize_degenerate;
use crate::fixed::lemma_normalize_unit_length;
use crate::fixed::normalize3;
use crate::fixed::spec_cross;
use crate::fixed::spec_len_sq;
use crate::fixed::spec_normalize;
use crate::fixed::Vec3;
use crate::fixed::vec3_bounded;
use crate::parser::AbsFace;
use crate::parser::Face;
use crate::parser::abs_face;

verus! {

/// Largest face count the synthesizer accepts; sums of contributions
/// stay far inside the scalar range below it.
pub const FACES_MAX: u64 = 0x100_0000_0000;

/// Whether a face's corners all point into a vertex array of length `n`.
pub open spec fn face_in_range(f: AbsFace, n: int) -> bool {
    &&& 0 <= f.a < n
    &&& 0 <= f.b < n
    &&& 0 <= f.c < n
}

pub open spec fn faces_in_range(faces: Seq<AbsFace>, n: int) -> bool {
    forall|i: int| 0 <= i < faces.len() ==> face_in_range(#[trigger] faces[i], n)
}

/// The unnormalized cross product of a face's two edge vectors.
pub open spec fn face_cross(vs: Seq<Vec3>, f: AbsFace) -> (int, int, int)
    recommends
        face_in_range(f, vs.len() as int),
{
    let v0 = vs[f.a];
    let v1 = vs[f.b];
    let v2 = vs[f.c];
    spec_cross(
        v1.x - v0.x,
        v1.y - v0.y,
        v1.z - v0.z,
        v2.x - v0.x,
        v2.y - v0.y,
        v2.z - v0.z,
    )
}

/// The unit normal a face contributes: its edge cross product scaled to
/// one fixed-point unit of length, or the unit y direction when the face
/// has zero area.
pub open spec fn face_normal(vs: Seq<Vec3>, f: AbsFace) -> (int, int, int)
    recommends
        face_in_range(f, vs.len() as int),
{
    let c = face_cross(vs, f);
    spec_normalize(c.0, c.1, c.2)
}

pub open spec fn add3(a: (int, int, int), b: (int, int, int)) -> (int, int, int) {
    (a.0 + b.0, a.1 + b.1, a.2 + b.2)
}

/// One face's contribution: its unit normal added into each of its three
/// corner slots in order, each corner's count up by one.
pub open spec fn accum_step(
    p: (Seq<(int, int, int)>, Seq<int>),
    a: int,
    b: int,
    c: int,
    nm: (int, int, int),
) -> (Seq<(int, int, int)>, Seq<int>) {
    let acc1 = p.0.update(a, add3(p.0[a], nm));
    let cnt1 = p.1.update(a, p.1[a] + 1);
    let acc2 = acc1.update(b, add3(acc1[b], nm));
    let cnt2 = cnt1.update(b, cnt1[b] + 1);
    (acc2.update(c, add3(acc2[c], nm)), cnt2.update(c, cnt2[c] + 1))
}

/// Sums and contribution counts after the first `n` faces.
pub open spec fn spec_accum(vs: Seq<Vec3>, faces: Seq<AbsFace>, n: int) -> (
    Seq<(int, int, int)>,
    Seq<int>,
)
    decreases n,
{
    if n <= 0 {
        (
            Seq::new(vs.len(), |i: int| (0int, 0int, 0int)),
            Seq::new(vs.len(), |i: int| 0int),
        )
    } else {
        let f = faces[n - 1];
        accum_step(spec_accum(vs, faces, n - 1), f.a, f.b, f.c, face_normal(vs, f))
    }
}

/// Renormalization leaves the zero vector alone (an exactly cancelled
/// average) rather than inventing a direction.
pub open spec fn spec_renormalize(x: int, y: int, z: int) -> (int, int, int) {
    if spec_len_sq(x, y, z) == 0 {
        (x, y, z)
    } else {
        spec_normalize(x, y, z)
    }
}

/// One vertex's final normal: the contribution average, renormalized; a
/// vertex no face touches keeps the zero vector.
pub open spec fn spec_vertex_normal(acc: (int, int, int), cnt: int) -> (int, int, int) {
    if cnt > 0 {
        spec_renormalize(div_trunc(acc.0, cnt), div_trunc(acc.1, cnt), div_trunc(acc.2, cnt))
    } else {
        (0, 0, 0)
    }
}

/// The synthesized per-vertex normals of a mesh.
pub open spec fn spec_face_normals(vs: Seq<Vec3>, faces: Seq<AbsFace>) -> Seq<Vec3> {
    let p = spec_accum(vs, faces, faces.len() as int);
    Seq::new(
        vs.len(),
        |i: int|
            {
                let t = spec_vertex_normal(p.0[i], p.1[i]);
                Vec3 { x: t.0 as i64, y: t.1 as i64, z: t.2 as i64 }
            },
    )
}

/// The per-element mathematical reading of the accumulator.
pub open spec fn acc_abs(acc: Seq<Vec3>) -> Seq<(int, int, int)> {
    acc.map_values(|v: Vec3| (v.x as int, v.y as int, v.z as int))
}

pub open spec fn cnt_abs(cnt: Seq<i64>) -> Seq<int> {
    cnt.map_values(|c: i64| c as int)
}

/// Ceiling on per-vertex contribution counts: three per face.
pub const CNT_CAP: i64 = 0x300_0000_0000;

/// Adds one face's unit normal into its three corner slots.
fn add_face_contribution(acc: &mut Vec<Vec3>, cnt: &mut Vec<i64>, ai: usize, bi: usize, ci: usize, nm: Vec3)
    requires
        old(acc)@.len() == old(cnt)@.len(),
        ai < old(acc)@.len(),
        bi < old(acc)@.len(),
        ci < old(acc)@.len(),
        vec3_bounded(nm, FX_ONE as int),
        forall|j: int| 0 <= j < old(cnt)@.len() ==> 0 <= #[trigger] old(cnt)@[j] < CNT_CAP,
        forall|j: int|
            0 <= j < old(acc)@.len() ==> iabs(#[trigger] old(acc)@[j].x as int) <= 10000 * old(
                cnt,
            )@[j] && iabs(old(acc)@[j].y as int) <= 10000 * old(cnt)@[j] && iabs(
                old(acc)@[j].z as int,
            ) <= 10000 * old(cnt)@[j],
    ensures
        final(acc)@.len() == old(acc)@.len(),
        final(cnt)@.len() == old(cnt)@.len(),
        (acc_abs(final(acc)@), cnt_abs(final(cnt)@)) == accum_step(
            (acc_abs(old(acc)@), cnt_abs(old(cnt)@)),
            ai as int,
            bi as int,
            ci as int,
            (nm.x as int, nm.y as int, nm.z as int),
        ),
        forall|j: int|
            0 <= j < final(cnt)@.len() ==> old(cnt)@[j] <= #[trigger] final(cnt)@[j] <= old(
                cnt,
            )@[j] + 3,
        forall|j: int|
            0 <= j < final(acc)@.len() ==> iabs(#[trigger] final(acc)@[j].x as int) <= 10000
                * final(cnt)@[j] && iabs(final(acc)@[j].y as int) <= 10000 * final(cnt)@[j] && iabs(
                final(acc)@[j].z as int,
            ) <= 10000 * final(cnt)@[j],
{
    let ghost acc0 = acc@;
    let ghost cnt0 = cnt@;
    let n: usize = acc.len();
    let mut e: Vec3 = acc[ai];
    e.x = e.x + nm.x;
    e.y = e.y + nm.y;
    e.z = e.z + nm.z;
    acc[ai] = e;
    cnt[ai] = cnt[ai] + 1;
    proof {
        assert(iabs(nm.x as int) <= 10000);
        assert(iabs(nm.y as int) <= 10000);
        assert(iabs(nm.z as int) <= 10000);
        assert forall|j: int|
            0 <= j < n implies iabs(#[trigger] acc@[j].x as int) <= 10000 * cnt@[j] && iabs(
            acc@[j].y as int,
        ) <= 10000 * cnt@[j] && iabs(acc@[j].z as int) <= 10000 * cnt@[j] && 0 <= cnt@[j]
            <= cnt0[j] + 1 by {
            if j == ai as int {
                assert(acc@[j] == e);
                assert(cnt@[j] == cnt0[j] + 1);
                assert(iabs(acc0[j].x as int) <= 10000 * cnt0[j]);
                assert(iabs(acc0[j].y as int) <= 10000 * cnt0[j]);
                assert(iabs(acc0[j].z as int) <= 10000 * cnt0[j]);
            } else {
                assert(acc@[j] == acc0[j]);
                assert(cnt@[j] == cnt0[j]);
                assert(iabs(acc0[j].x as int) <= 10000 * cnt0[j]);
                assert(iabs(acc0[j].y as int) <= 10000 * cnt0[j]);
                assert(iabs(acc0[j].z as int) <= 10000 * cnt0[j]);
            }
        }
    }
    let mut e2: Vec3 = acc[bi];
    e2.x = e2.x + nm.x;
    e2.y = e2.y + nm.y;
    e2.z = e2.z + nm.z;
    let ghost acc1 = acc@;
    let ghost cnt1 = cnt@;
    acc[bi] = e2;
    cnt[bi] = cnt[bi] + 1;
    proof {
        assert forall|j: int|
            0 <= j < n implies iabs(#[trigger] acc@[j].x as int) <= 10000 * cnt@[j] && iabs(
            acc@[j].y as int,
        ) <= 10000 * cnt@[j] && iabs(acc@[j].z as int) <= 10000 * cnt@[j] && 0 <= cnt@[j]
            <= cnt0[j] + 2 by {
            if j == bi as int {
                assert(acc@[j] == e2);
                assert(cnt@[j] == cnt1[j] + 1);
                assert(iabs(acc1[j].x as int) <= 10000 * cnt1[j]);
                assert(iabs(acc1[j].y as int) <= 10000 * cnt1[j]);
                assert(iabs(acc1[j].z as int) <= 10000 * cnt1[j]);
            } else {
                assert(acc@[j] == acc1[j]);
                assert(cnt@[j] == cnt1[j]);
                assert(iabs(acc1[j].x as int) <= 10000 * cnt1[j]);
                assert(iabs(acc1[j].y as int) <= 10000 * cnt1[j]);
                assert(iabs(acc1[j].z as int) <= 10000 * cnt1[j]);
            }
        }
    }
    let mut e3: Vec3 = acc[ci];
    e3.x = e3.x + nm.x;
    e3.y = e3.y + nm.y;
    e3.z = e3.z + nm.z;
    let ghost acc2 = acc@;
    let ghost cnt2 = cnt@;
    acc[ci] = e3;
    cnt[ci] = cnt[ci] + 1;
    proof {
        assert forall|j: int|
            0 <= j < n implies iabs(#[trigger] acc@[j].x as int) <= 10000 * cnt@[j] && iabs(
            acc@[j].y as int,
        ) <= 10000 * cnt@[j] && iabs(acc@[j].z as int) <= 10000 * cnt@[j] && 0 <= cnt@[j]
            <= cnt0[j] + 3 by {
            if j == ci as int {
                assert(acc@[j] == e3);
                assert(cnt@[j] == cnt2[j] + 1);
                assert(iabs(acc2[j].x as int) <= 10000 * cnt2[j]);
                assert(iabs(acc2[j].y as int) <= 10000 * cnt2[j]);
                assert(iabs(acc2[j].z as int) <= 10000 * cnt2[j]);
            } else {
                assert(acc@[j] == acc2[j]);
                assert(cnt@[j] == cnt2[j]);
                assert(iabs(acc2[j].x as int) <= 10000 * cnt2[j]);
                assert(iabs(acc2[j].y as int) <= 10000 * cnt2[j]);
                assert(iabs(acc2[j].z as int) <= 10000 * cnt2[j]);
            }
        }
        let step = accum_step(
            (acc_abs(acc0), cnt_abs(cnt0)),
            ai as int,
            bi as int,
            ci as int,
            (nm.x as int, nm.y as int, nm.z as int),
        );
        assert(acc_abs(acc@) =~= step.0);
        assert(cnt_abs(cnt@) =~= step.1);
    }
}

/// Computes one smooth normal per vertex: accumulate each face's unit
/// normal into its three corners, then average by contribution count and
/// renormalize. Every component of the result is at most one fixed-point
/// unit in magnitude.
#[verifier::loop_isolation(false)]
#[verifier::rlimit(100)]
pub fn calculate_face_normals(vertices: &Vec<Vec3>, faces: &Vec<Face>) -> (r: Vec<Vec3>)
    requires
        forall|i: int|
            0 <= i < vertices@.len() ==> vec3_bounded(#[trigger] vertices@[i], COORD_MAX as int),
        faces_in_range(faces@.map_values(|f: Face| abs_face(f)), vertices@.len() as int),
        faces@.len() <= FACES_MAX,
    ensures
        r@.len() == vertices@.len(),
        r@ == spec_face_normals(vertices@, faces@.map_values(|f: Face| abs_face(f))),
        forall|i: int| 0 <= i < r@.len() ==> vec3_bounded(#[trigger] r@[i], FX_ONE as int),
{
    let n: usize = vertices.len();
    let nf: usize = faces.len();
    let ghost absf = faces@.map_values(|f: Face| abs_face(f));
    let mut acc: Vec<Vec3> = Vec::new();
    let mut cnt: Vec<i64> = Vec::new();
    while acc.len() < n
        invariant
            acc@.len() <= n,
            forall|j: int| 0 <= j < acc@.len() ==> acc@[j] == (Vec3 { x: 0i64, y: 0i64, z: 0i64 }),
        decreases n - acc@.len(),
    {
        acc.push(Vec3 { x: 0, y: 0, z: 0 });
    }
    while cnt.len() < n
        invariant
            cnt@.len() <= n,
            forall|j: int| 0 <= j < cnt@.len() ==> cnt@[j] == 0i64,
        decreases n - cnt@.len(),
    {
        cnt.push(0i64);
    }
    proof {
        assert(acc_abs(acc@) =~= spec_accum(vertices@, absf, 0).0);
        assert(cnt_abs(cnt@) =~= spec_accum(vertices@, absf, 0).1);
    }
    let mut i: usize = 0;
    while i < nf
        invariant
            0 <= i <= nf,
            acc@.len() == n,
            cnt@.len() == n,
            acc_abs(acc@) == spec_accum(vertices@, absf, i as int).0,
            cnt_abs(cnt@) == spec_accum(vertices@, absf, i as int).1,
            forall|j: int| 0 <= j < n ==> 0 <= #[trigger] cnt@[j] <= 3 * (i as int),
            forall|j: int|
                0 <= j < n ==> iabs(#[trigger] acc@[j].x as int) <= 10000 * cnt@[j]
                    && iabs(acc@[j].y as int) <= 10000 * cnt@[j] && iabs(acc@[j].z as int)
                    <= 10000 * cnt@[j],
        decreases nf - i,
    {
        let f: Face = faces[i];
        proof {
            assert(absf[i as int] == abs_face(faces@[i as int]));
            assert(face_in_range(absf[i as int], n as int));
        }
        let ai: usize = f.vertex_indices[0] as usize;
        let bi: usize = f.vertex_indices[1] as usize;
        let ci: usize = f.vertex_indices[2] as usize;
        let v0: Vec3 = vertices[ai];
        let v1: Vec3 = vertices[bi];
        let v2: Vec3 = vertices[ci];
        let e1 = Vec3 { x: v1.x - v0.x, y: v1.y - v0.y, z: v1.z - v0.z };
        let e2 = Vec3 { x: v2.x - v0.x, y: v2.y - v0.y, z: v2.z - v0.z };
        let cr: Vec3 = cross3(e1, e2);
        let nm: Vec3 = normalize3(cr.x, cr.y, cr.z);
        proof {
            assert((nm.x as int, nm.y as int, nm.z as int) == face_normal(
                vertices@,
                absf[i as int],
            ));
        }
        add_face_contribution(&mut acc, &mut cnt, ai, bi, ci, nm);
        proof {
            let p1 = spec_accum(vertices@, absf, i as int + 1);
            assert(acc_abs(acc@) == p1.0);
            assert(cnt_abs(cnt@) == p1.1);
        }
        i = i + 1;
    }
    let ghost fin = spec_face_normals(vertices@, absf);
    let mut r: Vec<Vec3> = Vec::new();
    let mut k: usize = 0;
    while k < n
        invariant
            0 <= k <= n,
            r@.len() == k,
            forall|j: int| 0 <= j < k ==> r@[j] == fin[j],
            forall|j: int| 0 <= j < k ==> vec3_bounded(#[trigger] r@[j], FX_ONE as int),
        decreases n - k,
    {
        let c: i64 = cnt[k];
        if c > 0 {
            let av: Vec3 = acc[k];
            proof {
                lemma_div_trunc_bounds(av.x as int, c as int);
                lemma_div_trunc_bounds(av.y as int, c as int);
                lemma_div_trunc_bounds(av.z as int, c as int);
                let qx = div_trunc(av.x as int, c as int);
                let qy = div_trunc(av.y as int, c as int);
                let qz = div_trunc(av.z as int, c as int);
                assert(iabs(qx) <= FX_ONE as int && iabs(qy) <= FX_ONE as int && iabs(qz)
                    <= FX_ONE as int) by (nonlinear_arith)
                    requires
                        iabs(qx) * (c as int) <= iabs(av.x as int),
                        iabs(qy) * (c as int) <= iabs(av.y as int),
                        iabs(qz) * (c as int) <= iabs(av.z as int),
                        FX_ONE == 10000,
                        iabs(av.x as int) <= 10000 * (c as int),
                        iabs(av.y as int) <= 10000 * (c as int),
                        iabs(av.z as int) <= 10000 * (c as int),
                        c as int >= 1,
                        iabs(qx) >= 0,
                        iabs(qy) >= 0,
                        iabs(qz) >= 0,
                ;
            }
            let ax: i64 = fx_div(av.x, c);
            let ay: i64 = fx_div(av.y, c);
            let az: i64 = fx_div(av.z, c);
            proof {
                crate::fixed::lemma_mul_bound(ax as int, ax as int, FX_ONE as int, FX_ONE as int);
                crate::fixed::lemma_mul_bound(ay as int, ay as int, FX_ONE as int, FX_ONE as int);
                crate::fixed::lemma_mul_bound(az as int, az as int, FX_ONE as int, FX_ONE as int);
            }
            let s: i64 = ax * ax + ay * ay + az * az;
            if s == 0 {
                r.push(Vec3 { x: ax, y: ay, z: az });
            } else {
                let nm: Vec3 = normalize3(ax, ay, az);
                r.push(nm);
            }
        } else {
            r.push(Vec3 { x: 0, y: 0, z: 0 });
        }
        proof {
            assert(r@[k as int] == fin[k as int]);
        }
        k = k + 1;
    }
    proof {
        assert(r@ =~= fin);
    }
    r
}

/// Away from degeneracy a face's contributed normal has unit length
/// within a narrow tolerance (a few thousandths of the unit): truncation
/// in the fixed-point scaling is the only loss.
pub proof fn lemma_face_normal_unit(vs: Seq<Vec3>, f: AbsFace)
    requires
        face_in_range(f, vs.len() as int),
        ({
            let c = face_cross(vs, f);
            spec_len_sq(c.0, c.1, c.2) >= FX_ONE * FX_ONE
        }),
    ensures
        ({
            let n = face_normal(vs, f);
            FX_ONE * FX_ONE - 6 * FX_ONE - 3 <= spec_len_sq(n.0, n.1, n.2) <= FX_ONE * FX_ONE + 3
                * FX_ONE
        }),
{
    let c = face_cross(vs, f);
    lemma_normalize_unit_length(c.0, c.1, c.2);
}

/// A zero-area face (collinear corners, vanishing cross product)
/// contributes exactly the fixed fallback, the unit y direction.
pub proof fn lemma_face_normal_degenerate(vs: Seq<Vec3>, f: AbsFace)
    requires
        face_in_range(f, vs.len() as int),
        ({
            let c = face_cross(vs, f);
            spec_len_sq(c.0, c.1, c.2) == 0
        }),
    ensures
        face_normal(vs, f) == (0int, FX_ONE as int, 0int),
{
    let c = face_cross(vs, f);
    lemma_normalize_degenerate(c.0, c.1, c.2);
}

} // verus!
