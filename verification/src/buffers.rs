//! The buffer-shaping step that feeds the rendering backend: the flat
//! index list of all face corners, and the interleaved per-vertex
//! attribute stream (position, texture coordinate, normal), with the
//! documented fallbacks where an attribute array is short.

use vstd::prelude::*;
use crate::fixed::FX_ONE;
use crate::fixed::Tex2;
use crate::fixed::Vec3;
use crate::parser::Face;
use crate::parser::ObjData;

verus! {

/// The flat index list: each face's three corners in face order.
pub fn flatten_indices(faces: &Vec<Face>) -> (r: Vec<u32>)
    requires
        3 * faces@.len() <= usize::MAX,
    ensures
        r@.len() == 3 * faces@.len(),
        forall|i: int|
            0 <= i < faces@.len() ==> {
                &&& r@[3 * i] == (#[trigger] faces@[i]).vertex_indices@[0]
                &&& r@[3 * i + 1] == faces@[i].vertex_indices@[1]
                &&& r@[3 * i + 2] == faces@[i].vertex_indices@[2]
            },
{
    let nf: usize = faces.len();
    let mut r: Vec<u32> = Vec::new();
    let mut i: usize = 0;
    while i < nf
        invariant
            0 <= i <= nf,
            nf == faces@.len(),
            3 * faces@.len() <= usize::MAX,
            r@.len() == 3 * i,
            forall|j: int|
                0 <= j < i ==> {
                    &&& r@[3 * j] == (#[trigger] faces@[j]).vertex_indices@[0]
                    &&& r@[3 * j + 1] == faces@[j].vertex_indices@[1]
                    &&& r@[3 * j + 2] == faces@[j].vertex_indices@[2]
                },
        decreases nf - i,
    {
        let f: Face = faces[i];
        r.push(f.vertex_indices[0]);
        r.push(f.vertex_indices[1]);
        r.push(f.vertex_indices[2]);
        i = i + 1;
    }
    r
}

/// What one vertex's eight interleaved attribute slots hold: its
/// position, its texture coordinate (zero when absent), and its normal
/// (the unit y direction when absent).
pub open spec fn interleaved_at(
    vs: Seq<Vec3>,
    ts: Seq<Tex2>,
    ns: Seq<Vec3>,
    r: Seq<i64>,
    i: int,
) -> bool {
    &&& r[8 * i] == vs[i].x
    &&& r[8 * i + 1] == vs[i].y
    &&& r[8 * i + 2] == vs[i].z
    &&& r[8 * i + 3] == (if i < ts.len() {
        ts[i].u
    } else {
        0
    })
    &&& r[8 * i + 4] == (if i < ts.len() {
        ts[i].v
    } else {
        0
    })
    &&& r[8 * i + 5] == (if i < ns.len() {
        ns[i].x
    } else {
        0
    })
    &&& r[8 * i + 6] == (if i < ns.len() {
        ns[i].y
    } else {
        FX_ONE
    })
    &&& r[8 * i + 7] == (if i < ns.len() {
        ns[i].z
    } else {
        0
    })
}

/// The interleaved vertex stream the backend uploads: eight scalars per
/// vertex in mesh order.
pub fn interleave_vertex_data(obj: &ObjData) -> (r: Vec<i64>)
    requires
        8 * obj.vertices@.len() <= usize::MAX,
    ensures
        r@.len() == 8 * obj.vertices@.len(),
        forall|i: int|
            0 <= i < obj.vertices@.len() ==> #[trigger] interleaved_at(
                obj.vertices@,
                obj.tex_coords@,
                obj.normals@,
                r@,
                i,
            ),
{
    let n: usize = obj.vertices.len();
    let nt: usize = obj.tex_coords.len();
    let nn: usize = obj.normals.len();
    let mut r: Vec<i64> = Vec::new();
    let mut i: usize = 0;
    while i < n
        invariant
            0 <= i <= n,
            n == obj.vertices@.len(),
            nt == obj.tex_coords@.len(),
            nn == obj.normals@.len(),
            8 * obj.vertices@.len() <= usize::MAX,
            r@.len() == 8 * i,
            forall|j: int|
                0 <= j < i ==> #[trigger] interleaved_at(
                    obj.vertices@,
                    obj.tex_coords@,
                    obj.normals@,
                    r@,
                    j,
                ),
        decreases n - i,
    {
        let ghost r0 = r@;
        let v: Vec3 = obj.vertices[i];
        r.push(v.x);
        r.push(v.y);
        r.push(v.z);
        if i < nt {
            let t: Tex2 = obj.tex_coords[i];
            r.push(t.u);
            r.push(t.v);
        } else {
            r.push(0);
            r.push(0);
        }
        if i < nn {
            let nv: Vec3 = obj.normals[i];
            r.push(nv.x);
            r.push(nv.y);
            r.push(nv.z);
        } else {
            r.push(0);
            r.push(FX_ONE);
            r.push(0);
        }
        proof {
            assert(r@.len() == r0.len() + 8);
            assert forall|m: int| 0 <= m < r0.len() implies r@[m] == r0[m] by {}
            assert(interleaved_at(obj.vertices@, obj.tex_coords@, obj.normals@, r@, i as int));
            assert forall|j: int|
                0 <= j < i implies #[trigger] interleaved_at(
                obj.vertices@,
                obj.tex_coords@,
                obj.normals@,
                r@,
                j,
            ) by {
                assert(interleaved_at(obj.vertices@, obj.tex_coords@, obj.normals@, r0, j));
            }
        }
        i = i + 1;
    }
    r
}

} // verus!
