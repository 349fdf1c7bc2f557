//! The mesh-description parser: line-oriented records for vertices,
//! texture coordinates, normals, triangular and quad faces, material
//! selection and material-library references, folded left to right over
//! the lines; and the material-library parser. Both are proved against
//! line-level step functions.

use vstd::prelude::*;
use crate::error::LoadError;
use crate::fixed::COORD_MAX;
use crate::fixed::FX_ONE;
use crate::fixed::div_trunc;
use crate::fixed::Tex2;
use crate::fixed::Vec3;
use crate::fixed::vec3_bounded;
use crate::lexer::spec_parse_index;
use crate::lexer::spec_parse_scalar;
use crate::lexer::spec_split_lines;
use crate::lexer::spec_tokens;
use crate::lexer::copy_range;
use crate::lexer::parse_index;
use crate::lexer::parse_scalar;
use crate::lexer::split_lines;
use crate::lexer::tokenize;

verus! {

broadcast use vstd::array::group_array_axioms;

/// One triangular face: three positions in the vertex array, and the
/// material selected when the face was read (a position in the parsed
/// material-name list).
#[derive(Clone, Copy, Debug)]
pub struct Face {
    pub vertex_indices: [u32; 3],
    pub material: Option<u32>,
}

/// The mathematical reading of a face.
pub ghost struct AbsFace {
    pub a: int,
    pub b: int,
    pub c: int,
    pub material: Option<int>,
}

pub open spec fn abs_face(f: Face) -> AbsFace {
    AbsFace {
        a: f.vertex_indices@[0] as int,
        b: f.vertex_indices@[1] as int,
        c: f.vertex_indices@[2] as int,
        material: match f.material {
            Some(m) => Some(m as int),
            None => None,
        },
    }
}

/// The record keyword opening a mesh-description line.
#[derive(Clone, Copy, PartialEq, Eq, Structural, Debug)]
pub enum ObjKeyword {
    V,
    Vt,
    Vn,
    F,
    UseMtl,
    MtlLib,
    Other,
}

/// Which record kind a first token selects.
pub open spec fn spec_classify(t: Seq<u8>) -> ObjKeyword {
    if t == seq![118u8] {
        ObjKeyword::V
    } else if t == seq![118u8, 116u8] {
        ObjKeyword::Vt
    } else if t == seq![118u8, 110u8] {
        ObjKeyword::Vn
    } else if t == seq![102u8] {
        ObjKeyword::F
    } else if t == seq![117u8, 115u8, 101u8, 109u8, 116u8, 108u8] {
        ObjKeyword::UseMtl
    } else if t == seq![109u8, 116u8, 108u8, 108u8, 105u8, 98u8] {
        ObjKeyword::MtlLib
    } else {
        ObjKeyword::Other
    }
}

/// Classifies a line's first token.
fn classify_obj(t: &Vec<u8>) -> (k: ObjKeyword)
    ensures
        k == spec_classify(t@),
{
    let n: usize = t.len();
    if n == 1 {
        let b: u8 = t[0];
        if b == 118u8 {
            proof {
                assert(t@ =~= seq![118u8]);
            }
            ObjKeyword::V
        } else if b == 102u8 {
            proof {
                assert(t@ =~= seq![102u8]);
            }
            ObjKeyword::F
        } else {
            ObjKeyword::Other
        }
    } else if n == 2 {
        let b0: u8 = t[0];
        let b1: u8 = t[1];
        if b0 == 118u8 && b1 == 116u8 {
            proof {
                assert(t@ =~= seq![118u8, 116u8]);
            }
            ObjKeyword::Vt
        } else if b0 == 118u8 && b1 == 110u8 {
            proof {
                assert(t@ =~= seq![118u8, 110u8]);
            }
            ObjKeyword::Vn
        } else {
            ObjKeyword::Other
        }
    } else if n == 6 {
        if t[0] == 117u8 && t[1] == 115u8 && t[2] == 101u8 && t[3] == 109u8 && t[4] == 116u8 && t[5]
            == 108u8 {
            proof {
                assert(t@ =~= seq![117u8, 115u8, 101u8, 109u8, 116u8, 108u8]);
            }
            ObjKeyword::UseMtl
        } else if t[0] == 109u8 && t[1] == 116u8 && t[2] == 108u8 && t[3] == 108u8 && t[4] == 105u8
            && t[5] == 98u8 {
            proof {
                assert(t@ =~= seq![109u8, 116u8, 108u8, 108u8, 105u8, 98u8]);
            }
            ObjKeyword::MtlLib
        } else {
            ObjKeyword::Other
        }
    } else {
        ObjKeyword::Other
    }
}

/// Whether two byte strings hold the same bytes.
pub fn bytes_eq(a: &Vec<u8>, b: &Vec<u8>) -> (r: bool)
    ensures
        r == (a@ == b@),
{
    let n: usize = a.len();
    if n != b.len() {
        return false;
    }
    let mut i: usize = 0;
    while i < n
        invariant
            0 <= i <= n,
            n == a@.len() == b@.len(),
            forall|j: int| 0 <= j < i ==> a@[j] == b@[j],
        decreases n - i,
    {
        if a[i] != b[i] {
            return false;
        }
        i = i + 1;
    }
    proof {
        assert(a@ =~= b@);
    }
    true
}

/// The mathematical reading of the current material selection.
pub open spec fn abs_material_index(m: Option<u32>) -> Option<int> {
    match m {
        Some(k) => Some(k as int),
        None => None,
    }
}

/// First position of `name` in `names` at or after `i`, or the length.
pub open spec fn name_index_from(names: Seq<Seq<u8>>, i: int, name: Seq<u8>) -> int
    decreases names.len() - i,
{
    if i < 0 || i >= names.len() {
        names.len() as int
    } else if names[i] == name {
        i
    } else {
        name_index_from(names, i + 1, name)
    }
}

/// A scan that saw no match in `i..j` and stopped at `j` (the end, or a
/// match) found exactly the first occurrence.
pub proof fn lemma_name_index_at(names: Seq<Seq<u8>>, i: int, j: int, name: Seq<u8>)
    requires
        0 <= i <= j <= names.len(),
        forall|k: int| i <= k < j ==> names[k] != name,
        j < names.len() ==> names[j] == name,
    ensures
        name_index_from(names, i, name) == j,
    decreases j - i,
{
    if i < j {
        lemma_name_index_at(names, i + 1, j, name);
    }
}

/// The state grown while folding over a mesh description's lines.
pub ghost struct AbsObj {
    pub vertices: Seq<Vec3>,
    pub tex_coords: Seq<Tex2>,
    pub normals: Seq<Vec3>,
    pub faces: Seq<AbsFace>,
    pub material_names: Seq<Seq<u8>>,
    pub cur_material: Option<int>,
    pub mtl_libs: Seq<Seq<u8>>,
}

pub open spec fn obj_init() -> AbsObj {
    AbsObj {
        vertices: Seq::empty(),
        tex_coords: Seq::empty(),
        normals: Seq::empty(),
        faces: Seq::empty(),
        material_names: Seq::empty(),
        cur_material: None,
        mtl_libs: Seq::empty(),
    }
}

/// One line of a mesh description: the recognized records in their exact
/// arity append to the state; a recognized record with a bad numeric
/// token has no successor state (the description is malformed); any other
/// line is ignored.
pub open spec fn obj_step(st: AbsObj, line: Seq<u8>) -> Option<AbsObj> {
    let toks = spec_tokens(line);
    if toks.len() == 0 {
        Some(st)
    } else {
        let kw = spec_classify(toks[0]);
        if kw == ObjKeyword::V && toks.len() == 4 {
            match (spec_parse_scalar(toks[1]), spec_parse_scalar(toks[2]), spec_parse_scalar(
                toks[3],
            )) {
                (Some(x), Some(y), Some(z)) => Some(
                    AbsObj {
                        vertices: st.vertices.push(
                            Vec3 { x: x as i64, y: y as i64, z: z as i64 },
                        ),
                        ..st
                    },
                ),
                _ => None,
            }
        } else if kw == ObjKeyword::Vt && toks.len() == 3 {
            match (spec_parse_scalar(toks[1]), spec_parse_scalar(toks[2])) {
                (Some(u), Some(v)) => Some(
                    AbsObj { tex_coords: st.tex_coords.push(Tex2 { u: u as i64, v: v as i64 }), ..st },
                ),
                _ => None,
            }
        } else if kw == ObjKeyword::Vn && toks.len() == 4 {
            match (spec_parse_scalar(toks[1]), spec_parse_scalar(toks[2]), spec_parse_scalar(
                toks[3],
            )) {
                (Some(x), Some(y), Some(z)) => Some(
                    AbsObj {
                        normals: st.normals.push(Vec3 { x: x as i64, y: y as i64, z: z as i64 }),
                        ..st
                    },
                ),
                _ => None,
            }
        } else if kw == ObjKeyword::F && toks.len() == 4 {
            match (spec_parse_index(toks[1]), spec_parse_index(toks[2]), spec_parse_index(
                toks[3],
            )) {
                (Some(a), Some(b), Some(c)) => Some(
                    AbsObj {
                        faces: st.faces.push(
                            AbsFace { a, b, c, material: st.cur_material },
                        ),
                        ..st
                    },
                ),
                _ => None,
            }
        } else if kw == ObjKeyword::F && toks.len() == 5 {
            match (spec_parse_index(toks[1]), spec_parse_index(toks[2]), spec_parse_index(
                toks[3],
            ), spec_parse_index(toks[4])) {
                (Some(a), Some(b), Some(c), Some(d)) => Some(
                    AbsObj {
                        faces: st.faces.push(
                            AbsFace { a, b, c, material: st.cur_material },
                        ).push(AbsFace { a, b: c, c: d, material: st.cur_material }),
                        ..st
                    },
                ),
                _ => None,
            }
        } else if kw == ObjKeyword::UseMtl && toks.len() == 2 {
            let idx = name_index_from(st.material_names, 0, toks[1]);
            if idx < st.material_names.len() {
                Some(AbsObj { cur_material: Some(idx), ..st })
            } else {
                Some(
                    AbsObj {
                        material_names: st.material_names.push(toks[1]),
                        cur_material: Some(st.material_names.len() as int),
                        ..st
                    },
                )
            }
        } else if kw == ObjKeyword::MtlLib && toks.len() == 2 {
            Some(AbsObj { mtl_libs: st.mtl_libs.push(toks[1]), ..st })
        } else {
            Some(st)
        }
    }
}

/// The state after the first `n` lines, or nothing once a line was
/// malformed.
pub open spec fn spec_parse_obj_upto(lines: Seq<Seq<u8>>, n: int) -> Option<AbsObj>
    decreases n,
{
    if n <= 0 {
        Some(obj_init())
    } else {
        match spec_parse_obj_upto(lines, n - 1) {
            None => None,
            Some(st) => obj_step(st, lines[n - 1]),
        }
    }
}

/// The parsed reading of a whole mesh description.
pub open spec fn spec_parse_obj(text: Seq<u8>) -> Option<AbsObj> {
    spec_parse_obj_upto(spec_split_lines(text), spec_split_lines(text).len() as int)
}

/// A malformed line poisons every later state.
pub proof fn lemma_parse_none_sticky(lines: Seq<Seq<u8>>, i: int, j: int)
    requires
        0 <= i <= j,
        spec_parse_obj_upto(lines, i) is None,
    ensures
        spec_parse_obj_upto(lines, j) is None,
    decreases j - i,
{
    if j > i {
        lemma_parse_none_sticky(lines, i, j - 1);
    }
}

/// There are at most as many lines as bytes.
pub proof fn lemma_lines_count(s: Seq<u8>, i: int)
    requires
        0 <= i <= s.len(),
    ensures
        crate::lexer::spec_lines_from(s, i).len() <= s.len() - i,
    decreases s.len() - i,
{
    if i < s.len() {
        let j = crate::lexer::first_byte_from(s, i, 10);
        crate::lexer::lemma_first_byte_from(s, i, 10);
        if j < s.len() {
            lemma_lines_count(s, j + 1);
        }
    }
}

/// The fallback texture coordinates derived from vertex positions:
/// `u = (x + 1) / 2`, `v = (y + 1) / 2`, truncating.
pub open spec fn spec_default_tex(vs: Seq<Vec3>) -> Seq<Tex2> {
    Seq::new(
        vs.len(),
        |i: int|
            Tex2 {
                u: div_trunc(vs[i].x as int + FX_ONE, 2) as i64,
                v: div_trunc(vs[i].y as int + FX_ONE, 2) as i64,
            },
    )
}

/// Builds a face from three zero-based indices.
fn make_face(a: u32, b: u32, c: u32, material: Option<u32>) -> (r: Face)
    ensures
        abs_face(r) == (AbsFace {
            a: a as int,
            b: b as int,
            c: c as int,
            material: abs_material_index(material),
        }),
{
    Face { vertex_indices: [a, b, c], material }
}

/// One named material: colors and shininess, zero until the record sets
/// them.
#[derive(Clone, Debug)]
pub struct Material {
    pub name: Vec<u8>,
    pub ambient: Vec3,
    pub diffuse: Vec3,
    pub specular: Vec3,
    pub shininess: i64,
}

/// The parsed mesh: positions, texture coordinates, normals, triangulated
/// faces, material-name and material tables, and the material-library
/// resources the description asks for. Every face index is below
/// `vertices.len()`.
#[derive(Debug)]
pub struct ObjData {
    pub vertices: Vec<Vec3>,
    pub tex_coords: Vec<Tex2>,
    pub normals: Vec<Vec3>,
    pub faces: Vec<Face>,
    pub material_names: Vec<Vec<u8>>,
    pub materials: Vec<Material>,
    pub mtl_libs: Vec<Vec<u8>>,
}

/// The mathematical reading of a material.
pub ghost struct AbsMaterial {
    pub name: Seq<u8>,
    pub ambient: Vec3,
    pub diffuse: Vec3,
    pub specular: Vec3,
    pub shininess: i64,
}

pub open spec fn abs_material(m: Material) -> AbsMaterial {
    AbsMaterial {
        name: m.name@,
        ambient: m.ambient,
        diffuse: m.diffuse,
        specular: m.specular,
        shininess: m.shininess,
    }
}

/// The record keyword opening a material-library line.
#[derive(Clone, Copy, PartialEq, Eq, Structural, Debug)]
pub enum MtlKeyword {
    NewMtl,
    Ka,
    Kd,
    Ks,
    Ns,
    Other,
}

pub open spec fn spec_classify_mtl(t: Seq<u8>) -> MtlKeyword {
    if t == seq![110u8, 101u8, 119u8, 109u8, 116u8, 108u8] {
        MtlKeyword::NewMtl
    } else if t == seq![75u8, 97u8] {
        MtlKeyword::Ka
    } else if t == seq![75u8, 100u8] {
        MtlKeyword::Kd
    } else if t == seq![75u8, 115u8] {
        MtlKeyword::Ks
    } else if t == seq![78u8, 115u8] {
        MtlKeyword::Ns
    } else {
        MtlKeyword::Other
    }
}

fn classify_mtl(t: &Vec<u8>) -> (k: MtlKeyword)
    ensures
        k == spec_classify_mtl(t@),
{
    let n: usize = t.len();
    if n == 6 {
        if t[0] == 110u8 && t[1] == 101u8 && t[2] == 119u8 && t[3] == 109u8 && t[4] == 116u8 && t[5]
            == 108u8 {
            proof {
                assert(t@ =~= seq![110u8, 101u8, 119u8, 109u8, 116u8, 108u8]);
            }
            MtlKeyword::NewMtl
        } else {
            MtlKeyword::Other
        }
    } else if n == 2 {
        let b0: u8 = t[0];
        let b1: u8 = t[1];
        if b0 == 75u8 && b1 == 97u8 {
            proof {
                assert(t@ =~= seq![75u8, 97u8]);
            }
            MtlKeyword::Ka
        } else if b0 == 75u8 && b1 == 100u8 {
            proof {
                assert(t@ =~= seq![75u8, 100u8]);
            }
            MtlKeyword::Kd
        } else if b0 == 75u8 && b1 == 115u8 {
            proof {
                assert(t@ =~= seq![75u8, 115u8]);
            }
            MtlKeyword::Ks
        } else if b0 == 78u8 && b1 == 115u8 {
            proof {
                assert(t@ =~= seq![78u8, 115u8]);
            }
            MtlKeyword::Ns
        } else {
            MtlKeyword::Other
        }
    } else {
        MtlKeyword::Other
    }
}

/// One line of a material library. A new-material record opens a fresh
/// record with zeroed colors and shininess; a color or shininess record
/// fills the record opened last; one arriving before any record is
/// ignored, as are unrecognized lines. A recognized record with missing
/// tokens or a bad numeric token has no successor state.
pub open spec fn mtl_step(mats: Seq<AbsMaterial>, line: Seq<u8>) -> Option<Seq<AbsMaterial>> {
    let toks = spec_tokens(line);
    if toks.len() == 0 {
        Some(mats)
    } else {
        let kw = spec_classify_mtl(toks[0]);
        let last = mats.len() - 1;
        if kw == MtlKeyword::NewMtl {
            if toks.len() == 2 {
                Some(
                    mats.push(
                        AbsMaterial {
                            name: toks[1],
                            ambient: Vec3 { x: 0, y: 0, z: 0 },
                            diffuse: Vec3 { x: 0, y: 0, z: 0 },
                            specular: Vec3 { x: 0, y: 0, z: 0 },
                            shininess: 0,
                        },
                    ),
                )
            } else {
                None
            }
        } else if kw == MtlKeyword::Ka || kw == MtlKeyword::Kd || kw == MtlKeyword::Ks {
            if toks.len() != 4 {
                None
            } else {
                match (spec_parse_scalar(toks[1]), spec_parse_scalar(toks[2]), spec_parse_scalar(
                    toks[3],
                )) {
                    (Some(x), Some(y), Some(z)) => {
                        if mats.len() == 0 {
                            Some(mats)
                        } else {
                            let c = Vec3 { x: x as i64, y: y as i64, z: z as i64 };
                            if kw == MtlKeyword::Ka {
                                Some(mats.update(last, AbsMaterial { ambient: c, ..mats[last] }))
                            } else if kw == MtlKeyword::Kd {
                                Some(mats.update(last, AbsMaterial { diffuse: c, ..mats[last] }))
                            } else {
                                Some(mats.update(last, AbsMaterial { specular: c, ..mats[last] }))
                            }
                        }
                    },
                    _ => None,
                }
            }
        } else if kw == MtlKeyword::Ns {
            if toks.len() != 2 {
                None
            } else {
                match spec_parse_scalar(toks[1]) {
                    Some(v) => {
                        if mats.len() == 0 {
                            Some(mats)
                        } else {
                            Some(
                                mats.update(
                                    last,
                                    AbsMaterial { shininess: v as i64, ..mats[last] },
                                ),
                            )
                        }
                    },
                    None => None,
                }
            }
        } else {
            Some(mats)
        }
    }
}

/// The materials after the first `n` lines, or nothing once a line was
/// malformed.
pub open spec fn spec_parse_mtl_upto(lines: Seq<Seq<u8>>, n: int) -> Option<Seq<AbsMaterial>>
    decreases n,
{
    if n <= 0 {
        Some(Seq::empty())
    } else {
        match spec_parse_mtl_upto(lines, n - 1) {
            None => None,
            Some(ms) => mtl_step(ms, lines[n - 1]),
        }
    }
}

/// The parsed reading of a whole material library.
pub open spec fn spec_parse_mtl(text: Seq<u8>) -> Option<Seq<AbsMaterial>> {
    spec_parse_mtl_upto(spec_split_lines(text), spec_split_lines(text).len() as int)
}

pub proof fn lemma_parse_mtl_none_sticky(lines: Seq<Seq<u8>>, i: int, j: int)
    requires
        0 <= i <= j,
        spec_parse_mtl_upto(lines, i) is None,
    ensures
        spec_parse_mtl_upto(lines, j) is None,
    decreases j - i,
{
    if j > i {
        lemma_parse_mtl_none_sticky(lines, i, j - 1);
    }
}

/// Whether the growing exec state reads back as the abstract fold state.
pub open spec fn corresponds(
    st: AbsObj,
    vertices: Seq<Vec3>,
    tex: Seq<Tex2>,
    normals: Seq<Vec3>,
    faces: Seq<Face>,
    names: Seq<Vec<u8>>,
    cur: Option<u32>,
    libs: Seq<Vec<u8>>,
) -> bool {
    &&& vertices == st.vertices
    &&& tex == st.tex_coords
    &&& normals == st.normals
    &&& faces.map_values(|f: Face| abs_face(f)) == st.faces
    &&& names.map_values(|v: Vec<u8>| v@) == st.material_names
    &&& abs_material_index(cur) == st.cur_material
    &&& libs.map_values(|v: Vec<u8>| v@) == st.mtl_libs
}

/// The position of `name` in `names`, or the length when it is absent.
fn find_name(names: &Vec<Vec<u8>>, name: &Vec<u8>) -> (k: usize)
    ensures
        k <= names@.len(),
        k as int == name_index_from(names@.map_values(|v: Vec<u8>| v@), 0, name@),
{
    let ghost names0 = names@.map_values(|v: Vec<u8>| v@);
    let nn: usize = names.len();
    let mut k: usize = 0;
    while k < nn
        invariant_except_break
            0 <= k <= nn,
            nn == names@.len(),
            names0 == names@.map_values(|v: Vec<u8>| v@),
            forall|j: int| 0 <= j < k ==> names0[j] != name@,
        ensures
            k <= nn,
            nn == names@.len(),
            names0 == names@.map_values(|v: Vec<u8>| v@),
            forall|j: int| 0 <= j < k ==> names0[j] != name@,
            k < nn ==> names0[k as int] == name@,
        decreases nn - k,
    {
        if bytes_eq(&names[k], name) {
            proof {
                assert(names0[k as int] == names@[k as int]@);
            }
            break;
        }
        proof {
            assert(names0[k as int] == names@[k as int]@);
        }
        k = k + 1;
    }
    proof {
        lemma_name_index_at(names0, 0, k as int, name@);
    }
    k
}

/// Derives the fallback texture coordinates from vertex positions.
fn derive_default_tex(vertices: &Vec<Vec3>) -> (r: Vec<Tex2>)
    requires
        forall|i: int|
            0 <= i < vertices@.len() ==> vec3_bounded(#[trigger] vertices@[i], COORD_MAX as int),
    ensures
        r@ == spec_default_tex(vertices@),
{
    let n: usize = vertices.len();
    let mut r: Vec<Tex2> = Vec::new();
    let mut i: usize = 0;
    while i < n
        invariant
            0 <= i <= n,
            n == vertices@.len(),
            forall|j: int|
                0 <= j < n ==> vec3_bounded(#[trigger] vertices@[j], COORD_MAX as int),
            r@.len() == i,
            forall|j: int| 0 <= j < i ==> r@[j] == spec_default_tex(vertices@)[j],
        decreases n - i,
    {
        let v: Vec3 = vertices[i];
        let t = Tex2 { u: crate::fixed::fx_div(v.x + FX_ONE, 2), v: crate::fixed::fx_div(v.y + FX_ONE, 2) };
        r.push(t);
        i = i + 1;
    }
    proof {
        assert(r@ =~= spec_default_tex(vertices@));
    }
    r
}

/// Checks every face index against the vertex count.
fn faces_within(faces: &Vec<Face>, n: usize) -> (r: bool)
    ensures
        r == crate::normals::faces_in_range(
            faces@.map_values(|f: Face| abs_face(f)),
            n as int,
        ),
{
    let ghost absf = faces@.map_values(|f: Face| abs_face(f));
    let nf: usize = faces.len();
    let mut i: usize = 0;
    while i < nf
        invariant
            0 <= i <= nf,
            nf == faces@.len(),
            absf == faces@.map_values(|f: Face| abs_face(f)),
            forall|j: int|
                0 <= j < i ==> crate::normals::face_in_range(#[trigger] absf[j], n as int),
        decreases nf - i,
    {
        let f: Face = faces[i];
        if !((f.vertex_indices[0] as usize) < n && (f.vertex_indices[1] as usize) < n
            && (f.vertex_indices[2] as usize) < n) {
            proof {
                assert(absf[i as int] == abs_face(faces@[i as int]));
                assert(!crate::normals::face_in_range(absf[i as int], n as int));
            }
            return false;
        }
        proof {
            assert(absf[i as int] == abs_face(faces@[i as int]));
        }
        i = i + 1;
    }
    true
}

impl ObjData {
    /// Computes one smooth normal per vertex from the faces alone; see
    /// the synthesizer for the averaging policy.
    pub fn calculate_face_normals(vertices: &Vec<Vec3>, faces: &Vec<Face>) -> (r: Vec<Vec3>)
        requires
            forall|i: int|
                0 <= i < vertices@.len() ==> vec3_bounded(
                    #[trigger] vertices@[i],
                    COORD_MAX as int,
                ),
            crate::normals::faces_in_range(
                faces@.map_values(|f: Face| abs_face(f)),
                vertices@.len() as int,
            ),
            faces@.len() <= crate::normals::FACES_MAX,
        ensures
            r@.len() == vertices@.len(),
            r@ == crate::normals::spec_face_normals(
                vertices@,
                faces@.map_values(|f: Face| abs_face(f)),
            ),
            forall|i: int| 0 <= i < r@.len() ==> vec3_bounded(#[trigger] r@[i], FX_ONE as int),
    {
        crate::normals::calculate_face_normals(vertices, faces)
    }

    /// Parses a whole mesh description. Success is owed exactly when every
    /// recognized record parses and every face index points into the
    /// vertex array; any other description is a malformed record. On
    /// success the mesh reads back as the line fold's final state, with
    /// the two documented fallbacks: position-derived texture coordinates
    /// when the description supplied none, and synthesized smooth normals
    /// when it supplied none.
    #[verifier::loop_isolation(false)]
    #[verifier::rlimit(100)]
    pub fn parse(text: &Vec<u8>) -> (r: Result<ObjData, LoadError>)
        requires
            text@.len() <= 0xFFFF_FFFF,
        ensures
            r is Ok <==> (spec_parse_obj(text@) matches Some(st) && crate::normals::faces_in_range(
                st.faces,
                st.vertices.len() as int,
            )),
            r is Err ==> r == Result::<ObjData, LoadError>::Err(LoadError::MalformedRecord),
            r matches Ok(o) ==> (spec_parse_obj(text@) matches Some(st) && {
                &&& o.vertices@ == st.vertices
                &&& o.tex_coords@ == (if st.tex_coords.len() == 0 {
                    spec_default_tex(st.vertices)
                } else {
                    st.tex_coords
                })
                &&& o.normals@ == (if st.normals.len() == 0 {
                    crate::normals::spec_face_normals(st.vertices, st.faces)
                } else {
                    st.normals
                })
                &&& o.faces@.map_values(|f: Face| abs_face(f)) == st.faces
                &&& o.material_names@.map_values(|v: Vec<u8>| v@) == st.material_names
                &&& o.mtl_libs@.map_values(|v: Vec<u8>| v@) == st.mtl_libs
                &&& o.materials@.len() == 0
                &&& crate::normals::faces_in_range(st.faces, o.vertices@.len() as int)
                &&& forall|i: int|
                    0 <= i < o.vertices@.len() ==> vec3_bounded(
                        #[trigger] o.vertices@[i],
                        COORD_MAX as int,
                    )
            }),
    {
        let lines: Vec<Vec<u8>> = split_lines(text);
        let ghost ll = spec_split_lines(text@);
        proof {
            lemma_lines_count(text@, 0);
        }
        let nl: usize = lines.len();
        let mut vertices: Vec<Vec3> = Vec::new();
        let mut tex_coords: Vec<Tex2> = Vec::new();
        let mut normals: Vec<Vec3> = Vec::new();
        let mut faces: Vec<Face> = Vec::new();
        let mut material_names: Vec<Vec<u8>> = Vec::new();
        let mut mtl_libs: Vec<Vec<u8>> = Vec::new();
        let mut cur_material: Option<u32> = None;
        proof {
            assert(faces@.map_values(|f: Face| abs_face(f)) =~= Seq::<AbsFace>::empty());
            assert(material_names@.map_values(|v: Vec<u8>| v@) =~= Seq::<Seq<u8>>::empty());
            assert(mtl_libs@.map_values(|v: Vec<u8>| v@) =~= Seq::<Seq<u8>>::empty());
        }
        let mut li: usize = 0;
        while li < nl
            invariant
                0 <= li <= nl,
                spec_parse_obj_upto(ll, li as int) matches Some(st) && corresponds(
                    st,
                    vertices@,
                    tex_coords@,
                    normals@,
                    faces@,
                    material_names@,
                    cur_material,
                    mtl_libs@,
                ),
                material_names@.len() <= li as int,
                faces@.len() <= 2 * li as int,
                cur_material matches Some(k) ==> (k as int) < material_names@.len(),
                forall|j: int|
                    0 <= j < vertices@.len() ==> vec3_bounded(
                        #[trigger] vertices@[j],
                        COORD_MAX as int,
                    ),
            decreases nl - li,
        {
            let ghost st0 = spec_parse_obj_upto(ll, li as int).unwrap();
            let toks: Vec<Vec<u8>> = tokenize(&lines[li]);
            let ghost tt = spec_tokens(ll[li as int]);
            proof {
                assert(lines@[li as int]@ == ll[li as int]);
                assert(toks@.map_values(|t: Vec<u8>| t@) == tt);
            }
            let nt: usize = toks.len();
            if nt == 0 {
                proof {
                    assert(spec_parse_obj_upto(ll, li as int + 1) == Some(st0));
                }
            } else {
                proof {
                    assert(tt[0] == toks@[0]@);
                }
                let kw: ObjKeyword = classify_obj(&toks[0]);
                if kw == ObjKeyword::V && nt == 4 {
                    proof {
                        assert(tt[1] == toks@[1]@ && tt[2] == toks@[2]@ && tt[3] == toks@[3]@);
                    }
                    let x = parse_scalar(&toks[1]);
                    let y = parse_scalar(&toks[2]);
                    let z = parse_scalar(&toks[3]);
                    match (x, y, z) {
                        (Some(xv), Some(yv), Some(zv)) => {
                            vertices.push(Vec3 { x: xv, y: yv, z: zv });
                            proof {
                                assert(spec_parse_obj_upto(ll, li as int + 1) matches Some(st1)
                                    && corresponds(
                                    st1,
                                    vertices@,
                                    tex_coords@,
                                    normals@,
                                    faces@,
                                    material_names@,
                                    cur_material,
                                    mtl_libs@,
                                ));
                            }
                        },
                        _ => {
                            proof {
                                assert(obj_step(st0, ll[li as int]) is None);
                                lemma_parse_none_sticky(ll, li as int + 1, ll.len() as int);
                            }
                            return Err(LoadError::MalformedRecord);
                        },
                    }
                } else if kw == ObjKeyword::Vt && nt == 3 {
                    proof {
                        assert(tt[1] == toks@[1]@ && tt[2] == toks@[2]@);
                    }
                    let u = parse_scalar(&toks[1]);
                    let v = parse_scalar(&toks[2]);
                    match (u, v) {
                        (Some(uv), Some(vv)) => {
                            tex_coords.push(Tex2 { u: uv, v: vv });
                            proof {
                                assert(spec_parse_obj_upto(ll, li as int + 1) matches Some(st1)
                                    && corresponds(
                                    st1,
                                    vertices@,
                                    tex_coords@,
                                    normals@,
                                    faces@,
                                    material_names@,
                                    cur_material,
                                    mtl_libs@,
                                ));
                            }
                        },
                        _ => {
                            proof {
                                assert(obj_step(st0, ll[li as int]) is None);
                                lemma_parse_none_sticky(ll, li as int + 1, ll.len() as int);
                            }
                            return Err(LoadError::MalformedRecord);
                        },
                    }
                } else if kw == ObjKeyword::Vn && nt == 4 {
                    proof {
                        assert(tt[1] == toks@[1]@ && tt[2] == toks@[2]@ && tt[3] == toks@[3]@);
                    }
                    let x = parse_scalar(&toks[1]);
                    let y = parse_scalar(&toks[2]);
                    let z = parse_scalar(&toks[3]);
                    match (x, y, z) {
                        (Some(xv), Some(yv), Some(zv)) => {
                            normals.push(Vec3 { x: xv, y: yv, z: zv });
                            proof {
                                assert(spec_parse_obj_upto(ll, li as int + 1) matches Some(st1)
                                    && corresponds(
                                    st1,
                                    vertices@,
                                    tex_coords@,
                                    normals@,
                                    faces@,
                                    material_names@,
                                    cur_material,
                                    mtl_libs@,
                                ));
                            }
                        },
                        _ => {
                            proof {
                                assert(obj_step(st0, ll[li as int]) is None);
                                lemma_parse_none_sticky(ll, li as int + 1, ll.len() as int);
                            }
                            return Err(LoadError::MalformedRecord);
                        },
                    }
                } else if kw == ObjKeyword::F && nt == 4 {
                    proof {
                        assert(tt[1] == toks@[1]@ && tt[2] == toks@[2]@ && tt[3] == toks@[3]@);
                    }
                    let a = parse_index(&toks[1]);
                    let b = parse_index(&toks[2]);
                    let c = parse_index(&toks[3]);
                    match (a, b, c) {
                        (Some(av), Some(bv), Some(cv)) => {
                            faces.push(make_face(av, bv, cv, cur_material));
                            proof {
                                assert(faces@.map_values(|f: Face| abs_face(f)) =~= st0.faces.push(
                                    AbsFace {
                                        a: av as int,
                                        b: bv as int,
                                        c: cv as int,
                                        material: st0.cur_material,
                                    },
                                ));
                                assert(spec_parse_obj_upto(ll, li as int + 1) matches Some(st1)
                                    && corresponds(
                                    st1,
                                    vertices@,
                                    tex_coords@,
                                    normals@,
                                    faces@,
                                    material_names@,
                                    cur_material,
                                    mtl_libs@,
                                ));
                            }
                        },
                        _ => {
                            proof {
                                assert(obj_step(st0, ll[li as int]) is None);
                                lemma_parse_none_sticky(ll, li as int + 1, ll.len() as int);
                            }
                            return Err(LoadError::MalformedRecord);
                        },
                    }
                } else if kw == ObjKeyword::F && nt == 5 {
                    proof {
                        assert(tt[1] == toks@[1]@ && tt[2] == toks@[2]@ && tt[3] == toks@[3]@
                            && tt[4] == toks@[4]@);
                    }
                    let a = parse_index(&toks[1]);
                    let b = parse_index(&toks[2]);
                    let c = parse_index(&toks[3]);
                    let d = parse_index(&toks[4]);
                    match (a, b, c, d) {
                        (Some(av), Some(bv), Some(cv), Some(dv)) => {
                            faces.push(make_face(av, bv, cv, cur_material));
                            faces.push(make_face(av, cv, dv, cur_material));
                            proof {
                                assert(faces@.map_values(|f: Face| abs_face(f)) =~= st0.faces.push(
                                    AbsFace {
                                        a: av as int,
                                        b: bv as int,
                                        c: cv as int,
                                        material: st0.cur_material,
                                    },
                                ).push(
                                    AbsFace {
                                        a: av as int,
                                        b: cv as int,
                                        c: dv as int,
                                        material: st0.cur_material,
                                    },
                                ));
                                assert(spec_parse_obj_upto(ll, li as int + 1) matches Some(st1)
                                    && corresponds(
                                    st1,
                                    vertices@,
                                    tex_coords@,
                                    normals@,
                                    faces@,
                                    material_names@,
                                    cur_material,
                                    mtl_libs@,
                                ));
                            }
                        },
                        _ => {
                            proof {
                                assert(obj_step(st0, ll[li as int]) is None);
                                lemma_parse_none_sticky(ll, li as int + 1, ll.len() as int);
                            }
                            return Err(LoadError::MalformedRecord);
                        },
                    }
                } else if kw == ObjKeyword::UseMtl && nt == 2 {
                    proof {
                        assert(tt[1] == toks@[1]@);
                    }
                    let ghost names0 = material_names@.map_values(|v: Vec<u8>| v@);
                    let nn: usize = material_names.len();
                    let k: usize = find_name(&material_names, &toks[1]);
                    if k < nn {
                        cur_material = Some(k as u32);
                    } else {
                        let name_copy: Vec<u8> = copy_range(&toks[1], 0, toks[1].len());
                        proof {
                            assert(name_copy@ =~= toks@[1]@);
                        }
                        material_names.push(name_copy);
                        cur_material = Some(k as u32);
                        proof {
                            assert(material_names@.map_values(|v: Vec<u8>| v@) =~= names0.push(
                                toks@[1]@,
                            ));
                        }
                    }
                    proof {
                        assert(spec_parse_obj_upto(ll, li as int + 1) matches Some(st1)
                            && corresponds(
                            st1,
                            vertices@,
                            tex_coords@,
                            normals@,
                            faces@,
                            material_names@,
                            cur_material,
                            mtl_libs@,
                        ));
                    }
                } else if kw == ObjKeyword::MtlLib && nt == 2 {
                    proof {
                        assert(tt[1] == toks@[1]@);
                    }
                    let ghost libs0 = mtl_libs@.map_values(|v: Vec<u8>| v@);
                    let lib_copy: Vec<u8> = copy_range(&toks[1], 0, toks[1].len());
                    proof {
                        assert(lib_copy@ =~= toks@[1]@);
                    }
                    mtl_libs.push(lib_copy);
                    proof {
                        assert(mtl_libs@.map_values(|v: Vec<u8>| v@) =~= libs0.push(toks@[1]@));
                        assert(spec_parse_obj_upto(ll, li as int + 1) matches Some(st1)
                            && corresponds(
                            st1,
                            vertices@,
                            tex_coords@,
                            normals@,
                            faces@,
                            material_names@,
                            cur_material,
                            mtl_libs@,
                        ));
                    }
                } else {
                    proof {
                        assert(obj_step(st0, ll[li as int]) == Some(st0));
                    }
                }
            }
            li = li + 1;
        }
        let ghost stf = spec_parse_obj_upto(ll, nl as int).unwrap();
        proof {
            assert(spec_parse_obj(text@) == Some(stf));
        }
        if !faces_within(&faces, vertices.len()) {
            return Err(LoadError::MalformedRecord);
        }
        if tex_coords.len() == 0 {
            tex_coords = derive_default_tex(&vertices);
        }
        if normals.len() == 0 {
            normals = ObjData::calculate_face_normals(&vertices, &faces);
        }
        Ok(
            ObjData {
                vertices,
                tex_coords,
                normals,
                faces,
                material_names,
                materials: Vec::new(),
                mtl_libs,
            },
        )
    }
}

/// Parses a whole material library. Success is owed exactly when every
/// recognized record has all its tokens and each numeric token parses;
/// the result is the material list in order of appearance, unset fields
/// keeping their zero default.
#[verifier::loop_isolation(false)]
#[verifier::rlimit(100)]
pub fn parse_mtl(text: &Vec<u8>) -> (r: Result<Vec<Material>, LoadError>)
    ensures
        r is Ok <==> spec_parse_mtl(text@) is Some,
        r is Err ==> r == Result::<Vec<Material>, LoadError>::Err(LoadError::MalformedRecord),
        r matches Ok(ms) ==> (spec_parse_mtl(text@) matches Some(ams) && ms@.map_values(
            |m: Material| abs_material(m),
        ) == ams),
{
    let lines: Vec<Vec<u8>> = split_lines(text);
    let ghost ll = spec_split_lines(text@);
    let nl: usize = lines.len();
    let mut mats: Vec<Material> = Vec::new();
    proof {
        assert(mats@.map_values(|m: Material| abs_material(m)) =~= Seq::<AbsMaterial>::empty());
    }
    let mut li: usize = 0;
    while li < nl
        invariant
            0 <= li <= nl,
            spec_parse_mtl_upto(ll, li as int) matches Some(ams) && mats@.map_values(
                |m: Material| abs_material(m),
            ) == ams,
        decreases nl - li,
    {
        let ghost ams0 = spec_parse_mtl_upto(ll, li as int).unwrap();
        let toks: Vec<Vec<u8>> = tokenize(&lines[li]);
        let ghost tt = spec_tokens(ll[li as int]);
        proof {
            assert(lines@[li as int]@ == ll[li as int]);
            assert(toks@.map_values(|t: Vec<u8>| t@) == tt);
        }
        let nt: usize = toks.len();
        if nt == 0 {
            proof {
                assert(spec_parse_mtl_upto(ll, li as int + 1) == Some(ams0));
            }
        } else {
            proof {
                assert(tt[0] == toks@[0]@);
            }
            let kw: MtlKeyword = classify_mtl(&toks[0]);
            if kw == MtlKeyword::NewMtl {
                if nt != 2 {
                    proof {
                        assert(mtl_step(ams0, ll[li as int]) is None);
                        lemma_parse_mtl_none_sticky(ll, li as int + 1, ll.len() as int);
                    }
                    return Err(LoadError::MalformedRecord);
                }
                proof {
                    assert(tt[1] == toks@[1]@);
                }
                let name_copy: Vec<u8> = copy_range(&toks[1], 0, toks[1].len());
                proof {
                    assert(name_copy@ =~= toks@[1]@);
                }
                let ghost m0 = mats@.map_values(|m: Material| abs_material(m));
                mats.push(
                    Material {
                        name: name_copy,
                        ambient: Vec3 { x: 0, y: 0, z: 0 },
                        diffuse: Vec3 { x: 0, y: 0, z: 0 },
                        specular: Vec3 { x: 0, y: 0, z: 0 },
                        shininess: 0,
                    },
                );
                proof {
                    assert(mats@.map_values(|m: Material| abs_material(m)) =~= m0.push(
                        AbsMaterial {
                            name: toks@[1]@,
                            ambient: Vec3 { x: 0, y: 0, z: 0 },
                            diffuse: Vec3 { x: 0, y: 0, z: 0 },
                            specular: Vec3 { x: 0, y: 0, z: 0 },
                            shininess: 0,
                        },
                    ));
                    assert(spec_parse_mtl_upto(ll, li as int + 1) matches Some(a1)
                        && mats@.map_values(|m: Material| abs_material(m)) == a1);
                }
            } else if kw == MtlKeyword::Ka || kw == MtlKeyword::Kd || kw == MtlKeyword::Ks {
                if nt != 4 {
                    proof {
                        assert(mtl_step(ams0, ll[li as int]) is None);
                        lemma_parse_mtl_none_sticky(ll, li as int + 1, ll.len() as int);
                    }
                    return Err(LoadError::MalformedRecord);
                }
                proof {
                    assert(tt[1] == toks@[1]@ && tt[2] == toks@[2]@ && tt[3] == toks@[3]@);
                }
                let x = parse_scalar(&toks[1]);
                let y = parse_scalar(&toks[2]);
                let z = parse_scalar(&toks[3]);
                match (x, y, z) {
                    (Some(xv), Some(yv), Some(zv)) => {
                        if mats.len() > 0 {
                            let c = Vec3 { x: xv, y: yv, z: zv };
                            let ghost m0 = mats@.map_values(|m: Material| abs_material(m));
                            match mats.pop() {
                                Some(popped) => {
                                    let mut m: Material = popped;
                                    if kw == MtlKeyword::Ka {
                                        m.ambient = c;
                                    } else if kw == MtlKeyword::Kd {
                                        m.diffuse = c;
                                    } else {
                                        m.specular = c;
                                    }
                                    mats.push(m);
                                    proof {
                                        assert(mats@.map_values(|mm: Material| abs_material(mm))
                                            =~= m0.update(
                                            m0.len() - 1,
                                            abs_material(mats@.last()),
                                        ));
                                        assert(spec_parse_mtl_upto(ll, li as int + 1)
                                            matches Some(a1) && mats@.map_values(
                                            |mm: Material| abs_material(mm),
                                        ) == a1);
                                    }
                                },
                                None => {
                                    proof {
                                        assert(false);
                                    }
                                },
                            }
                        } else {
                            proof {
                                assert(spec_parse_mtl_upto(ll, li as int + 1) == Some(ams0));
                            }
                        }
                    },
                    _ => {
                        proof {
                            assert(mtl_step(ams0, ll[li as int]) is None);
                            lemma_parse_mtl_none_sticky(ll, li as int + 1, ll.len() as int);
                        }
                        return Err(LoadError::MalformedRecord);
                    },
                }
            } else if kw == MtlKeyword::Ns {
                if nt != 2 {
                    proof {
                        assert(mtl_step(ams0, ll[li as int]) is None);
                        lemma_parse_mtl_none_sticky(ll, li as int + 1, ll.len() as int);
                    }
                    return Err(LoadError::MalformedRecord);
                }
                proof {
                    assert(tt[1] == toks@[1]@);
                }
                match parse_scalar(&toks[1]) {
                    Some(v) => {
                        if mats.len() > 0 {
                            let ghost m0 = mats@.map_values(|m: Material| abs_material(m));
                            match mats.pop() {
                                Some(popped) => {
                                    let mut m: Material = popped;
                                    m.shininess = v;
                                    mats.push(m);
                                    proof {
                                        assert(mats@.map_values(|mm: Material| abs_material(mm))
                                            =~= m0.update(
                                            m0.len() - 1,
                                            abs_material(mats@.last()),
                                        ));
                                        assert(spec_parse_mtl_upto(ll, li as int + 1)
                                            matches Some(a1) && mats@.map_values(
                                            |mm: Material| abs_material(mm),
                                        ) == a1);
                                    }
                                },
                                None => {
                                    proof {
                                        assert(false);
                                    }
                                },
                            }
                        } else {
                            proof {
                                assert(spec_parse_mtl_upto(ll, li as int + 1) == Some(ams0));
                            }
                        }
                    },
                    None => {
                        proof {
                            assert(mtl_step(ams0, ll[li as int]) is None);
                            lemma_parse_mtl_none_sticky(ll, li as int + 1, ll.len() as int);
                        }
                        return Err(LoadError::MalformedRecord);
                    },
                }
            } else {
                proof {
                    assert(mtl_step(ams0, ll[li as int]) == Some(ams0));
                }
            }
        }
        li = li + 1;
    }
    Ok(mats)
}

} // verus!
