use scop::error::LoadError;
use scop::fixed::{Tex2, Vec3, FX_ONE};
use scop::parser::{Face, ObjData};

fn parse_ok(text: &str) -> ObjData {
    let bytes: Vec<u8> = text.as_bytes().to_vec();
    ObjData::parse(&bytes).expect("mesh should parse")
}

fn parse_err(text: &str) -> LoadError {
    let bytes: Vec<u8> = text.as_bytes().to_vec();
    ObjData::parse(&bytes).expect_err("mesh should be rejected")
}

#[test]
fn empty_input_gives_empty_mesh() {
    let o = parse_ok("");
    assert_eq!(o.vertices.len(), 0);
    assert_eq!(o.faces.len(), 0);
    assert_eq!(o.materials.len(), 0);
}

#[test]
fn vertices_parse_to_fixed_point() {
    let o = parse_ok("v 1 2 3\nv -0.5 0.25 1000\n");
    assert_eq!(o.vertices.len(), 2);
    assert_eq!(o.vertices[0], Vec3 { x: 10000, y: 20000, z: 30000 });
    assert_eq!(o.vertices[1], Vec3 { x: -5000, y: 2500, z: 10_000_000 });
}

#[test]
fn triangle_face_indices_become_zero_based() {
    let o = parse_ok("v 0 0 0\nv 1 0 0\nv 0 1 0\nf 1 2 3\n");
    assert_eq!(o.faces.len(), 1);
    assert_eq!(o.faces[0].vertex_indices, [0u32, 1, 2]);
    assert_eq!(o.faces[0].material, None);
}

#[test]
fn quad_face_splits_into_two_triangles_sharing_the_diagonal() {
    let o = parse_ok("v 0 0 0\nv 1 0 0\nv 1 1 0\nv 0 1 0\nf 1 2 3 4\n");
    assert_eq!(o.faces.len(), 2);
    assert_eq!(o.faces[0].vertex_indices, [0u32, 1, 2]);
    assert_eq!(o.faces[1].vertex_indices, [0u32, 2, 3]);
}

#[test]
fn face_tokens_consume_only_the_position_subindex() {
    let o = parse_ok("v 0 0 0\nv 1 0 0\nv 0 1 0\nf 1/7/9 2/8 3//5\n");
    assert_eq!(o.faces[0].vertex_indices, [0u32, 1, 2]);
}

#[test]
fn face_index_beyond_vertices_is_a_malformed_record() {
    let e = parse_err("v 0 0 0\nv 1 0 0\nv 0 1 0\nf 1 2 4\n");
    assert_eq!(e, LoadError::MalformedRecord);
}

#[test]
fn face_index_zero_is_a_malformed_record() {
    let e = parse_err("v 0 0 0\nv 1 0 0\nv 0 1 0\nf 0 1 2\n");
    assert_eq!(e, LoadError::MalformedRecord);
}

#[test]
fn bad_vertex_number_is_a_malformed_record() {
    let e = parse_err("v 1 2 x\n");
    assert_eq!(e, LoadError::MalformedRecord);
    let e2 = parse_err("v 1e5 0 0\n");
    assert_eq!(e2, LoadError::MalformedRecord);
}

#[test]
fn out_of_range_magnitude_is_a_malformed_record() {
    let e = parse_err("v 1000.0001 0 0\n");
    assert_eq!(e, LoadError::MalformedRecord);
}

#[test]
fn unrecognized_lines_are_ignored() {
    let o = parse_ok("# a comment\no object\ns off\ng group\nv 1 1 1\nv 1 1\n");
    assert_eq!(o.vertices.len(), 1);
}

#[test]
fn explicit_texture_coordinates_are_kept() {
    let o = parse_ok("v 0 0 0\nvt 0.5 0.25\n");
    assert_eq!(o.tex_coords.len(), 1);
    assert_eq!(o.tex_coords[0], Tex2 { u: 5000, v: 2500 });
}

#[test]
fn missing_texture_coordinates_fall_back_to_positions() {
    let o = parse_ok("v 1 0 0\nv -1 0.5 2\n");
    assert_eq!(o.tex_coords.len(), 2);
    // u = (x + 1) / 2, v = (y + 1) / 2
    assert_eq!(o.tex_coords[0], Tex2 { u: FX_ONE, v: 5000 });
    assert_eq!(o.tex_coords[1], Tex2 { u: 0, v: 7500 });
}

#[test]
fn explicit_normals_suppress_synthesis() {
    let o = parse_ok("v 0 0 0\nvn 0 0 1\n");
    assert_eq!(o.normals.len(), 1);
    assert_eq!(o.normals[0], Vec3 { x: 0, y: 0, z: FX_ONE });
}

#[test]
fn missing_normals_are_synthesized_per_vertex() {
    let o = parse_ok("v 0 0 0\nv 1 0 0\nv 0 1 0\nf 1 2 3\n");
    assert_eq!(o.normals.len(), 3);
    for n in &o.normals {
        assert_eq!(*n, Vec3 { x: 0, y: 0, z: FX_ONE });
    }
}

#[test]
fn usemtl_selects_and_registers_material_names() {
    let o = parse_ok(
        "mtllib scene.mtl\nv 0 0 0\nv 1 0 0\nv 0 1 0\nusemtl red\nf 1 2 3\nusemtl blue\nf 1 2 3\nusemtl red\nf 1 2 3\n",
    );
    assert_eq!(o.mtl_libs.len(), 1);
    assert_eq!(o.mtl_libs[0], b"scene.mtl".to_vec());
    assert_eq!(o.material_names.len(), 2);
    assert_eq!(o.material_names[0], b"red".to_vec());
    assert_eq!(o.material_names[1], b"blue".to_vec());
    assert_eq!(o.faces[0].material, Some(0));
    assert_eq!(o.faces[1].material, Some(1));
    assert_eq!(o.faces[2].material, Some(0));
}

#[test]
fn synthesized_normals_have_unit_length_for_regular_faces() {
    let o = parse_ok("v 0 0 0\nv 1 0 0\nv 0 1 0\nv 0 0 1\nf 1 2 3\nf 1 3 4\nf 1 4 2\n");
    let one = FX_ONE as f64;
    for n in &o.normals {
        let (x, y, z) = (n.x as f64 / one, n.y as f64 / one, n.z as f64 / one);
        let len = (x * x + y * y + z * z).sqrt();
        assert!((len - 1.0).abs() < 0.002, "normal length {} is off unit", len);
    }
}

#[test]
fn degenerate_face_gets_the_fixed_fallback_normal() {
    // collinear corners: zero area
    let o = parse_ok("v 0 0 0\nv 1 0 0\nv 2 0 0\nf 1 2 3\n");
    for n in &o.normals {
        assert_eq!(*n, Vec3 { x: 0, y: FX_ONE, z: 0 });
    }
}

#[test]
fn unreferenced_vertices_keep_the_zero_normal() {
    let o = parse_ok("v 0 0 0\nv 1 0 0\nv 0 1 0\nv 5 5 5\nf 1 2 3\n");
    assert_eq!(o.normals[3], Vec3 { x: 0, y: 0, z: 0 });
}

#[test]
fn calculate_face_normals_averages_contributions() {
    let vertices = vec![
        Vec3 { x: 0, y: 0, z: 0 },
        Vec3 { x: FX_ONE, y: 0, z: 0 },
        Vec3 { x: 0, y: FX_ONE, z: 0 },
    ];
    let faces = vec![Face { vertex_indices: [0, 1, 2], material: None }];
    let normals = ObjData::calculate_face_normals(&vertices, &faces);
    assert_eq!(normals.len(), 3);
    assert_eq!(normals[0], Vec3 { x: 0, y: 0, z: FX_ONE });
}
