use scop::buffers::{flatten_indices, interleave_vertex_data};
use scop::camera::Camera;
use scop::error::LoadError;
use scop::fixed::{fx_div, isqrt_u128, Vec3, FX_ONE};
use scop::lexer::{parse_index, parse_scalar, split_lines, tokenize};
use scop::model::{calculate_model_center, ModelPosition, ModelRotation};
use scop::parser::ObjData;
use scop::texture::parse_bmp_header;

fn scalar(s: &str) -> Option<i64> {
    parse_scalar(&s.as_bytes().to_vec())
}

fn index(s: &str) -> Option<u32> {
    parse_index(&s.as_bytes().to_vec())
}

#[test]
fn scalar_tokens_parse_to_ten_thousandths() {
    assert_eq!(scalar("1.5"), Some(15000));
    assert_eq!(scalar("-0.125"), Some(-1250));
    assert_eq!(scalar(".5"), Some(5000));
    assert_eq!(scalar("2"), Some(20000));
    assert_eq!(scalar("1."), Some(10000));
    assert_eq!(scalar("+2.5"), Some(25000));
    assert_eq!(scalar("1000"), Some(10_000_000));
    assert_eq!(scalar("1.23456"), Some(12345));
    assert_eq!(scalar("0.00005"), Some(0));
    assert_eq!(scalar("-0"), Some(0));
}

#[test]
fn bad_scalar_tokens_have_no_value() {
    assert_eq!(scalar(""), None);
    assert_eq!(scalar("-"), None);
    assert_eq!(scalar("."), None);
    assert_eq!(scalar("+."), None);
    assert_eq!(scalar("1e5"), None);
    assert_eq!(scalar("1.5.5"), None);
    assert_eq!(scalar("12a"), None);
    assert_eq!(scalar("1000.0001"), None);
    assert_eq!(scalar("1001"), None);
    assert_eq!(scalar("99999999999999999999"), None);
}

#[test]
fn index_tokens_are_one_based_and_slash_limited() {
    assert_eq!(index("1"), Some(0));
    assert_eq!(index("12/5/7"), Some(11));
    assert_eq!(index("3//9"), Some(2));
    assert_eq!(index("4294967295"), Some(4294967294));
}

#[test]
fn bad_index_tokens_have_no_value() {
    assert_eq!(index("0"), None);
    assert_eq!(index(""), None);
    assert_eq!(index("/5"), None);
    assert_eq!(index("abc"), None);
    assert_eq!(index("4294967296"), None);
    assert_eq!(index("-3"), None);
}

#[test]
fn lines_split_on_newlines_without_a_trailing_ghost_line() {
    let t = b"a b\nc\n\nd".to_vec();
    let ls = split_lines(&t);
    assert_eq!(ls.len(), 4);
    assert_eq!(ls[0], b"a b".to_vec());
    assert_eq!(ls[1], b"c".to_vec());
    assert_eq!(ls[2], Vec::<u8>::new());
    assert_eq!(ls[3], b"d".to_vec());
    assert_eq!(split_lines(&b"x\n".to_vec()).len(), 1);
    assert_eq!(split_lines(&Vec::new()).len(), 0);
}

#[test]
fn tokens_split_on_blanks_tabs_and_carriage_returns() {
    let l = b"  v\t1.5  2\r".to_vec();
    let ts = tokenize(&l);
    assert_eq!(ts.len(), 3);
    assert_eq!(ts[0], b"v".to_vec());
    assert_eq!(ts[1], b"1.5".to_vec());
    assert_eq!(ts[2], b"2".to_vec());
}

#[test]
fn division_truncates_toward_zero() {
    assert_eq!(fx_div(7, 2), 3);
    assert_eq!(fx_div(-7, 2), -3);
    assert_eq!(fx_div(0, 5), 0);
}

#[test]
fn integer_square_roots_are_exact_floors() {
    assert_eq!(isqrt_u128(0), 0);
    assert_eq!(isqrt_u128(15), 3);
    assert_eq!(isqrt_u128(16), 4);
    assert_eq!(isqrt_u128(10_000_000_000_000_000), 100_000_000);
    assert_eq!(isqrt_u128(u128::MAX), u64::MAX);
}

#[test]
fn model_center_is_the_bounding_box_midpoint() {
    let vs = vec![
        Vec3 { x: -20000, y: 0, z: 10000 },
        Vec3 { x: 40000, y: 20000, z: -30000 },
        Vec3 { x: 0, y: 10000, z: 0 },
    ];
    let c = calculate_model_center(&vs);
    assert_eq!(c, Vec3 { x: 10000, y: 10000, z: -10000 });
}

#[test]
fn scene_state_starts_at_the_origin_and_nudges() {
    let mut rot = ModelRotation::new();
    assert_eq!((rot.x_angle, rot.y_angle), (0, 0));
    rot.rotate_by(-1000, 1000);
    assert_eq!((rot.x_angle, rot.y_angle), (-1000, 1000));
    let mut pos = ModelPosition::new();
    assert_eq!((pos.x, pos.y, pos.z), (0, 0, 0));
    pos.translate_by(1000, -1000);
    assert_eq!((pos.x, pos.y, pos.z), (1000, -1000, 0));
}

#[test]
fn camera_zoom_never_passes_the_minimum_distance() {
    let mut cam = Camera::new(1024, 768);
    assert_eq!(cam.position.z, 100_000);
    cam.zoom(-2000);
    assert_eq!(cam.position.z, 98_000);
    cam.zoom(-200_000);
    assert_eq!(cam.position.z, 0);
    cam.zoom(2000);
    assert_eq!(cam.position.z, 2000);
}

#[test]
fn camera_rebuilds_projection_on_resize() {
    let mut cam = Camera::new(1024, 768);
    let before = cam.projection.m00;
    cam.update_resolution(2048, 768);
    assert_eq!((cam.width, cam.height), (2048, 768));
    assert!(cam.projection.m00 < before);
    cam.update_target(Vec3 { x: 10000, y: 0, z: 0 });
    assert_eq!(cam.target, Vec3 { x: 10000, y: 0, z: 0 });
}

#[test]
fn flat_indices_walk_the_faces_in_order() {
    let o = parse("v 0 0 0\nv 1 0 0\nv 1 1 0\nv 0 1 0\nf 1 2 3 4\n");
    let idx = flatten_indices(&o.faces);
    assert_eq!(idx, vec![0, 1, 2, 0, 2, 3]);
}

#[test]
fn interleaved_stream_packs_eight_scalars_per_vertex() {
    let o = parse("v 1 0 0\nvn 0 0 1\nvt 0.5 0.5\n");
    let data = interleave_vertex_data(&o);
    assert_eq!(data.len(), 8);
    assert_eq!(&data[0..3], &[FX_ONE, 0, 0]);
    assert_eq!(&data[3..5], &[5000, 5000]);
    assert_eq!(&data[5..8], &[0, 0, FX_ONE]);
}

#[test]
fn interleaved_stream_uses_fallbacks_for_short_attribute_arrays() {
    let vertices = vec![Vec3 { x: 0, y: 0, z: 0 }];
    let o = ObjData {
        vertices,
        tex_coords: Vec::new(),
        normals: Vec::new(),
        faces: Vec::new(),
        material_names: Vec::new(),
        materials: Vec::new(),
        mtl_libs: Vec::new(),
    };
    let data = interleave_vertex_data(&o);
    assert_eq!(data, vec![0, 0, 0, 0, 0, 0, FX_ONE, 0]);
}

#[test]
fn bitmap_header_fields_read_little_endian() {
    let mut bytes = vec![0u8; 60];
    bytes[0] = b'B';
    bytes[1] = b'M';
    bytes[10] = 54; // pixel data offset
    bytes[18] = 2; // width
    bytes[22] = 3; // height
    let h = parse_bmp_header(&bytes).expect("header should parse");
    assert_eq!(h.width, 2);
    assert_eq!(h.height, 3);
    assert_eq!(h.data_offset, 54);
}

#[test]
fn bitmap_height_can_be_negative() {
    let mut bytes = vec![0u8; 60];
    bytes[0] = b'B';
    bytes[1] = b'M';
    bytes[22] = 0xFE;
    bytes[23] = 0xFF;
    bytes[24] = 0xFF;
    bytes[25] = 0xFF;
    let h = parse_bmp_header(&bytes).expect("header should parse");
    assert_eq!(h.height, -2);
}

#[test]
fn bad_bitmaps_are_unsupported_images() {
    assert_eq!(parse_bmp_header(&vec![0u8; 10]), unsupported());
    let mut bad_sig = vec![0u8; 60];
    bad_sig[0] = b'X';
    bad_sig[1] = b'M';
    assert_eq!(parse_bmp_header(&bad_sig), unsupported());
    let mut far_offset = vec![0u8; 60];
    far_offset[0] = b'B';
    far_offset[1] = b'M';
    far_offset[10] = 100;
    assert_eq!(parse_bmp_header(&far_offset), unsupported());
}

#[test]
fn errors_describe_themselves() {
    assert_eq!(LoadError::MalformedRecord.describe(), "malformed record");
    assert_eq!(LoadError::ResourceNotFound.describe(), "resource not found");
    assert_eq!(LoadError::UnsupportedImageFormat.describe(), "unsupported image format");
    assert_eq!(LoadError::BackendFailure.describe(), "backend failure");
}

fn parse(text: &str) -> ObjData {
    ObjData::parse(&text.as_bytes().to_vec()).expect("mesh should parse")
}

fn unsupported() -> Result<scop::texture::BmpHeader, LoadError> {
    Err(LoadError::UnsupportedImageFormat)
}
