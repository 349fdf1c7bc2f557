use scop::error::LoadError;
use scop::fixed::Vec3;
use scop::parser::parse_mtl;

fn mtl_ok(text: &str) -> Vec<scop::parser::Material> {
    let bytes: Vec<u8> = text.as_bytes().to_vec();
    parse_mtl(&bytes).expect("material library should parse")
}

fn mtl_err(text: &str) -> LoadError {
    let bytes: Vec<u8> = text.as_bytes().to_vec();
    parse_mtl(&bytes).expect_err("material library should be rejected")
}

#[test]
fn two_records_with_their_colors() {
    let ms = mtl_ok("newmtl A\nKa 1 0 0\nKd 0 1 0\nnewmtl B\nKs 0 0 1\n");
    assert_eq!(ms.len(), 2);
    assert_eq!(ms[0].name, b"A".to_vec());
    assert_eq!(ms[0].ambient, Vec3 { x: 10000, y: 0, z: 0 });
    assert_eq!(ms[0].diffuse, Vec3 { x: 0, y: 10000, z: 0 });
    assert_eq!(ms[0].specular, Vec3 { x: 0, y: 0, z: 0 });
    assert_eq!(ms[0].shininess, 0);
    assert_eq!(ms[1].name, b"B".to_vec());
    assert_eq!(ms[1].ambient, Vec3 { x: 0, y: 0, z: 0 });
    assert_eq!(ms[1].specular, Vec3 { x: 0, y: 0, z: 10000 });
}

#[test]
fn shininess_fills_the_open_record() {
    let ms = mtl_ok("newmtl m\nNs 96.5\n");
    assert_eq!(ms[0].shininess, 965000);
}

#[test]
fn properties_before_any_record_are_ignored() {
    let ms = mtl_ok("Ka 1 0 0\nNs 3\n");
    assert_eq!(ms.len(), 0);
}

#[test]
fn unknown_material_lines_are_ignored() {
    let ms = mtl_ok("# comment\nillum 2\nmap_Kd tex.bmp\nnewmtl m\n");
    assert_eq!(ms.len(), 1);
}

#[test]
fn color_record_with_missing_tokens_is_malformed() {
    assert_eq!(mtl_err("newmtl m\nKa 1 0\n"), LoadError::MalformedRecord);
}

#[test]
fn color_record_with_bad_number_is_malformed() {
    assert_eq!(mtl_err("newmtl m\nKd 0 x 0\n"), LoadError::MalformedRecord);
}

#[test]
fn new_material_without_a_name_is_malformed() {
    assert_eq!(mtl_err("newmtl\n"), LoadError::MalformedRecord);
}

#[test]
fn shininess_with_bad_number_is_malformed() {
    assert_eq!(mtl_err("newmtl m\nNs abc\n"), LoadError::MalformedRecord);
}

#[test]
fn later_records_do_not_disturb_earlier_ones() {
    let ms = mtl_ok("newmtl a\nKa 0.5 0.5 0.5\nnewmtl b\nKa 1 1 1\n");
    assert_eq!(ms[0].ambient, Vec3 { x: 5000, y: 5000, z: 5000 });
    assert_eq!(ms[1].ambient, Vec3 { x: 10000, y: 10000, z: 10000 });
}
