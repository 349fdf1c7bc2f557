use scop::fixed::{Vec3, FX_ONE};
use scop::matrices::{
    look_at, mat4_identity, mat4_mul, mat4_perspective, mat4_rotation_x, mat4_rotation_y,
    mat4_scale, mat4_translation, transform_point, Mat4,
};

fn assert_mat_eq(a: &Mat4, b: &Mat4) {
    assert_eq!(
        [
            a.m00, a.m01, a.m02, a.m03, a.m10, a.m11, a.m12, a.m13, a.m20, a.m21, a.m22, a.m23,
            a.m30, a.m31, a.m32, a.m33
        ],
        [
            b.m00, b.m01, b.m02, b.m03, b.m10, b.m11, b.m12, b.m13, b.m20, b.m21, b.m22, b.m23,
            b.m30, b.m31, b.m32, b.m33
        ]
    );
}

#[test]
fn identity_is_neutral_for_translation() {
    let m = mat4_translation(Vec3 { x: 10000, y: -20000, z: 30000 });
    let left = mat4_mul(mat4_identity(), m);
    let right = mat4_mul(m, mat4_identity());
    assert_mat_eq(&left, &m);
    assert_mat_eq(&right, &m);
}

#[test]
fn identity_is_neutral_for_scale() {
    let m = mat4_scale(Vec3 { x: 20000, y: 5000, z: -10000 });
    assert_mat_eq(&mat4_mul(mat4_identity(), m), &m);
    assert_mat_eq(&mat4_mul(m, mat4_identity()), &m);
}

#[test]
fn identity_is_neutral_for_rotations() {
    let rx = mat4_rotation_x(8000, 6000);
    assert_mat_eq(&mat4_mul(mat4_identity(), rx), &rx);
    assert_mat_eq(&mat4_mul(rx, mat4_identity()), &rx);
    let ry = mat4_rotation_y(8000, -6000);
    assert_mat_eq(&mat4_mul(mat4_identity(), ry), &ry);
    assert_mat_eq(&mat4_mul(ry, mat4_identity()), &ry);
}

#[test]
fn identity_is_neutral_for_identity() {
    let id = mat4_identity();
    assert_mat_eq(&mat4_mul(id, id), &id);
}

#[test]
fn rotation_layouts_are_standard() {
    let rx = mat4_rotation_x(8000, 6000);
    assert_eq!((rx.m11, rx.m12, rx.m21, rx.m22), (8000, -6000, 6000, 8000));
    assert_eq!((rx.m00, rx.m33), (FX_ONE, FX_ONE));
    let ry = mat4_rotation_y(8000, 6000);
    assert_eq!((ry.m00, ry.m02, ry.m20, ry.m22), (8000, 6000, -6000, 8000));
    assert_eq!((ry.m11, ry.m33), (FX_ONE, FX_ONE));
}

#[test]
fn product_composes_rotations() {
    // quarter turns about y: cos 0, sin 1, twice = half turn
    let q = mat4_rotation_y(0, FX_ONE);
    let h = mat4_mul(q, q);
    assert_eq!((h.m00, h.m02, h.m20, h.m22), (-FX_ONE, 0, 0, -FX_ONE));
}

#[test]
fn transform_point_applies_translation() {
    let m = mat4_translation(Vec3 { x: 50000, y: 0, z: -10000 });
    let p = transform_point(&m, Vec3 { x: 10000, y: 20000, z: 30000 });
    assert_eq!(p, Vec3 { x: 60000, y: 20000, z: 20000 });
}

#[test]
fn transform_point_applies_scale() {
    let m = mat4_scale(Vec3 { x: 20000, y: 30000, z: 5000 });
    let p = transform_point(&m, Vec3 { x: 10000, y: 10000, z: 10000 });
    assert_eq!(p, Vec3 { x: 20000, y: 30000, z: 5000 });
}

#[test]
fn perspective_matrix_holds_the_expected_entries() {
    // tangent of half the field of view 0.5774, square viewport
    let m = mat4_perspective(5774, FX_ONE, 1000, 10_000_000);
    assert_eq!(m.m11, 100_000_000 / 5774);
    assert_eq!(m.m00, m.m11);
    assert_eq!(m.m22, -(200_000_000 / 9_999_000));
    assert_eq!(m.m23, -(10_001_000i64 * 10000 / 9_999_000));
    assert_eq!(m.m33, FX_ONE);
    assert_eq!((m.m01, m.m30, m.m32), (0, 0, 0));
}

#[test]
fn look_at_down_the_z_axis_gives_the_standard_view() {
    let eye = Vec3 { x: 0, y: 0, z: 100_000 };
    let target = Vec3 { x: 0, y: 0, z: 0 };
    let up = Vec3 { x: 0, y: FX_ONE, z: 0 };
    let m = look_at(eye, target, up);
    assert_eq!((m.m00, m.m01, m.m02, m.m03), (FX_ONE, 0, 0, 0));
    assert_eq!((m.m10, m.m11, m.m12, m.m13), (0, FX_ONE, 0, 0));
    assert_eq!((m.m20, m.m21, m.m22, m.m23), (0, 0, FX_ONE, -100_000));
    assert_eq!((m.m30, m.m31, m.m32, m.m33), (0, 0, 0, FX_ONE));
}
