use meshgen::matrix::{Matrix, Vector4};
use meshgen::vector::VectorImpl;

fn plus(a: f32, b: f32) -> f32 {
    a + b
}

fn minus(a: f32, b: f32) -> f32 {
    a - b
}

fn times(a: f32, b: f32) -> f32 {
    a * b
}

fn over(a: f32, b: f32) -> f32 {
    a / b
}

fn root(a: f32) -> f32 {
    a.sqrt()
}

fn sin(a: f32) -> f32 {
    a.sin()
}

fn cos(a: f32) -> f32 {
    a.cos()
}

fn rot(a: f32, x: f32, y: f32, z: f32) -> Matrix<f32> {
    Matrix::rot(a, x, y, z, 0f32, 1f32, &plus, &minus, &times, &over, &root, &sin, &cos)
}

#[test]
pub fn rot_matrix_test() {
    let x_rot = rot(0f32, 1f32, 0f32, 0f32);
    let y_rot = rot(0f32, 0f32, 1f32, 0f32);
    let z_rot = rot(0f32, 0f32, 0f32, 1f32);
    let identity = Matrix::identity(0f32, 1f32);
    assert_eq!(identity, x_rot);
    assert_eq!(identity, y_rot);
    assert_eq!(identity, z_rot);
}

#[test]
fn rot_follows_its_formula() {
    let a = 0.5f32;
    let (s, c) = (a.sin(), a.cos());
    let m = rot(a, 0f32, 0f32, 2f32);
    let expected = [
        c, s, 0.0, 0.0,
        -s, c, 0.0, 0.0,
        0.0, 0.0, 1.0, 0.0,
        0.0, 0.0, 0.0, 1.0,
    ];
    assert_eq!(m.values, expected);

    let m = rot(a, 1f32, 2f32, 2f32);
    let (x, y, z) = (1f32 / 3f32, 2f32 / 3f32, 2f32 / 3f32);
    let (xx, yy, zz, xy, xz, yz) = (x * x, y * y, z * z, x * y, x * z, y * z);
    let expected = [
        xx + (1.0 - xx) * c, xy * (1.0 - c) + z * s, xz * (1.0 - c) - y * s, 0.0,
        xy * (1.0 - c) - z * s, yy + (1.0 - yy) * c, yz * (1.0 - c) + x * s, 0.0,
        xz * (1.0 - c) + y * s, yz * (1.0 - c) - x * s, zz + (1.0 - zz) * c, 0.0,
        0.0, 0.0, 0.0, 1.0,
    ];
    assert_eq!(m.values, expected);
}

fn close(a: f32, b: f32) -> bool {
    (a - b).abs() < 1e-5
}

#[test]
fn rot_by_a_right_angle_about_z_turns_x_into_y() {
    let m = rot(std::f32::consts::FRAC_PI_2, 0f32, 0f32, 1f32);
    let r = m.mult_vector(&VectorImpl::new(1f32, 0f32, 0f32), 0f32, 1f32, &times, &plus);
    assert!(close(r.x, 0.0) && close(r.y, 1.0) && close(r.z, 0.0));
    let r = m.mult_vector(&VectorImpl::new(0f32, 1f32, 0f32), 0f32, 1f32, &times, &plus);
    assert!(close(r.x, -1.0) && close(r.y, 0.0) && close(r.z, 0.0));
    for entry in m.values.iter() {
        assert!(entry.abs() <= 1.0 + 1e-6);
    }
}

#[test]
fn rot_keeps_lengths_and_its_axis() {
    let axes = [(1f32, 2f32, 2f32), (0f32, 0f32, 1f32), (-3f32, 0.5f32, 4f32)];
    let angles = [0.3f32, 1.0, 2.5, -1.2];
    let points = [(1f32, 0f32, 0f32), (0.5f32, -2f32, 3f32), (4f32, 4f32, -1f32)];
    for axis in axes.iter() {
        for a in angles.iter() {
            let m = rot(*a, axis.0, axis.1, axis.2);
            assert_eq!(&m.values[12..], &[0.0, 0.0, 0.0, 1.0]);
            assert_eq!((m.values[3], m.values[7], m.values[11]), (0.0, 0.0, 0.0));
            let kept = m.mult_vector(
                &VectorImpl::new(axis.0, axis.1, axis.2),
                0f32,
                1f32,
                &times,
                &plus,
            );
            assert!(close(kept.x, axis.0) && close(kept.y, axis.1) && close(kept.z, axis.2));
            for p in points.iter() {
                let r = m.mult_vector(&VectorImpl::new(p.0, p.1, p.2), 0f32, 1f32, &times, &plus);
                let before = (p.0 * p.0 + p.1 * p.1 + p.2 * p.2).sqrt();
                let after = (r.x * r.x + r.y * r.y + r.z * r.z).sqrt();
                assert!(close(before, after));
            }
        }
    }
}

#[test]
fn rot_about_a_zero_axis_is_not_finite() {
    let m = rot(1f32, 0f32, 0f32, 0f32);
    assert!(m.values[0].is_nan());
    assert_eq!(m.values[15], 1.0);
    assert_eq!(m.values[3], 0.0);
}

#[test]
fn identity_translate_and_scale_hold_their_entries() {
    assert_eq!(
        Matrix::identity(0f32, 1f32).values,
        [1.0, 0.0, 0.0, 0.0, 0.0, 1.0, 0.0, 0.0, 0.0, 0.0, 1.0, 0.0, 0.0, 0.0, 0.0, 1.0]
    );
    assert_eq!(
        Matrix::translate(2f32, 3f32, 4f32, 0f32, 1f32).values,
        [1.0, 0.0, 0.0, 0.0, 0.0, 1.0, 0.0, 0.0, 0.0, 0.0, 1.0, 0.0, 2.0, 3.0, 4.0, 1.0]
    );
    assert_eq!(
        Matrix::scale(2f32, 3f32, 4f32, 0f32, 1f32).values,
        [2.0, 0.0, 0.0, 0.0, 0.0, 3.0, 0.0, 0.0, 0.0, 0.0, 4.0, 0.0, 0.0, 0.0, 0.0, 1.0]
    );
}

fn counting() -> Matrix<f32> {
    Matrix {
        values: [
            1.0, 2.0, 3.0, 4.0, 5.0, 6.0, 7.0, 8.0, 9.0, 10.0, 11.0, 12.0, 13.0, 14.0, 15.0, 16.0,
        ],
    }
}

#[test]
fn get_vec_reads_a_column() {
    let m = counting();
    assert_eq!(m.get_vec(0).values, [1.0, 2.0, 3.0, 4.0]);
    assert_eq!(m.get_vec(2).values, [9.0, 10.0, 11.0, 12.0]);
    assert_eq!(m.get_vec(3).values, [13.0, 14.0, 15.0, 16.0]);
}

#[test]
fn mult_vector4_combines_the_columns() {
    let m = counting();
    let v = Vector4 { values: [1.0f32, 0.0, 2.0, 1.0] };
    let r = m.mult_vector4(&v, 0f32, &times, &plus);
    assert_eq!(r.values, [32.0, 36.0, 40.0, 44.0]);
}

#[test]
fn mult_vector_translates_a_point() {
    let m = Matrix::translate(10f32, 20f32, 30f32, 0f32, 1f32);
    let p = VectorImpl::new(1f32, 2f32, 3f32);
    let r = m.mult_vector(&p, 0f32, 1f32, &times, &plus);
    assert_eq!((r.x, r.y, r.z), (11.0, 22.0, 33.0));
    let s = Matrix::scale(2f32, 3f32, 4f32, 0f32, 1f32).mult_vector(&p, 0f32, 1f32, &times, &plus);
    assert_eq!((s.x, s.y, s.z), (2.0, 6.0, 12.0));
}

#[test]
fn mult_matrix_multiplies_column_by_column() {
    let m = counting();
    let id = Matrix::identity(0f32, 1f32);
    assert_eq!(m.mult_matrix(&id, 0f32, &times, &plus), m);
    assert_eq!(id.mult_matrix(&m, 0f32, &times, &plus), m);
    let t = Matrix::translate(1f32, 2f32, 3f32, 0f32, 1f32);
    let s = Matrix::scale(2f32, 2f32, 2f32, 0f32, 1f32);
    let ts = t.mult_matrix(&s, 0f32, &times, &plus);
    assert_eq!(
        ts.values,
        [2.0, 0.0, 0.0, 0.0, 0.0, 2.0, 0.0, 0.0, 0.0, 0.0, 2.0, 0.0, 1.0, 2.0, 3.0, 1.0]
    );
    let st = s.mult_matrix(&t, 0f32, &times, &plus);
    assert_eq!(
        st.values,
        [2.0, 0.0, 0.0, 0.0, 0.0, 2.0, 0.0, 0.0, 0.0, 0.0, 2.0, 0.0, 2.0, 4.0, 6.0, 1.0]
    );
}
