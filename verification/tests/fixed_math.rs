//! Exactness tests for the fixed-point scalar and the matrix algebra.

use gba3d::fixed::Fixed;
use gba3d::matrix::{Matrix, MatrixMath};
use gba3d::geometry::Vector3D;

fn fx(v: i32) -> Fixed {
    Fixed::from_int(v)
}

#[test]
fn from_int_scales_by_4096() {
    assert_eq!(fx(1).raw, 4096);
    assert_eq!(fx(-24).raw, -24 * 4096);
    assert_eq!(fx(0).raw, 0);
}

#[test]
fn add_sub_are_exact() {
    assert_eq!(fx(3).add(fx(4)).raw, 7 * 4096);
    assert_eq!(fx(3).sub(fx(4)).raw, -4096);
}

#[test]
fn add_wraps_silently() {
    let max = Fixed::from_raw(i32::MAX);
    assert_eq!(max.add(Fixed::from_raw(1)).raw, i32::MIN);
    let min = Fixed::from_raw(i32::MIN);
    assert_eq!(min.sub(Fixed::from_raw(1)).raw, i32::MAX);
}

#[test]
fn mul_exact_on_halves() {
    // 1.5 * 1.5 == 2.25, exactly representable
    let x = Fixed::from_raw(6144);
    assert_eq!(x.mul(x).raw, 9216);
    // (-1.5) * 1.5 == -2.25
    let n = Fixed::from_raw(-6144);
    assert_eq!(n.mul(x).raw, -9216);
}

#[test]
fn mul_floors_toward_negative_infinity() {
    // the tiniest positive times itself underflows to zero
    assert_eq!(Fixed::from_raw(1).mul(Fixed::from_raw(1)).raw, 0);
    // a negative product floors downward
    assert_eq!(Fixed::from_raw(-1).mul(Fixed::from_raw(1)).raw, -1);
}

#[test]
fn div_truncates_toward_zero() {
    assert_eq!(fx(3).div(fx(2)).raw, 6144);
    assert_eq!(fx(-3).div(fx(2)).raw, -6144);
    assert_eq!(fx(7).div(fx(-2)).raw, -(7 * 2048));
}

#[test]
fn trunc_rounds_toward_zero() {
    assert_eq!(Fixed::from_raw(6144).trunc(), 1);
    assert_eq!(Fixed::from_raw(-6144).trunc(), -1);
    assert_eq!(fx(24).trunc(), 24);
    assert_eq!(fx(-24).trunc(), -24);
    assert_eq!(Fixed::from_raw(4095).trunc(), 0);
}

#[test]
fn neg_abs_and_scalar_helpers() {
    assert_eq!(Fixed::one().raw, 4096);
    assert_eq!(Fixed::zero().raw, 0);
    assert_eq!(fx(5).neg().raw, -5 * 4096);
    assert_eq!(fx(-5).abs().raw, 5 * 4096);
    assert_eq!(fx(5).abs().raw, 5 * 4096);
    assert_eq!(fx(3).mul_int(7).raw, 21 * 4096);
    assert_eq!(fx(3).div_int(2).raw, 6144);
    assert_eq!(Fixed::from_raw(-3).div_int(2).raw, -1);
}

#[test]
fn trig_exact_on_quarter_turns() {
    // angles are in revolutions: 1024 raw is a quarter turn
    assert_eq!(Fixed::from_raw(0).cos().raw, 4096);
    assert_eq!(Fixed::from_raw(0).sin().raw, 0);
    assert_eq!(Fixed::from_raw(1024).cos().raw, 0);
    assert_eq!(Fixed::from_raw(1024).sin().raw, 4096);
    assert_eq!(Fixed::from_raw(2048).cos().raw, -4096);
    assert_eq!(Fixed::from_raw(2048).sin().raw, 0);
    assert_eq!(Fixed::from_raw(3072).cos().raw, 0);
    assert_eq!(Fixed::from_raw(3072).sin().raw, -4096);
    // a full turn comes back around
    assert_eq!(Fixed::from_raw(4096).cos().raw, 4096);
}

fn diag(a: i32, b: i32, c: i32) -> Matrix {
    let z = Fixed::from_raw(0);
    Matrix {
        width: 3,
        height: 3,
        elem: [
            [Fixed::from_int(a), z, z, z],
            [z, Fixed::from_int(b), z, z],
            [z, z, Fixed::from_int(c), z],
            [z, z, z, z],
        ],
    }
}

#[test]
fn vertex_times_identity_is_unchanged() {
    let v = Vector3D { x: fx(5), y: fx(-7), z: fx(9) };
    let out = Matrix::to_vertex(Matrix::from_vertex(v).mul(diag(1, 1, 1)));
    assert_eq!(out.x.raw, 5 * 4096);
    assert_eq!(out.y.raw, -7 * 4096);
    assert_eq!(out.z.raw, 9 * 4096);
}

#[test]
fn vertex_times_scaling_matrix() {
    let v = Vector3D { x: fx(1), y: fx(2), z: fx(3) };
    let out = Matrix::to_vertex(Matrix::from_vertex(v).mul(diag(2, 3, 4)));
    assert_eq!(out.x.raw, 2 * 4096);
    assert_eq!(out.y.raw, 6 * 4096);
    assert_eq!(out.z.raw, 12 * 4096);
}

#[test]
fn matrix_product_dimensions_and_cells() {
    // a 3x3 product of two scaling matrices multiplies the diagonals
    let p = diag(2, 3, 4).mul(diag(5, 6, 7));
    assert_eq!(p.width, 3);
    assert_eq!(p.height, 3);
    assert_eq!(p.elem[0][0].raw, 10 * 4096);
    assert_eq!(p.elem[1][1].raw, 18 * 4096);
    assert_eq!(p.elem[2][2].raw, 28 * 4096);
    assert_eq!(p.elem[1][0].raw, 0);
    assert_eq!(p.elem[3][3].raw, 0);
}

#[test]
fn from_vertex_shape() {
    let v = Vector3D { x: fx(1), y: fx(2), z: fx(3) };
    let m = Matrix::from_vertex(v);
    assert_eq!(m.width, 3);
    assert_eq!(m.height, 1);
    assert_eq!(m.elem[0][0].raw, 4096);
    assert_eq!(m.elem[1][0].raw, 2 * 4096);
    assert_eq!(m.elem[2][0].raw, 3 * 4096);
    assert_eq!(m.elem[0][1].raw, 0);
}
