//! A software 3D rendering core for a fixed-function, indexed-color display:
//! fixed-point scalar and matrix math, a rotate/project/cull transform stage,
//! and line / filled-triangle rasterization onto an in-memory framebuffer.

pub mod fixed;
pub mod geometry;
pub mod drawing;
pub mod matrix;

use vstd::prelude::*;
use crate::fixed::{fx_add, fx_cos, fx_mul, fx_sin, fx_sub, fx_wrap, lemma_fx_wrap_id, lemma_fx_wrap_range, Fixed};
use crate::geometry::{Scene, Triangle2D, Triangle3D, Vector2D, Vector3D};
use crate::matrix::{mat_dims_ok, mval, Matrix, MatrixMath};

verus! {

/// Rotation step applied per held input direction per frame: roughly 0.01
/// revolutions, in raw fixed-point form.
pub const ROT_STEP_RAW: i32 = 40;

/// Horizontal screen-center offset of the orthographic projection, raw.
pub const CENTER_X_RAW: i32 = 120 * 4096;

/// Vertical screen-center offset of the orthographic projection, raw.
pub const CENTER_Y_RAW: i32 = 80 * 4096;

/// The nine logical entries of the combined intrinsic X -> Y -> Z Euler
/// rotation matrix, built from the six sines/cosines of the raw angles
/// `(rx, ry, rz)`; every cell outside the logical 3x3 block is zero.
pub open spec fn rot_entries_ok(m: Matrix, rx: int, ry: int, rz: int) -> bool {
    let cx = fx_cos(rx);
    let sx = fx_sin(rx);
    let cy = fx_cos(ry);
    let sy = fx_sin(ry);
    let cz = fx_cos(rz);
    let sz = fx_sin(rz);
    &&& mval(m, 0, 0) == fx_mul(cx, cy)
    &&& mval(m, 0, 1) == fx_mul(sx, cy)
    &&& mval(m, 0, 2) == fx_wrap(-sy)
    &&& mval(m, 1, 0) == fx_sub(fx_mul(fx_mul(cx, sy), sz), fx_mul(sx, cz))
    &&& mval(m, 1, 1) == fx_add(fx_mul(fx_mul(sx, sy), sz), fx_mul(cx, cz))
    &&& mval(m, 1, 2) == fx_mul(cy, sz)
    &&& mval(m, 2, 0) == fx_add(fx_mul(fx_mul(cx, sy), cz), fx_mul(sx, sz))
    &&& mval(m, 2, 1) == fx_sub(fx_mul(fx_mul(sx, sy), cz), fx_mul(cx, sz))
    &&& mval(m, 2, 2) == fx_mul(cy, cz)
    &&& forall|x: int, y: int|
        0 <= x < 4 && 0 <= y < 4 && !(x < 3 && y < 3) ==> mval(m, x, y) == 0
}

/// Raw value of component `c` (0 = x, 1 = y, 2 = z) of a vertex rotated by
/// matrix `m`: the fixed-point dot product the matrix multiply computes for a
/// 1x3 vertex matrix, accumulated left to right from zero.
pub open spec fn rotate_comp(m: Matrix, v: Vector3D, c: int) -> int {
    fx_add(
        fx_add(
            fx_add(0, fx_mul(v.x.raw as int, mval(m, c, 0))),
            fx_mul(v.y.raw as int, mval(m, c, 1)),
        ),
        fx_mul(v.z.raw as int, mval(m, c, 2)),
    )
}

/// The projected screen position of one rotated vertex: rotate by `m`, drop
/// z, add the screen-center offset.
pub open spec fn projected_vertex(m: Matrix, v: Vector3D) -> Vector2D {
    Vector2D {
        x: Fixed { raw: fx_add(rotate_comp(m, v, 0), CENTER_X_RAW as int) as i32 },
        y: Fixed { raw: fx_add(rotate_comp(m, v, 1), CENTER_Y_RAW as int) as i32 },
    }
}

/// The projected screen triangle of a polygon's three vertices.
pub open spec fn projected_tri(m: Matrix, t: Triangle3D) -> Triangle2D {
    [projected_vertex(m, t[0]), projected_vertex(m, t[1]), projected_vertex(m, t[2])]
}

/// Raw signed area of a projected triangle, computed in fixed-point exactly
/// as the visibility test computes it.
pub open spec fn signed_area_raw(t: Triangle2D) -> int {
    let x1 = fx_sub(t[0].x.raw as int, t[1].x.raw as int);
    let x2 = fx_sub(t[0].x.raw as int, t[2].x.raw as int);
    let y1 = fx_sub(t[0].y.raw as int, t[1].y.raw as int);
    let y2 = fx_sub(t[0].y.raw as int, t[2].y.raw as int);
    fx_sub(fx_mul(x1, y2), fx_mul(x2, y1))
}

/// A triangle passes the convex back-face visibility test when its signed
/// area is strictly negative, i.e. it winds toward the viewer.
pub open spec fn visible_sp(t: Triangle2D) -> bool {
    signed_area_raw(t) < 0
}

/// Builds the combined rotation matrix for the current Euler angles in
/// closed form, once per frame.
#[verifier::rlimit(60)]
pub fn rotation_matrix(rot: &Vector3D) -> (m: Matrix)
    ensures
        m.width == 3,
        m.height == 3,
        rot_entries_ok(m, rot.x.raw as int, rot.y.raw as int, rot.z.raw as int),
{
    let cos_x = rot.x.cos();
    let sin_x = rot.x.sin();
    let cos_y = rot.y.cos();
    let sin_y = rot.y.sin();
    let cos_z = rot.z.cos();
    let sin_z = rot.z.sin();
    let z = Fixed::zero();
    Matrix {
        width: 3,
        height: 3,
        elem: [
            [cos_x.mul(cos_y), sin_x.mul(cos_y), sin_y.neg(), z],
            [
                cos_x.mul(sin_y).mul(sin_z).sub(sin_x.mul(cos_z)),
                sin_x.mul(sin_y).mul(sin_z).add(cos_x.mul(cos_z)),
                cos_y.mul(sin_z),
                z,
            ],
            [
                cos_x.mul(sin_y).mul(cos_z).add(sin_x.mul(sin_z)),
                sin_x.mul(sin_y).mul(cos_z).sub(cos_x.mul(sin_z)),
                cos_y.mul(cos_z),
                z,
            ],
            [z, z, z, z],
        ],
    }
}

/// Rotates one mesh-local vertex: convert to a 3x1 matrix, multiply by the
/// rotation matrix, convert back.
#[verifier::rlimit(60)]
pub fn transform_vertex(m: &Matrix, v: Vector3D) -> (r: Vector3D)
    requires
        mat_dims_ok(*m),
        m.width == 3,
        m.height == 3,
    ensures
        r.x.raw as int == rotate_comp(*m, v, 0),
        r.y.raw as int == rotate_comp(*m, v, 1),
        r.z.raw as int == rotate_comp(*m, v, 2),
{
    let vm = Matrix::from_vertex(v);
    let product = vm.mul(*m);
    proof {
        reveal_with_fuel(crate::matrix::dot_raw, 4);
        assert(mval(product, 0, 0) == crate::matrix::dot_raw(vm, *m, 0, 0, 3));
        assert(mval(product, 1, 0) == crate::matrix::dot_raw(vm, *m, 1, 0, 3));
        assert(mval(product, 2, 0) == crate::matrix::dot_raw(vm, *m, 2, 0, 3));
        assert(crate::matrix::dot_raw(vm, *m, 0, 0, 3) == rotate_comp(*m, v, 0));
        assert(crate::matrix::dot_raw(vm, *m, 1, 0, 3) == rotate_comp(*m, v, 1));
        assert(crate::matrix::dot_raw(vm, *m, 2, 0, 3) == rotate_comp(*m, v, 2));
    }
    Matrix::to_vertex(product)
}

/// Orthographic projection: drop z and add the fixed screen-center offset to
/// x and y of every vertex.
#[allow(non_snake_case)]
pub fn to_triangle2D(tri: &Triangle3D) -> (r: Triangle2D)
    ensures
        forall|k: int|
            0 <= k < 3 ==> (#[trigger] r[k]).x.raw as int == fx_add(
                tri[k].x.raw as int,
                CENTER_X_RAW as int,
            ) && r[k].y.raw as int == fx_add(tri[k].y.raw as int, CENTER_Y_RAW as int),
{
    let dx = Fixed::from_raw(CENTER_X_RAW);
    let dy = Fixed::from_raw(CENTER_Y_RAW);
    [
        Vector2D { x: tri[0].x.add(dx), y: tri[0].y.add(dy) },
        Vector2D { x: tri[1].x.add(dx), y: tri[1].y.add(dy) },
        Vector2D { x: tri[2].x.add(dx), y: tri[2].y.add(dy) },
    ]
}

/// The convex back-face visibility test: keep a projected triangle exactly
/// when its fixed-point signed area is strictly negative.  Valid as a
/// hidden-surface rule only because the mesh is convex.
pub fn is_visible(t: &Triangle2D) -> (r: bool)
    ensures
        r == visible_sp(*t),
{
    let x1 = t[0].x.sub(t[1].x);
    let x2 = t[0].x.sub(t[2].x);
    let y1 = t[0].y.sub(t[1].y);
    let y2 = t[0].y.sub(t[2].y);
    x1.mul(y2).sub(x2.mul(y1)).raw < 0
}

/// Applies one frame of input: each held direction nudges one Euler angle by
/// the fixed rotation step; opposite directions cancel.  Nothing else in the
/// scene changes.
pub fn apply_input(
    scene: &mut Scene,
    up: bool,
    down: bool,
    left: bool,
    right: bool,
    l: bool,
    r: bool,
)
    ensures
        final(scene).mesh.rot.x.raw as int == {
            let a = if up {
                fx_add(old(scene).mesh.rot.x.raw as int, ROT_STEP_RAW as int)
            } else {
                old(scene).mesh.rot.x.raw as int
            };
            if down {
                fx_sub(a, ROT_STEP_RAW as int)
            } else {
                a
            }
        },
        final(scene).mesh.rot.z.raw as int == {
            let a = if left {
                fx_add(old(scene).mesh.rot.z.raw as int, ROT_STEP_RAW as int)
            } else {
                old(scene).mesh.rot.z.raw as int
            };
            if right {
                fx_sub(a, ROT_STEP_RAW as int)
            } else {
                a
            }
        },
        final(scene).mesh.rot.y.raw as int == {
            let a = if l {
                fx_add(old(scene).mesh.rot.y.raw as int, ROT_STEP_RAW as int)
            } else {
                old(scene).mesh.rot.y.raw as int
            };
            if r {
                fx_sub(a, ROT_STEP_RAW as int)
            } else {
                a
            }
        },
        final(scene).mesh.verticies@ == old(scene).mesh.verticies@,
        final(scene).mesh.pos == old(scene).mesh.pos,
        final(scene).camera.pos == old(scene).camera.pos,
        final(scene).camera.rot == old(scene).camera.rot,
{
    let step = Fixed::from_raw(ROT_STEP_RAW);
    if up {
        scene.mesh.rot.x = scene.mesh.rot.x.add(step);
    }
    if down {
        scene.mesh.rot.x = scene.mesh.rot.x.sub(step);
    }
    if left {
        scene.mesh.rot.z = scene.mesh.rot.z.add(step);
    }
    if right {
        scene.mesh.rot.z = scene.mesh.rot.z.sub(step);
    }
    if l {
        scene.mesh.rot.y = scene.mesh.rot.y.add(step);
    }
    if r {
        scene.mesh.rot.y = scene.mesh.rot.y.sub(step);
    }
}

/// Renders one frame: clear the framebuffer, build the rotation matrix once,
/// then for every polygon rotate its vertices, project them, cull by the
/// signed-area test, and fill plus outline the survivors.  Afterwards every
/// non-background pixel carries the color of some polygon that passed the
/// visibility test for this frame's rotation matrix — a culled polygon
/// contributes nothing to the frame.
#[verifier::rlimit(100)]
#[verifier::spinoff_prover]
pub fn render_frame(scene: &Scene, vram: &mut crate::drawing::Bitmap)
    requires
        old(vram).wf(),
    ensures
        final(vram).wf(),
        exists|mm: Matrix|
            mm.width == 3 && mm.height == 3 && #[trigger] rot_entries_ok(
                mm,
                scene.mesh.rot.x.raw as int,
                scene.mesh.rot.y.raw as int,
                scene.mesh.rot.z.raw as int,
            ) && forall|i: int|
                0 <= i < 240 * 160 && final(vram).pixels@[i] != 0 ==> exists|p: int|
                    0 <= p < scene.mesh.verticies@.len() && final(vram).pixels@[i] == (
                    #[trigger] scene.mesh.verticies@[p]).color && visible_sp(
                        projected_tri(mm, scene.mesh.verticies@[p].verticies),
                    ),
{
    vram.clear(0);
    let rm = rotation_matrix(&scene.mesh.rot);
    let mut idx: usize = 0;
    while idx < scene.mesh.verticies.len()
        invariant
            vram.wf(),
            rm.width == 3,
            rm.height == 3,
            rot_entries_ok(
                rm,
                scene.mesh.rot.x.raw as int,
                scene.mesh.rot.y.raw as int,
                scene.mesh.rot.z.raw as int,
            ),
            idx <= scene.mesh.verticies@.len(),
            forall|i: int|
                0 <= i < 240 * 160 && vram.pixels@[i] != 0 ==> exists|p: int|
                    0 <= p < scene.mesh.verticies@.len() && vram.pixels@[i] == (
                    #[trigger] scene.mesh.verticies@[p]).color && visible_sp(
                        projected_tri(rm, scene.mesh.verticies@[p].verticies),
                    ),
        decreases scene.mesh.verticies@.len() - idx,
    {
        let ghost pix_before = vram.pixels@;
        let poly = &scene.mesh.verticies[idx];
        let v0 = transform_vertex(&rm, poly.verticies[0]);
        let v1 = transform_vertex(&rm, poly.verticies[1]);
        let v2 = transform_vertex(&rm, poly.verticies[2]);
        let t3: Triangle3D = [v0, v1, v2];
        let flat = to_triangle2D(&t3);
        proof {
            lemma_fx_wrap_range(rotate_comp(rm, poly.verticies[0], 0) + CENTER_X_RAW as int);
            lemma_fx_wrap_range(rotate_comp(rm, poly.verticies[0], 1) + CENTER_Y_RAW as int);
            lemma_fx_wrap_range(rotate_comp(rm, poly.verticies[1], 0) + CENTER_X_RAW as int);
            lemma_fx_wrap_range(rotate_comp(rm, poly.verticies[1], 1) + CENTER_Y_RAW as int);
            lemma_fx_wrap_range(rotate_comp(rm, poly.verticies[2], 0) + CENTER_X_RAW as int);
            lemma_fx_wrap_range(rotate_comp(rm, poly.verticies[2], 1) + CENTER_Y_RAW as int);
            assert(flat[0] == projected_vertex(rm, poly.verticies[0]));
            assert(flat[1] == projected_vertex(rm, poly.verticies[1]));
            assert(flat[2] == projected_vertex(rm, poly.verticies[2]));
            assert(flat =~= projected_tri(rm, poly.verticies));
        }
        if is_visible(&flat) {
            vram.draw_tri(&flat, poly.color);
            vram.draw_line(flat[0], flat[1], 0);
            vram.draw_line(flat[1], flat[2], 0);
            vram.draw_line(flat[2], flat[0], 0);
            proof {
                assert forall|i: int| 0 <= i < 240 * 160 && vram.pixels@[i] != 0 implies exists|
                    p: int,
                |
                    0 <= p < scene.mesh.verticies@.len() && vram.pixels@[i] == (
                    #[trigger] scene.mesh.verticies@[p]).color && visible_sp(
                        projected_tri(rm, scene.mesh.verticies@[p].verticies),
                    ) by {
                    if vram.pixels@[i] == pix_before[i] {
                        let p0 = choose|p: int|
                            0 <= p < scene.mesh.verticies@.len() && pix_before[i] == (
                            #[trigger] scene.mesh.verticies@[p]).color && visible_sp(
                                projected_tri(rm, scene.mesh.verticies@[p].verticies),
                            );
                        assert(scene.mesh.verticies@[p0].color == vram.pixels@[i]);
                    } else {
                        assert(vram.pixels@[i] == poly.color);
                        assert(scene.mesh.verticies@[idx as int].color == vram.pixels@[i]);
                    }
                }
            }
        }
        idx = idx + 1;
    }
}

/// The winding half of the convex-visibility bound: a projected triangle and
/// the same triangle with two vertices swapped (reversed winding) can never
/// both pass the visibility test, because reversing the winding negates the
/// fixed-point signed area exactly.  The single excluded input is a triangle
/// whose area is `i32::MIN`, which two's-complement wrapping maps to its own
/// negation.
pub proof fn lemma_reversed_winding_culls_one(t: Triangle2D, u: Triangle2D)
    requires
        u[0] == t[0],
        u[1] == t[2],
        u[2] == t[1],
        signed_area_raw(t) != -0x8000_0000,
    ensures
        !(visible_sp(t) && visible_sp(u)),
{
    let x1 = fx_sub(t[0].x.raw as int, t[1].x.raw as int);
    let x2 = fx_sub(t[0].x.raw as int, t[2].x.raw as int);
    let y1 = fx_sub(t[0].y.raw as int, t[1].y.raw as int);
    let y2 = fx_sub(t[0].y.raw as int, t[2].y.raw as int);
    let p = fx_mul(x1, y2);
    let q = fx_mul(x2, y1);
    assert(signed_area_raw(t) == fx_sub(p, q));
    assert(signed_area_raw(u) == fx_sub(q, p));
    crate::fixed::lemma_fx_wrap_range((x1 * y2) / 4096);
    crate::fixed::lemma_fx_wrap_range((x2 * y1) / 4096);
    crate::fixed::lemma_fx_wrap_negation(p - q);
}

/// With all three Euler angles at zero the combined rotation matrix is the
/// identity transform: every vertex maps to itself, component by component.
pub proof fn lemma_identity_rotation(m: Matrix, v: Vector3D)
    requires
        rot_entries_ok(m, 0, 0, 0),
    ensures
        rotate_comp(m, v, 0) == v.x.raw as int,
        rotate_comp(m, v, 1) == v.y.raw as int,
        rotate_comp(m, v, 2) == v.z.raw as int,
{
    crate::fixed::lemma_trig_zero();
    assert(fx_mul(4096, 4096) == 4096) by {
        assert((4096 * 4096) / 4096 == 4096) by (nonlinear_arith);
    }
    assert(fx_mul(0, 4096) == 0 && fx_mul(4096, 0) == 0 && fx_mul(0, 0) == 0) by {
        assert(0int * 4096 == 0 && 4096 * 0int == 0 && 0int * 0 == 0) by (nonlinear_arith);
    }
    assert(mval(m, 0, 0) == 4096 && mval(m, 1, 1) == 4096 && mval(m, 2, 2) == 4096);
    assert(mval(m, 0, 1) == 0 && mval(m, 0, 2) == 0);
    assert(mval(m, 1, 0) == 0 && mval(m, 1, 2) == 0);
    assert(mval(m, 2, 0) == 0 && mval(m, 2, 1) == 0);
    lemma_rotate_identity_comp(m, v, 0, v.x.raw as int);
    lemma_rotate_identity_comp(m, v, 1, v.y.raw as int);
    lemma_rotate_identity_comp(m, v, 2, v.z.raw as int);
}

/// One component of the identity-matrix rotation: a dot product against a
/// unit column returns the matching coordinate unchanged.
proof fn lemma_rotate_identity_comp(m: Matrix, v: Vector3D, c: int, w: int)
    requires
        0 <= c < 3,
        mval(m, c, c) == 4096,
        forall|j: int| 0 <= j < 3 && j != c ==> mval(m, c, j) == 0,
        w == if c == 0 {
            v.x.raw as int
        } else if c == 1 {
            v.y.raw as int
        } else {
            v.z.raw as int
        },
    ensures
        rotate_comp(m, v, c) == w,
{
    assert forall|a: int| -0x8000_0000 <= a <= 0x7fff_ffff implies fx_mul(a, 4096) == a by {
        assert((a * 4096) / 4096 == a) by (nonlinear_arith);
        lemma_fx_wrap_id(a);
    }
    assert forall|a: int| -0x8000_0000 <= a <= 0x7fff_ffff implies fx_mul(a, 0) == 0 by {
        assert(a * 0 == 0) by (nonlinear_arith);
    }
    assert forall|a: int| -0x8000_0000 <= a <= 0x7fff_ffff implies fx_add(0, a) == a && fx_add(
        a,
        0,
    ) == a by {
        lemma_fx_wrap_id(a);
    }
}

} // verus!
