//! Tests for the rasterizer and the full transform pipeline.

use gba3d::drawing::{line_points, Bitmap, Draw};
use gba3d::fixed::Fixed;
use gba3d::geometry::{Scene, Vector2D, Vector3D};
use gba3d::{
    apply_input, is_visible, render_frame, rotation_matrix, to_triangle2D, transform_vertex,
};

fn fx(v: i32) -> Fixed {
    Fixed::from_int(v)
}

fn v2(x: i32, y: i32) -> Vector2D {
    Vector2D { x: fx(x), y: fx(y) }
}

fn v3(x: i32, y: i32, z: i32) -> Vector3D {
    Vector3D { x: fx(x), y: fx(y), z: fx(z) }
}

fn count_line(a: (i32, i32), b: (i32, i32)) -> usize {
    line_points(a, b).len()
}

#[test]
fn line_visits_chebyshev_plus_one_pixels() {
    assert_eq!(count_line((0, 0), (5, 3)), 6);
    assert_eq!(count_line((0, 0), (0, 7)), 8);
    assert_eq!(count_line((2, 2), (2, 2)), 1);
    assert_eq!(count_line((0, 0), (-4, 9)), 10);
}

#[test]
fn line_count_is_direction_symmetric() {
    let cases = [
        ((0, 0), (5, 3)),
        ((10, 20), (-7, 4)),
        ((3, 3), (3, 3)),
        ((-100, 50), (200, -80)),
        ((0, 0), (1, 0)),
    ];
    for (a, b) in cases {
        assert_eq!(count_line(a, b), count_line(b, a));
    }
}

#[test]
fn line_includes_both_endpoints() {
    let pts = line_points((4, 7), (-3, 2));
    assert_eq!(pts[0], (4, 7));
    assert_eq!(pts[pts.len() - 1], (-3, 2));
}

#[test]
fn draw_line_paints_endpoints() {
    let mut bmp = Bitmap::new();
    bmp.draw_line(v2(10, 10), v2(20, 15), 7);
    assert_eq!(bmp.pixel_at(10, 10), 7);
    assert_eq!(bmp.pixel_at(20, 15), 7);
}

#[test]
fn draw_trait_matches_inherent_behavior() {
    let mut bmp = Bitmap::new();
    Draw::draw_line(&mut bmp, v2(5, 5), v2(5, 40), 9);
    assert_eq!(bmp.pixel_at(5, 5), 9);
    assert_eq!(bmp.pixel_at(5, 40), 9);
    Draw::draw_tri(&mut bmp, &[v2(50, 50), v2(70, 50), v2(60, 70)], 8);
    let mut found = false;
    for col in 0..240 {
        if bmp.pixel_at(col, 60) == 8 {
            found = true;
        }
    }
    assert!(found);
}

#[test]
fn draw_line_paints_every_walk_point() {
    let mut bmp = Bitmap::new();
    let pts = line_points((10, 10), (20, 15));
    bmp.draw_line(v2(10, 10), v2(20, 15), 7);
    for p in pts {
        assert_eq!(bmp.pixel_at(p.0 as usize, p.1 as usize), 7);
    }
}

#[test]
fn triangle_fill_rows_are_contiguous_spans() {
    let mut bmp = Bitmap::new();
    bmp.draw_tri(&[v2(10, 10), v2(30, 10), v2(20, 30)], 6);
    for row in 10..=30 {
        let mut lo = usize::MAX;
        let mut hi = 0usize;
        for col in 0..240 {
            if bmp.pixel_at(col, row) == 6 {
                if col < lo {
                    lo = col;
                }
                hi = col;
            }
        }
        assert!(lo <= hi, "row {row} empty");
        for col in lo..=hi {
            assert_eq!(bmp.pixel_at(col, row), 6, "gap at ({col},{row})");
        }
    }
    // rows the triangle does not cover stay untouched
    for row in (0..10).chain(31..160) {
        for col in 0..240 {
            assert_eq!(bmp.pixel_at(col, row), 0);
        }
    }
}

#[test]
fn draw_point_clamps_out_of_range() {
    let mut bmp = Bitmap::new();
    bmp.draw_point(-5, 20, 9);
    bmp.draw_point(500, 20, 9);
    bmp.draw_point(20, -3, 9);
    bmp.draw_point(20, 700, 9);
    for y in 0..160 {
        for x in 0..240 {
            assert_eq!(bmp.pixel_at(x, y), 0);
        }
    }
}

#[test]
fn clear_fills_every_pixel() {
    let mut bmp = Bitmap::new();
    bmp.clear(3);
    for y in 0..160 {
        for x in 0..240 {
            assert_eq!(bmp.pixel_at(x, y), 3);
        }
    }
}

#[test]
fn wide_point_paints_adjacent_pair() {
    let mut bmp = Bitmap::new();
    bmp.draw_wide_point(100, 50, 5);
    assert_eq!(bmp.pixel_at(100, 50), 5);
    assert_eq!(bmp.pixel_at(101, 50), 5);
    assert_eq!(bmp.pixel_at(102, 50), 0);
}

#[test]
fn triangle_fill_covers_every_scanline() {
    let mut bmp = Bitmap::new();
    let tri = [v2(10, 10), v2(30, 10), v2(20, 30)];
    bmp.draw_tri(&tri, 6);
    for row in 10..=30 {
        let mut found = false;
        for col in 0..240 {
            if bmp.pixel_at(col, row) == 6 {
                found = true;
            }
        }
        assert!(found, "row {} has no filled pixel", row);
    }
    // writes never use another color
    for y in 0..160 {
        for x in 0..240 {
            let c = bmp.pixel_at(x, y);
            assert!(c == 0 || c == 6);
        }
    }
}

#[test]
fn degenerate_triangles_are_safe() {
    let mut bmp = Bitmap::new();
    // repeated vertex
    let p = Vector2D { x: Fixed::from_raw(50 * 4096 + 2048), y: Fixed::from_raw(60 * 4096 + 1024) };
    bmp.draw_tri(&[p, p, p], 2);
    // collinear vertices
    bmp.draw_tri(&[v2(0, 0), v2(10, 10), v2(20, 20)], 3);
    // fully and partially off-screen
    bmp.draw_tri(&[v2(-100, -100), v2(300, -50), v2(500, 400)], 4);
    bmp.draw_tri(&[v2(-40, 80), v2(40, 200), v2(120, -20)], 5);
}

#[test]
fn identity_rotation_maps_vertices_to_themselves() {
    let rm = rotation_matrix(&v3(0, 0, 0));
    for v in [v3(24, -24, 24), v3(-24, 24, -24), v3(1, 2, 3), v3(0, 0, 0)] {
        let out = transform_vertex(&rm, v);
        assert_eq!(out.x.raw, v.x.raw);
        assert_eq!(out.y.raw, v.y.raw);
        assert_eq!(out.z.raw, v.z.raw);
    }
}

#[test]
fn projection_regression_at_zero_rotation() {
    // local-space (24, -24, 24) lands on screen pixel (144, 56)
    let rm = rotation_matrix(&v3(0, 0, 0));
    let tv = transform_vertex(&rm, v3(24, -24, 24));
    let flat = to_triangle2D(&[tv, tv, tv]);
    assert_eq!(flat[0].x.trunc(), 144);
    assert_eq!(flat[0].y.trunc(), 56);
    assert_eq!(flat[0].x.raw, 144 * 4096);
    assert_eq!(flat[0].y.raw, 56 * 4096);
}

fn visible_count(scene: &Scene) -> usize {
    let rm = rotation_matrix(&scene.mesh.rot);
    let mut n = 0;
    for poly in &scene.mesh.verticies {
        let t = [
            transform_vertex(&rm, poly.verticies[0]),
            transform_vertex(&rm, poly.verticies[1]),
            transform_vertex(&rm, poly.verticies[2]),
        ];
        if is_visible(&to_triangle2D(&t)) {
            n += 1;
        }
    }
    n
}

#[test]
fn cube_scene_shape() {
    let scene = Scene::new();
    assert_eq!(scene.mesh.verticies.len(), 12);
    assert_eq!(scene.mesh.rot.x.raw, 0);
    assert_eq!(scene.mesh.rot.y.raw, 0);
    assert_eq!(scene.mesh.rot.z.raw, 0);
    assert_eq!(scene.mesh.pos.z.raw, -32 * 4096);
    assert_eq!(scene.mesh.verticies[0].verticies[0].x.raw, 24 * 4096);
}

#[test]
fn visible_faces_at_zero_rotation() {
    let scene = Scene::new();
    assert_eq!(visible_count(&scene), 2);
}

#[test]
fn visible_count_never_exceeds_six() {
    let mut scene = Scene::new();
    for rx in 0..8 {
        for ry in 0..8 {
            for rz in 0..8 {
                scene.mesh.rot = Vector3D {
                    x: Fixed::from_raw(rx * 512 + 37),
                    y: Fixed::from_raw(ry * 512 + 113),
                    z: Fixed::from_raw(rz * 512 + 251),
                };
                let n = visible_count(&scene);
                assert!(n <= 6, "rotation ({rx},{ry},{rz}) shows {n} faces");
            }
        }
    }
}

#[test]
fn reversed_winding_flips_visibility() {
    let t = [v2(10, 10), v2(30, 10), v2(20, 30)];
    let u = [t[0], t[2], t[1]];
    let vt = is_visible(&t);
    let vu = is_visible(&u);
    // never both: reversing the winding negates the signed area
    assert!(!(vt && vu));
    // and for a non-degenerate triangle exactly one winding faces the viewer
    assert!(vt != vu);
}

#[test]
fn input_nudges_rotation_by_one_step() {
    let mut scene = Scene::new();
    apply_input(&mut scene, true, false, false, false, false, false);
    assert_eq!(scene.mesh.rot.x.raw, 40);
    apply_input(&mut scene, false, true, false, false, false, false);
    assert_eq!(scene.mesh.rot.x.raw, 0);
    apply_input(&mut scene, false, false, true, true, false, false);
    assert_eq!(scene.mesh.rot.z.raw, 0);
    apply_input(&mut scene, false, false, false, false, true, false);
    assert_eq!(scene.mesh.rot.y.raw, 40);
    apply_input(&mut scene, false, false, false, false, false, true);
    assert_eq!(scene.mesh.rot.y.raw, 0);
}

#[test]
fn render_frame_uses_only_scene_colors() {
    let scene = Scene::new();
    let mut bmp = Bitmap::new();
    render_frame(&scene, &mut bmp);
    let mut seen28 = 0usize;
    let mut seen100 = 0usize;
    for y in 0..160 {
        for x in 0..240 {
            let c = bmp.pixel_at(x, y);
            assert!(c == 0 || c == 28 || c == 100, "unexpected color {c} at ({x},{y})");
            if c == 28 {
                seen28 += 1;
            }
            if c == 100 {
                seen100 += 1;
            }
        }
    }
    // both back-facing-by-winding halves of the rear face are drawn
    assert!(seen28 > 0);
    assert!(seen100 > 0);
}
