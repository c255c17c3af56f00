//! Scene data model: vectors, triangles, colored polygons, the mesh with its
//! per-frame rotation state, and the scene that owns mesh and camera.

use vstd::prelude::*;
use crate::fixed::Fixed;

verus! {

/// A 2D point with fixed-point coordinates.
#[derive(Clone, Copy, Debug, PartialEq, Eq, Structural)]
pub struct Vector2D {
    pub x: Fixed,
    pub y: Fixed,
}

/// A 3D point with fixed-point coordinates.
#[derive(Clone, Copy, Debug, PartialEq, Eq, Structural)]
pub struct Vector3D {
    pub x: Fixed,
    pub y: Fixed,
    pub z: Fixed,
}

/// Three projected vertices; the order defines the winding used by the
/// visibility test.
pub type Triangle2D = [Vector2D; 3];

/// Three mesh-local vertices; the order defines the winding.
pub type Triangle3D = [Vector3D; 3];

/// One triangle of the mesh together with its palette color index.
#[derive(Clone, Copy, Debug)]
pub struct Polygon {
    pub color: u8,
    pub verticies: Triangle3D,
}

/// An ordered list of polygons, a static position offset, and the rotation
/// angles that input mutates every frame.
pub struct Mesh {
    pub verticies: Vec<Polygon>,
    pub pos: Vector3D,
    pub rot: Vector3D,
}

/// Camera placeholder: present in the data model, never consulted by the
/// transform pipeline.
pub struct Camera {
    pub pos: Vector3D,
    pub rot: Vector3D,
}

/// The one long-lived object: a camera and a mesh.
pub struct Scene {
    pub camera: Camera,
    pub mesh: Mesh,
}

/// The zero vector.
pub fn vec3_zero() -> (v: Vector3D)
    ensures
        v.x.raw == 0 && v.y.raw == 0 && v.z.raw == 0,
{
    Vector3D { x: Fixed::zero(), y: Fixed::zero(), z: Fixed::zero() }
}

/// The corner of the canonical cube selected by the three sign flags: each
/// coordinate is +24.0 or -24.0 in fixed-point form.
pub open spec fn cube_corner(x_pos: bool, y_pos: bool, z_pos: bool) -> Vector3D {
    Vector3D {
        x: Fixed { raw: if x_pos { 98304i32 } else { -98304i32 } },
        y: Fixed { raw: if y_pos { 98304i32 } else { -98304i32 } },
        z: Fixed { raw: if z_pos { 98304i32 } else { -98304i32 } },
    }
}

/// Palette color of polygon `i` of the canonical cube: six distinct colors,
/// one per face, each face split into two triangles.
pub open spec fn cube_color(i: int) -> u8 {
    if i == 0 || i == 1 {
        1u8
    } else if i == 2 || i == 3 {
        4u8
    } else if i == 4 || i == 5 {
        28u8
    } else if i == 6 || i == 7 {
        125u8
    } else if i == 8 || i == 9 {
        128u8
    } else {
        100u8
    }
}

/// The three corners of polygon `i` of the canonical cube, in authored
/// order; the order fixes each triangle's winding for the visibility test.
pub open spec fn cube_tri(i: int) -> (Vector3D, Vector3D, Vector3D) {
    if i == 0 {
        (cube_corner(true, false, true), cube_corner(false, false, true), cube_corner(false, false, false))
    } else if i == 1 {
        (cube_corner(false, true, false), cube_corner(false, true, true), cube_corner(true, true, true))
    } else if i == 2 {
        (cube_corner(true, true, false), cube_corner(true, true, true), cube_corner(true, false, true))
    } else if i == 3 {
        (cube_corner(true, true, true), cube_corner(false, true, true), cube_corner(false, false, true))
    } else if i == 4 {
        (cube_corner(false, false, true), cube_corner(false, true, true), cube_corner(false, true, false))
    } else if i == 5 {
        (cube_corner(true, false, false), cube_corner(false, false, false), cube_corner(false, true, false))
    } else if i == 6 {
        (cube_corner(true, false, false), cube_corner(true, false, true), cube_corner(false, false, false))
    } else if i == 7 {
        (cube_corner(true, true, false), cube_corner(false, true, false), cube_corner(true, true, true))
    } else if i == 8 {
        (cube_corner(true, false, false), cube_corner(true, true, false), cube_corner(true, false, true))
    } else if i == 9 {
        (cube_corner(true, false, true), cube_corner(true, true, true), cube_corner(false, false, true))
    } else if i == 10 {
        (cube_corner(false, false, false), cube_corner(false, false, true), cube_corner(false, true, false))
    } else {
        (cube_corner(true, true, false), cube_corner(true, false, false), cube_corner(false, true, false))
    }
}

/// A vertex of the canonical cube: each coordinate is +24 or -24.
fn cube_vertex(x_pos: bool, y_pos: bool, z_pos: bool) -> (v: Vector3D)
    ensures
        v == cube_corner(x_pos, y_pos, z_pos),
        v.x.raw == if x_pos { 24 * 4096int } else { -24 * 4096int },
        v.y.raw == if y_pos { 24 * 4096int } else { -24 * 4096int },
        v.z.raw == if z_pos { 24 * 4096int } else { -24 * 4096int },
{
    let p = Fixed::from_raw(24 * 4096);
    let n = Fixed::from_raw(-24 * 4096);
    Vector3D {
        x: if x_pos { p } else { n },
        y: if y_pos { p } else { n },
        z: if z_pos { p } else { n },
    }
}

impl Scene {
    /// Builds the initial scene: a zeroed camera and the canonical cube mesh
    /// of 12 colored triangles with side 48, centered on the origin, starting
    /// with all rotation angles at zero.
    pub fn new() -> (s: Scene)
        ensures
            s.mesh.verticies@.len() == 12,
            s.mesh.rot.x.raw == 0 && s.mesh.rot.y.raw == 0 && s.mesh.rot.z.raw == 0,
            s.mesh.pos.x.raw == 0 && s.mesh.pos.y.raw == 0,
            s.mesh.pos.z.raw == -32 * 4096,
            s.camera.pos.x.raw == 0 && s.camera.pos.y.raw == 0 && s.camera.pos.z.raw == 0,
            s.camera.rot.x.raw == 0 && s.camera.rot.y.raw == 0 && s.camera.rot.z.raw == 0,
            forall|i: int|
                0 <= i < 12 ==> {
                    let p = #[trigger] s.mesh.verticies@[i];
                    p.color == cube_color(i) && p.verticies[0] == cube_tri(i).0 && p.verticies[1]
                        == cube_tri(i).1 && p.verticies[2] == cube_tri(i).2
                },
            forall|i: int, j: int|
                0 <= i < 12 && 0 <= j < 3 ==> {
                    let v = #[trigger] s.mesh.verticies@[i].verticies[j];
                    (v.x.raw == 24 * 4096 || v.x.raw == -24 * 4096) && (v.y.raw == 24 * 4096
                        || v.y.raw == -24 * 4096) && (v.z.raw == 24 * 4096 || v.z.raw == -24
                        * 4096)
                },
    {
        let mut polys: Vec<Polygon> = Vec::new();
        // bottom (y = -24)
        polys.push(Polygon {
            color: 1,
            verticies: [
                cube_vertex(true, false, true),
                cube_vertex(false, false, true),
                cube_vertex(false, false, false),
            ],
        });
        // top (y = 24)
        polys.push(Polygon {
            color: 1,
            verticies: [
                cube_vertex(false, true, false),
                cube_vertex(false, true, true),
                cube_vertex(true, true, true),
            ],
        });
        // far right edge pair
        polys.push(Polygon {
            color: 4,
            verticies: [
                cube_vertex(true, true, false),
                cube_vertex(true, true, true),
                cube_vertex(true, false, true),
            ],
        });
        // front (z = 24)
        polys.push(Polygon {
            color: 4,
            verticies: [
                cube_vertex(true, true, true),
                cube_vertex(false, true, true),
                cube_vertex(false, false, true),
            ],
        });
        // left (x = -24)
        polys.push(Polygon {
            color: 28,
            verticies: [
                cube_vertex(false, false, true),
                cube_vertex(false, true, true),
                cube_vertex(false, true, false),
            ],
        });
        // back (z = -24)
        polys.push(Polygon {
            color: 28,
            verticies: [
                cube_vertex(true, false, false),
                cube_vertex(false, false, false),
                cube_vertex(false, true, false),
            ],
        });
        // bottom second half
        polys.push(Polygon {
            color: 125,
            verticies: [
                cube_vertex(true, false, false),
                cube_vertex(true, false, true),
                cube_vertex(false, false, false),
            ],
        });
        // top second half
        polys.push(Polygon {
            color: 125,
            verticies: [
                cube_vertex(true, true, false),
                cube_vertex(false, true, false),
                cube_vertex(true, true, true),
            ],
        });
        // right (x = 24)
        polys.push(Polygon {
            color: 128,
            verticies: [
                cube_vertex(true, false, false),
                cube_vertex(true, true, false),
                cube_vertex(true, false, true),
            ],
        });
        // front second half
        polys.push(Polygon {
            color: 128,
            verticies: [
                cube_vertex(true, false, true),
                cube_vertex(true, true, true),
                cube_vertex(false, false, true),
            ],
        });
        // left second half
        polys.push(Polygon {
            color: 100,
            verticies: [
                cube_vertex(false, false, false),
                cube_vertex(false, false, true),
                cube_vertex(false, true, false),
            ],
        });
        // back second half
        polys.push(Polygon {
            color: 100,
            verticies: [
                cube_vertex(true, true, false),
                cube_vertex(true, false, false),
                cube_vertex(false, true, false),
            ],
        });
        proof {
            assert forall|i: int| 0 <= i < 12 implies {
                let p = #[trigger] polys@[i];
                p.color == cube_color(i) && p.verticies[0] == cube_tri(i).0 && p.verticies[1]
                    == cube_tri(i).1 && p.verticies[2] == cube_tri(i).2
            } by {
                if i == 0 {
                    assert(polys@[0].color == cube_color(0) && polys@[0].verticies[0]
                        == cube_tri(0).0 && polys@[0].verticies[1] == cube_tri(0).1
                        && polys@[0].verticies[2] == cube_tri(0).2);
                } else if i == 1 {
                    assert(polys@[1].color == cube_color(1) && polys@[1].verticies[0]
                        == cube_tri(1).0 && polys@[1].verticies[1] == cube_tri(1).1
                        && polys@[1].verticies[2] == cube_tri(1).2);
                } else if i == 2 {
                    assert(polys@[2].color == cube_color(2) && polys@[2].verticies[0]
                        == cube_tri(2).0 && polys@[2].verticies[1] == cube_tri(2).1
                        && polys@[2].verticies[2] == cube_tri(2).2);
                } else if i == 3 {
                    assert(polys@[3].color == cube_color(3) && polys@[3].verticies[0]
                        == cube_tri(3).0 && polys@[3].verticies[1] == cube_tri(3).1
                        && polys@[3].verticies[2] == cube_tri(3).2);
                } else if i == 4 {
                    assert(polys@[4].color == cube_color(4) && polys@[4].verticies[0]
                        == cube_tri(4).0 && polys@[4].verticies[1] == cube_tri(4).1
                        && polys@[4].verticies[2] == cube_tri(4).2);
                } else if i == 5 {
                    assert(polys@[5].color == cube_color(5) && polys@[5].verticies[0]
                        == cube_tri(5).0 && polys@[5].verticies[1] == cube_tri(5).1
                        && polys@[5].verticies[2] == cube_tri(5).2);
                } else if i == 6 {
                    assert(polys@[6].color == cube_color(6) && polys@[6].verticies[0]
                        == cube_tri(6).0 && polys@[6].verticies[1] == cube_tri(6).1
                        && polys@[6].verticies[2] == cube_tri(6).2);
                } else if i == 7 {
                    assert(polys@[7].color == cube_color(7) && polys@[7].verticies[0]
                        == cube_tri(7).0 && polys@[7].verticies[1] == cube_tri(7).1
                        && polys@[7].verticies[2] == cube_tri(7).2);
                } else if i == 8 {
                    assert(polys@[8].color == cube_color(8) && polys@[8].verticies[0]
                        == cube_tri(8).0 && polys@[8].verticies[1] == cube_tri(8).1
                        && polys@[8].verticies[2] == cube_tri(8).2);
                } else if i == 9 {
                    assert(polys@[9].color == cube_color(9) && polys@[9].verticies[0]
                        == cube_tri(9).0 && polys@[9].verticies[1] == cube_tri(9).1
                        && polys@[9].verticies[2] == cube_tri(9).2);
                } else if i == 10 {
                    assert(polys@[10].color == cube_color(10) && polys@[10].verticies[0]
                        == cube_tri(10).0 && polys@[10].verticies[1] == cube_tri(10).1
                        && polys@[10].verticies[2] == cube_tri(10).2);
                } else {
                    assert(polys@[11].color == cube_color(11) && polys@[11].verticies[0]
                        == cube_tri(11).0 && polys@[11].verticies[1] == cube_tri(11).1
                        && polys@[11].verticies[2] == cube_tri(11).2);
                }
            }
        }
        Scene {
            camera: Camera { pos: vec3_zero(), rot: vec3_zero() },
            mesh: Mesh {
                verticies: polys,
                pos: Vector3D {
                    x: Fixed::zero(),
                    y: Fixed::zero(),
                    z: Fixed::from_raw(-32 * 4096),
                },
                rot: vec3_zero(),
            },
        }
    }
}

} // verus!
