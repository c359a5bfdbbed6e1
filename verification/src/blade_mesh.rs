use vstd::prelude::*;
use crate::geometry::{Uv, Vec3};

verus! {

/// One corner of the blade mesh.
#[derive(Clone, Copy, Debug, PartialEq, Eq, Structural)]
pub struct BladeVertex {
    pub position: Vec3,
    pub normal: Vec3,
    pub uv: Uv,
}

/// The mesh of a single blade of grass. One such mesh serves every blade of
/// every chunk: the blades differ only in what is computed from their index.
#[derive(Debug)]
pub struct BladeMesh {
    pub vertices: Vec<BladeVertex>,
    pub indices: Vec<u32>,
}

/// The corner at horizontal offset `x` and height `y`: it faces upward, and
/// its texture coordinate runs from 0 to 1000 across the widest part of the
/// blade and from 0 at the base to 1000 at the tip.
pub open spec fn blade_vertex(x: int, y: int) -> BladeVertex {
    BladeVertex {
        position: Vec3 { x: x as i64, y: y as i64, z: 0 },
        normal: Vec3 { x: 0, y: 1000, z: 0 },
        uv: Uv { u: (500 + 10 * x) as i64, v: y as i64 },
    }
}

/// The five corners: the tip, the two at half height, the two at the base.
pub open spec fn blade_vertices() -> Seq<BladeVertex> {
    seq![
        blade_vertex(0, 1000),
        blade_vertex(50, 500),
        blade_vertex(-50, 500),
        blade_vertex(50, 0),
        blade_vertex(-50, 0),
    ]
}

/// The three triangles: the tip, and the two halves of the lower segment.
pub open spec fn blade_indices() -> Seq<u32> {
    seq![0u32, 1u32, 2u32, 1u32, 3u32, 2u32, 2u32, 3u32, 4u32]
}

/// Twice the signed area of the triangle `(a, b, c)` in the plane of the blade.
pub open spec fn doubled_area(a: Vec3, b: Vec3, c: Vec3) -> int {
    (b.x - a.x) * (c.y - a.y) - (c.x - a.x) * (b.y - a.y)
}

fn corner(x: i64, y: i64) -> (vertex: BladeVertex)
    requires
        -50 <= x <= 50,
        0 <= y <= 1000,
    ensures
        vertex == blade_vertex(x as int, y as int),
{
    BladeVertex {
        position: Vec3 { x, y, z: 0 },
        normal: Vec3 { x: 0, y: 1000, z: 0 },
        uv: Uv { u: 500 + 10 * x, v: y },
    }
}

/// Builds the blade mesh.
pub fn get_grass_straw_mesh() -> (mesh: BladeMesh)
    ensures
        mesh.vertices@ == blade_vertices(),
        mesh.indices@ == blade_indices(),
{
    let mut vertices: Vec<BladeVertex> = Vec::new();
    vertices.push(corner(0, 1000));
    vertices.push(corner(50, 500));
    vertices.push(corner(-50, 500));
    vertices.push(corner(50, 0));
    vertices.push(corner(-50, 0));
    let mut indices: Vec<u32> = Vec::new();
    indices.push(0);
    indices.push(1);
    indices.push(2);
    indices.push(1);
    indices.push(3);
    indices.push(2);
    indices.push(2);
    indices.push(3);
    indices.push(4);
    assert(vertices@ =~= blade_vertices());
    assert(indices@ =~= blade_indices());
    BladeMesh { vertices, indices }
}

/// The blade has five corners and three triangles; every index names a
/// corner; every normal points up; `v` equals the height, so it is 0 at the
/// base and 1000 at the tip; and the blade is flat, at most 100 wide, and
/// narrows to a point at the tip.
pub proof fn lemma_blade_mesh_shape()
    ensures
        blade_vertices().len() == 5,
        blade_indices().len() == 3 * 3,
        forall|i: int| 0 <= i < 9 ==> #[trigger] blade_indices()[i] < 5,
        forall|i: int| 0 <= i < 5 ==> (#[trigger] blade_vertices()[i]).normal == (Vec3 { x: 0, y: 1000, z: 0 }),
        forall|i: int| 0 <= i < 5 ==> (#[trigger] blade_vertices()[i]).uv.v == blade_vertices()[i].position.y,
        forall|i: int| 0 <= i < 5 ==> 0 <= (#[trigger] blade_vertices()[i]).uv.u <= 1000,
        forall|i: int| 0 <= i < 5 ==> 0 <= (#[trigger] blade_vertices()[i]).position.y <= 1000,
        forall|i: int|
            0 <= i < 5 ==> {
                let p = (#[trigger] blade_vertices()[i]).position;
                -50 <= p.x <= 50 && p.z == 0 && 10 * p.x <= 1000 - p.y && -10 * p.x <= 1000 - p.y
            },
        blade_vertices()[0].position == (Vec3 { x: 0, y: 1000, z: 0 }),
{
}

/// The three triangles have the same signed area, which is not zero: none
/// is degenerate and all are wound the same way.
pub proof fn lemma_blade_triangles_proper(t: int)
    requires
        0 <= t < 3,
    ensures
        doubled_area(
            blade_vertices()[blade_indices()[3 * t] as int].position,
            blade_vertices()[blade_indices()[3 * t + 1] as int].position,
            blade_vertices()[blade_indices()[3 * t + 2] as int].position,
        ) == -50_000,
{
    let a = blade_vertices()[blade_indices()[3 * t] as int].position;
    let b = blade_vertices()[blade_indices()[3 * t + 1] as int].position;
    let c = blade_vertices()[blade_indices()[3 * t + 2] as int].position;
    if t == 0 {
        assert(a.x == 0 && a.y == 1000 && b.x == 50 && b.y == 500 && c.x == -50 && c.y == 500);
    } else if t == 1 {
        assert(a.x == 50 && a.y == 500 && b.x == 50 && b.y == 0 && c.x == -50 && c.y == 500);
    } else {
        assert(a.x == -50 && a.y == 500 && b.x == 50 && b.y == 0 && c.x == -50 && c.y == 0);
    }
}

} // verus!
