use vstd::prelude::*;

verus! {

/// Thousandths per world unit: the fixed-point scale of every length,
/// coordinate, colour channel and blend factor in this crate.
pub const UNIT: u64 = 1000;

/// A point or displacement in thousandths of a world unit.
#[derive(Clone, Copy, Debug, PartialEq, Eq, Structural)]
pub struct Vec3 {
    pub x: i64,
    pub y: i64,
    pub z: i64,
}

/// A horizontal position or displacement in thousandths of a world unit.
#[derive(Clone, Copy, Debug, PartialEq, Eq, Structural)]
pub struct Vec2 {
    pub x: i64,
    pub y: i64,
}

/// A texture coordinate in thousandths of the texture's width and height.
#[derive(Clone, Copy, Debug, PartialEq, Eq, Structural)]
pub struct Uv {
    pub u: i64,
    pub v: i64,
}

/// Unsigned half-widths of a box along each axis, in thousandths of a world unit.
#[derive(Clone, Copy, Debug, PartialEq, Eq, Structural)]
pub struct HalfExtents {
    pub x: u64,
    pub y: u64,
    pub z: u64,
}

/// An axis-aligned bounding box given by its centre and half-widths.
///
/// The half-widths are unsigned, so every value of this type is a non-empty box.
#[derive(Clone, Copy, Debug, PartialEq, Eq, Structural)]
pub struct Aabb {
    pub center: Vec3,
    pub half_extents: HalfExtents,
}

/// A rotation as a quaternion whose components are thousandths; it is carried
/// through placement unchanged.
#[derive(Clone, Copy, Debug, PartialEq, Eq, Structural)]
pub struct Quat {
    pub x: i64,
    pub y: i64,
    pub z: i64,
    pub w: i64,
}

/// Placement of one object: where it stands, how it is turned and how large it is.
#[derive(Clone, Copy, Debug, PartialEq, Eq, Structural)]
pub struct Transform {
    pub translation: Vec3,
    pub rotation: Quat,
    pub scale: Vec3,
}

/// An opaque reference to an asset (a mesh, a texture) that the host resolves.
#[derive(Clone, Copy, Debug, PartialEq, Eq, Structural)]
pub struct Handle {
    pub id: u64,
}

/// How far `p` lies outside the interval `[lo, hi]`; zero inside it.
pub open spec fn axis_gap(p: int, lo: int, hi: int) -> int {
    if p < lo {
        lo - p
    } else if p > hi {
        p - hi
    } else {
        0
    }
}

/// The point of `[lo, hi]` nearest to `p`.
pub open spec fn axis_clamp(p: int, lo: int, hi: int) -> int {
    if p < lo {
        lo
    } else if p > hi {
        hi
    } else {
        p
    }
}

impl Vec3 {
    pub fn new(x: i64, y: i64, z: i64) -> (v: Vec3)
        ensures
            v == (Vec3 { x, y, z }),
    {
        Vec3 { x, y, z }
    }

    pub fn zero() -> (v: Vec3)
        ensures
            v == (Vec3 { x: 0, y: 0, z: 0 }),
    {
        Vec3 { x: 0, y: 0, z: 0 }
    }
}

impl Transform {
    /// No displacement, no rotation, unit scale.
    pub open spec fn identity_spec() -> Transform {
        Transform {
            translation: Vec3 { x: 0, y: 0, z: 0 },
            rotation: Quat { x: 0, y: 0, z: 0, w: 1000 },
            scale: Vec3 { x: 1000, y: 1000, z: 1000 },
        }
    }

    pub fn identity() -> (t: Transform)
        ensures
            t == Transform::identity_spec(),
    {
        Transform {
            translation: Vec3 { x: 0, y: 0, z: 0 },
            rotation: Quat { x: 0, y: 0, z: 0, w: 1000 },
            scale: Vec3 { x: 1000, y: 1000, z: 1000 },
        }
    }
}

impl Aabb {
    pub open spec fn min_x(&self) -> int {
        self.center.x - self.half_extents.x
    }

    pub open spec fn max_x(&self) -> int {
        self.center.x + self.half_extents.x
    }

    pub open spec fn min_y(&self) -> int {
        self.center.y - self.half_extents.y
    }

    pub open spec fn max_y(&self) -> int {
        self.center.y + self.half_extents.y
    }

    pub open spec fn min_z(&self) -> int {
        self.center.z - self.half_extents.z
    }

    pub open spec fn max_z(&self) -> int {
        self.center.z + self.half_extents.z
    }

    /// Whether the point `(x, y, z)`, given in the box's own frame, lies in the box.
    pub open spec fn contains(&self, x: int, y: int, z: int) -> bool {
        &&& self.min_x() <= x <= self.max_x()
        &&& self.min_y() <= y <= self.max_y()
        &&& self.min_z() <= z <= self.max_z()
    }

    /// The point of the box nearest to `(x, y, z)`.
    pub open spec fn nearest_point(&self, x: int, y: int, z: int) -> (int, int, int) {
        (
            axis_clamp(x, self.min_x(), self.max_x()),
            axis_clamp(y, self.min_y(), self.max_y()),
            axis_clamp(z, self.min_z(), self.max_z()),
        )
    }

    /// Squared distance from `(x, y, z)` to the nearest point of the box.
    pub open spec fn distance_squared(&self, x: int, y: int, z: int) -> int {
        let gx = axis_gap(x, self.min_x(), self.max_x());
        let gy = axis_gap(y, self.min_y(), self.max_y());
        let gz = axis_gap(z, self.min_z(), self.max_z());
        gx * gx + gy * gy + gz * gz
    }

    /// Squared distance from `(x, y, z)` to the centre of the box.
    pub open spec fn center_distance_squared(&self, x: int, y: int, z: int) -> int {
        let dx = x - self.center.x;
        let dy = y - self.center.y;
        let dz = z - self.center.z;
        dx * dx + dy * dy + dz * dz
    }

    pub fn new(center: Vec3, half_extents: HalfExtents) -> (b: Aabb)
        ensures
            b == (Aabb { center, half_extents }),
    {
        Aabb { center, half_extents }
    }
}

/// The gap is exactly the distance to the clamped coordinate.
pub proof fn lemma_gap_is_distance_to_clamp(p: int, lo: int, hi: int)
    requires
        lo <= hi,
    ensures
        axis_gap(p, lo, hi) >= 0,
        axis_gap(p, lo, hi) == if p >= axis_clamp(p, lo, hi) {
            p - axis_clamp(p, lo, hi)
        } else {
            axis_clamp(p, lo, hi) - p
        },
        lo <= axis_clamp(p, lo, hi) <= hi,
{
}

/// The distance of a point to the box is its distance to the nearest point
/// of the box, and that point belongs to the box.
pub proof fn lemma_distance_is_to_nearest_point(aabb: Aabb, x: int, y: int, z: int)
    ensures
        ({
            let (nx, ny, nz) = aabb.nearest_point(x, y, z);
            &&& aabb.contains(nx, ny, nz)
            &&& aabb.distance_squared(x, y, z) == (x - nx) * (x - nx) + (y - ny) * (y - ny) + (z - nz) * (z - nz)
        }),
{
    let (nx, ny, nz) = aabb.nearest_point(x, y, z);
    lemma_gap_is_distance_to_clamp(x, aabb.min_x(), aabb.max_x());
    lemma_gap_is_distance_to_clamp(y, aabb.min_y(), aabb.max_y());
    lemma_gap_is_distance_to_clamp(z, aabb.min_z(), aabb.max_z());
    let gx = axis_gap(x, aabb.min_x(), aabb.max_x());
    let gy = axis_gap(y, aabb.min_y(), aabb.max_y());
    let gz = axis_gap(z, aabb.min_z(), aabb.max_z());
    assert(gx * gx == (x - nx) * (x - nx)) by (nonlinear_arith)
        requires
            gx == x - nx || gx == -(x - nx),
    ;
    assert(gy * gy == (y - ny) * (y - ny)) by (nonlinear_arith)
        requires
            gy == y - ny || gy == -(y - ny),
    ;
    assert(gz * gz == (z - nz) * (z - nz)) by (nonlinear_arith)
        requires
            gz == z - nz || gz == -(z - nz),
    ;
}

} // verus!
