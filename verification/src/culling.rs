use vstd::prelude::*;
use crate::geometry::{axis_gap, Aabb, Vec3};

verus! {

/// Visibility policy of a drawable layer: the largest distance, in thousandths
/// of a world unit, at which the layer is still drawn.
#[derive(Clone, Copy, Debug, PartialEq, Eq, Structural)]
pub struct DistanceCulling {
    pub distance: u64,
}

/// The distance used when none is configured: one thousand world units.
pub const DEFAULT_CULLING_DISTANCE: u64 = 1_000_000;

impl Default for DistanceCulling {
    fn default() -> (d: DistanceCulling)
        ensures
            d.distance == DEFAULT_CULLING_DISTANCE,
    {
        DistanceCulling { distance: DEFAULT_CULLING_DISTANCE }
    }
}

impl DistanceCulling {
    /// Whether something at the given squared distance is within the limit.
    pub open spec fn admits(&self, distance_squared: int) -> bool {
        distance_squared <= self.distance * self.distance
    }
}

/// Squared distance from `camera` to the nearest point of `aabb`, where the
/// box is given in the frame of an entity placed at `origin` and the camera in
/// world coordinates.
pub open spec fn distance_squared_to(camera: Vec3, origin: Vec3, aabb: Aabb) -> int {
    aabb.distance_squared(camera.x - origin.x, camera.y - origin.y, camera.z - origin.z)
}

/// The visibility predicate: the nearest point of the box is no farther from
/// the camera than the culling distance.
pub open spec fn visible(camera: Vec3, origin: Vec3, aabb: Aabb, culling: DistanceCulling) -> bool {
    culling.admits(distance_squared_to(camera, origin, aabb))
}

fn gap_along_axis(p: i64, origin: i64, center: i64, half: u64) -> (gap: u128)
    ensures
        gap == axis_gap(p - origin, center - half, center + half),
{
    let q: i128 = p as i128 - origin as i128;
    let lo: i128 = center as i128 - half as i128;
    let hi: i128 = center as i128 + half as i128;
    if q < lo {
        (lo - q) as u128
    } else if q > hi {
        (q - hi) as u128
    } else {
        0
    }
}

proof fn lemma_square_order(a: int, b: int)
    requires
        0 <= a,
        0 <= b,
    ensures
        a <= b <==> a * a <= b * b,
        0 <= a * a,
{
    assert(a <= b ==> a * a <= b * b) by (nonlinear_arith)
        requires
            0 <= a,
            0 <= b,
    ;
    assert(a > b ==> a * a > b * b) by (nonlinear_arith)
        requires
            0 <= a,
            0 <= b,
    ;
    assert(0 <= a * a) by (nonlinear_arith);
}

/// Decides whether a layer placed at `origin`, with bounding box `aabb` in its
/// own frame, is drawn for a camera at `camera`.
pub fn is_visible_from(camera: &Vec3, origin: &Vec3, aabb: &Aabb, culling: &DistanceCulling) -> (shown: bool)
    ensures
        shown == visible(*camera, *origin, *aabb, *culling),
{
    let limit: u128 = culling.distance as u128;
    let gx = gap_along_axis(camera.x, origin.x, aabb.center.x, aabb.half_extents.x);
    let gy = gap_along_axis(camera.y, origin.y, aabb.center.y, aabb.half_extents.y);
    let gz = gap_along_axis(camera.z, origin.z, aabb.center.z, aabb.half_extents.z);
    proof {
        lemma_square_order(gx as int, limit as int);
        lemma_square_order(gy as int, limit as int);
        lemma_square_order(gz as int, limit as int);
        lemma_square_order(limit as int, 0xffff_ffff_ffff_ffff);
        assert(0xffff_ffff_ffff_ffffint * 0xffff_ffff_ffff_ffffint <= u128::MAX) by (nonlinear_arith);
    }
    if gx > limit || gy > limit || gz > limit {
        return false;
    }
    let budget: u128 = limit * limit - gx * gx;
    let gy2: u128 = gy * gy;
    if gy2 > budget {
        return false;
    }
    gz * gz <= budget - gy2
}

/// Decides whether a box given in world coordinates is drawn for a camera at
/// `camera`.
pub fn is_visible(camera: &Vec3, aabb: &Aabb, culling: &DistanceCulling) -> (shown: bool)
    ensures
        shown == visible(*camera, Vec3 { x: 0, y: 0, z: 0 }, *aabb, *culling),
        shown == culling.admits(aabb.distance_squared(camera.x as int, camera.y as int, camera.z as int)),
{
    let origin = Vec3 { x: 0, y: 0, z: 0 };
    is_visible_from(camera, &origin, aabb, culling)
}

/// Visibility depends on the camera only through its distance to the box, and
/// is monotonic in it: whatever is drawn from some distance is drawn from
/// every smaller one.
pub proof fn lemma_visible_when_closer(
    far: Vec3,
    near: Vec3,
    origin: Vec3,
    aabb: Aabb,
    culling: DistanceCulling,
)
    requires
        visible(far, origin, aabb, culling),
        distance_squared_to(near, origin, aabb) <= distance_squared_to(far, origin, aabb),
    ensures
        visible(near, origin, aabb, culling),
{
}

/// The limit itself is monotonic: for non-negative distances `d2 <= d1`, a
/// policy that admits `d1` admits `d2`.
pub proof fn lemma_admits_smaller_distance(culling: DistanceCulling, d1: int, d2: int)
    requires
        0 <= d2 <= d1,
        culling.admits(d1 * d1),
    ensures
        culling.admits(d2 * d2),
{
    lemma_square_order(d2, d1);
}

/// A larger culling distance never hides what a smaller one shows.
pub proof fn lemma_visible_with_larger_limit(
    camera: Vec3,
    origin: Vec3,
    aabb: Aabb,
    small: DistanceCulling,
    large: DistanceCulling,
)
    requires
        small.distance <= large.distance,
        visible(camera, origin, aabb, small),
    ensures
        visible(camera, origin, aabb, large),
{
    lemma_square_order(small.distance as int, large.distance as int);
}

/// A camera inside the box is at distance zero from it, and so sees the layer
/// under every culling distance, however far the centre of the box is.
pub proof fn lemma_inside_is_visible(camera: Vec3, origin: Vec3, aabb: Aabb, culling: DistanceCulling)
    requires
        aabb.contains(camera.x - origin.x, camera.y - origin.y, camera.z - origin.z),
    ensures
        distance_squared_to(camera, origin, aabb) == 0,
        visible(camera, origin, aabb, culling),
{
    lemma_square_order(0, culling.distance as int);
}

/// The distance is zero exactly for the points of the box.
pub proof fn lemma_distance_zero_iff_inside(aabb: Aabb, x: int, y: int, z: int)
    ensures
        aabb.distance_squared(x, y, z) == 0 <==> aabb.contains(x, y, z),
        aabb.distance_squared(x, y, z) >= 0,
{
    let gx = axis_gap(x, aabb.min_x(), aabb.max_x());
    let gy = axis_gap(y, aabb.min_y(), aabb.max_y());
    let gz = axis_gap(z, aabb.min_z(), aabb.max_z());
    lemma_square_order(gx, 0);
    lemma_square_order(gy, 0);
    lemma_square_order(gz, 0);
}

/// The nearest point of the box is never farther than its centre, so a layer
/// whose centre is within the culling distance is always drawn.
pub proof fn lemma_nearest_not_beyond_center(aabb: Aabb, x: int, y: int, z: int)
    ensures
        aabb.distance_squared(x, y, z) <= aabb.center_distance_squared(x, y, z),
{
    let gx = axis_gap(x, aabb.min_x(), aabb.max_x());
    let gy = axis_gap(y, aabb.min_y(), aabb.max_y());
    let gz = axis_gap(z, aabb.min_z(), aabb.max_z());
    let dx = if x >= aabb.center.x { x - aabb.center.x } else { aabb.center.x - x };
    let dy = if y >= aabb.center.y { y - aabb.center.y } else { aabb.center.y - y };
    let dz = if z >= aabb.center.z { z - aabb.center.z } else { aabb.center.z - z };
    lemma_square_order(gx, dx);
    lemma_square_order(gy, dy);
    lemma_square_order(gz, dz);
    assert(dx * dx == (x - aabb.center.x) * (x - aabb.center.x)) by (nonlinear_arith)
        requires
            dx == x - aabb.center.x || dx == -(x - aabb.center.x),
    ;
    assert(dy * dy == (y - aabb.center.y) * (y - aabb.center.y)) by (nonlinear_arith)
        requires
            dy == y - aabb.center.y || dy == -(y - aabb.center.y),
    ;
    assert(dz * dz == (z - aabb.center.z) * (z - aabb.center.z)) by (nonlinear_arith)
        requires
            dz == z - aabb.center.z || dz == -(z - aabb.center.z),
    ;
}

} // verus!
