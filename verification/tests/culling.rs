use forest_rendering::culling::{is_visible, is_visible_from, DEFAULT_CULLING_DISTANCE};
use forest_rendering::geometry::{Aabb, HalfExtents, Vec3};
use forest_rendering::DistanceCulling;

fn cube(center: Vec3, half: u64) -> Aabb {
    Aabb::new(center, HalfExtents { x: half, y: half, z: half })
}

#[test]
fn default_distance_is_one_thousand_units() {
    assert_eq!(DistanceCulling::default().distance, 1_000_000);
    assert_eq!(DEFAULT_CULLING_DISTANCE, 1_000_000);
}

#[test]
fn camera_inside_box_is_visible_at_distance_zero() {
    let aabb = cube(Vec3::zero(), 30_000);
    let culling = DistanceCulling { distance: 0 };
    // Far from the centre, yet inside the box.
    assert!(is_visible(&Vec3::new(29_999, -30_000, 30_000), &aabb, &culling));
    assert!(is_visible(&Vec3::new(30_000, 30_000, 30_000), &aabb, &culling));
    assert!(!is_visible(&Vec3::new(30_001, 0, 0), &aabb, &culling));
}

#[test]
fn distance_is_measured_to_the_nearest_point_not_the_centre() {
    let aabb = cube(Vec3::zero(), 30_000);
    let camera = Vec3::new(40_000, 0, 0);
    // The centre is 40 units away, the box only 10.
    assert!(is_visible(&camera, &aabb, &DistanceCulling { distance: 10_000 }));
    assert!(!is_visible(&camera, &aabb, &DistanceCulling { distance: 9_999 }));
}

#[test]
fn distance_combines_the_gaps_along_all_axes() {
    let aabb = cube(Vec3::new(1_000, 2_000, 3_000), 1_000);
    // Gaps of 3, 4 and 12 units: the distance is 13 units.
    let camera = Vec3::new(5_000, -3_000, 16_000);
    assert!(is_visible(&camera, &aabb, &DistanceCulling { distance: 13_000 }));
    assert!(!is_visible(&camera, &aabb, &DistanceCulling { distance: 12_999 }));
    // Two gaps only: 3 and 4 give 5.
    let camera = Vec3::new(-3_000, 7_000, 3_500);
    assert!(is_visible(&camera, &aabb, &DistanceCulling { distance: 5_000 }));
    assert!(!is_visible(&camera, &aabb, &DistanceCulling { distance: 4_999 }));
}

#[test]
fn visibility_is_monotonic_in_distance() {
    let aabb = cube(Vec3::zero(), 15_000);
    let culling = DistanceCulling { distance: 200_000 };
    let mut seen_hidden = false;
    let mut x: i64 = 400_000;
    while x >= 0 {
        let shown = is_visible(&Vec3::new(x, 0, 0), &aabb, &culling);
        if shown {
            // Everything nearer must be shown as well.
            let mut nearer = x;
            while nearer >= 0 {
                assert!(is_visible(&Vec3::new(nearer, 0, 0), &aabb, &culling));
                nearer -= 25_000;
            }
        } else {
            seen_hidden = true;
        }
        x -= 5_000;
    }
    assert!(seen_hidden);
    assert!(is_visible(&Vec3::new(215_000, 0, 0), &aabb, &culling));
    assert!(!is_visible(&Vec3::new(215_001, 0, 0), &aabb, &culling));
}

#[test]
fn larger_limit_never_hides() {
    let aabb = cube(Vec3::zero(), 1_000);
    let camera = Vec3::new(51_000, 0, 0);
    assert!(!is_visible(&camera, &aabb, &DistanceCulling { distance: 49_999 }));
    assert!(is_visible(&camera, &aabb, &DistanceCulling { distance: 50_000 }));
    assert!(is_visible(&camera, &aabb, &DistanceCulling { distance: 50_001 }));
    assert!(is_visible(&camera, &aabb, &DistanceCulling { distance: u64::MAX }));
}

#[test]
fn box_is_placed_at_the_origin_of_its_entity() {
    let aabb = Aabb::new(Vec3::new(0, 2_000, 0), HalfExtents { x: 15_000, y: 2_000, z: 15_000 });
    let origin = Vec3::new(-450_000, 0, 420_000);
    let culling = DistanceCulling { distance: 100_000 };
    // Inside the chunk.
    assert!(is_visible_from(&Vec3::new(-440_000, 1_000, 430_000), &origin, &aabb, &culling));
    // 100 units beyond its edge along x.
    assert!(is_visible_from(&Vec3::new(-335_000, 1_000, 420_000), &origin, &aabb, &culling));
    assert!(!is_visible_from(&Vec3::new(-334_999, 1_000, 420_000), &origin, &aabb, &culling));
    // With no offset the two predicates agree.
    let zero = Vec3::zero();
    let camera = Vec3::new(100_000, 0, 60_000);
    assert_eq!(is_visible_from(&camera, &zero, &aabb, &culling), is_visible(&camera, &aabb, &culling));
}

#[test]
fn extreme_coordinates_are_handled() {
    let aabb = Aabb::new(
        Vec3::new(i64::MAX, i64::MAX, i64::MAX),
        HalfExtents { x: u64::MAX, y: u64::MAX, z: u64::MAX },
    );
    let camera = Vec3::new(i64::MIN, i64::MIN, i64::MIN);
    let origin = Vec3::new(i64::MAX, i64::MAX, i64::MAX);
    // The gap is 2^63 - 1 along each of the three axes.
    assert!(!is_visible_from(&camera, &origin, &aabb, &DistanceCulling { distance: 0 }));
    assert!(!is_visible_from(&camera, &origin, &aabb, &DistanceCulling { distance: i64::MAX as u64 }));
    assert!(!is_visible_from(&camera, &origin, &aabb, &DistanceCulling { distance: 15_975_348_984_942_515_099 }));
    assert!(is_visible_from(&camera, &origin, &aabb, &DistanceCulling { distance: 15_975_348_984_942_515_100 }));
    assert!(is_visible_from(&camera, &origin, &aabb, &DistanceCulling { distance: u64::MAX }));
    let point = Aabb::new(Vec3::new(i64::MAX, 0, 0), HalfExtents { x: 0, y: 0, z: 0 });
    let camera = Vec3::new(i64::MIN, 0, 0);
    // The gap is 2^64 - 1: just within the largest limit.
    assert!(is_visible(&camera, &point, &DistanceCulling { distance: u64::MAX }));
    assert!(!is_visible(&camera, &point, &DistanceCulling { distance: u64::MAX - 1 }));
    // The same gap along two axes exceeds it.
    let point = Aabb::new(Vec3::new(i64::MAX, i64::MAX, 0), HalfExtents { x: 0, y: 0, z: 0 });
    let camera = Vec3::new(i64::MIN, i64::MIN, 0);
    assert!(!is_visible(&camera, &point, &DistanceCulling { distance: u64::MAX }));
}
