use forest_rendering::chunk::{
    chunk_aabb, layer_is_drawn, Chunk, ChunkGrassBundle, ChunkInstancingBundle, DrawCall, DrawSource,
};
use forest_rendering::chunk_grass::{ChunkGrass, GrassDescriptor, GridConfig};
use forest_rendering::chunk_instancing::ChunkInstancing;
use forest_rendering::color::{Color, ColorRamp};
use forest_rendering::culling::is_visible_from;
use forest_rendering::geometry::{Aabb, HalfExtents, Handle, Transform, Vec2, Vec3};
use forest_rendering::DistanceCulling;

const CHUNK_SIZE: u64 = 30_000;
const NR_SIDE_CHUNKS: u32 = 30;

fn ramp() -> ColorRamp {
    ColorRamp { tip: Color::rgb(660, 990, 340), middle: Color::rgb(400, 600, 300), base: Color::rgb(220, 400, 255) }
}

fn layer(count: u32, mesh: u64, culling: u64, seed: u64) -> ChunkInstancingBundle {
    ChunkInstancingBundle {
        mesh: Handle { id: mesh },
        chunk_instancing: ChunkInstancing::new(count, Handle { id: mesh + 100 }, Transform::identity(), CHUNK_SIZE, seed)
            .unwrap(),
        distance_culling: DistanceCulling { distance: culling },
        aabb: chunk_aabb(CHUNK_SIZE, 4_000),
    }
}

fn grass(origin: Vec3, blades: u32, culling: u64) -> ChunkGrassBundle {
    let descriptor = GrassDescriptor {
        time: 0,
        healthy: ramp(),
        unhealthy: ramp(),
        chunk_xy: Vec2 { x: origin.x, y: origin.z },
        chunk_half_extents: Vec2 { x: 15_000, y: 15_000 },
        nr_instances: blades,
        growth_texture_id: 1,
        scale: 1_600,
        height_modifier: 600,
    };
    ChunkGrassBundle {
        mesh: Handle { id: 7 },
        chunk_grass: ChunkGrass::new(descriptor).unwrap(),
        distance_culling: DistanceCulling { distance: culling },
        aabb: chunk_aabb(CHUNK_SIZE, 4_000),
    }
}

#[test]
fn chunk_box_is_tight_around_footprint_and_height() {
    let aabb = chunk_aabb(30_000, 4_000);
    assert_eq!(aabb, Aabb::new(Vec3::new(0, 2_000, 0), HalfExtents { x: 15_000, y: 2_000, z: 15_000 }));
    let odd = chunk_aabb(30_001, 4_001);
    assert_eq!(odd, Aabb::new(Vec3::new(0, 2_001, 0), HalfExtents { x: 15_000, y: 2_001, z: 15_000 }));
    let flat = chunk_aabb(0, 0);
    assert_eq!(flat, Aabb::new(Vec3::zero(), HalfExtents { x: 0, y: 0, z: 0 }));
    let tall = chunk_aabb(u64::MAX, u32::MAX);
    assert_eq!(tall.center.y, 2_147_483_648);
    assert_eq!(tall.half_extents, HalfExtents { x: u64::MAX / 2, y: 2_147_483_648, z: u64::MAX / 2 });
}

#[test]
fn camera_at_any_instance_sees_the_layer() {
    let origin = Vec3::new(-450_000, 0, 120_000);
    let mut bundle = layer(400, 1, 0, 31);
    bundle.chunk_instancing.prepare();
    for record in bundle.chunk_instancing.buffer().unwrap() {
        let camera = Vec3::new(
            origin.x + record.translation.x,
            origin.y + record.translation.y,
            origin.z + record.translation.z,
        );
        assert!(is_visible_from(&camera, &origin, &bundle.aabb, &bundle.distance_culling));
    }
}

#[test]
fn new_chunk_is_empty() {
    let chunk = Chunk::new(3, 4, Vec3::new(-360_000, 0, -330_000));
    assert_eq!(chunk.grid_position(), (3, 4));
    assert_eq!(chunk.origin(), Vec3::new(-360_000, 0, -330_000));
    assert_eq!(chunk.layer_count(), 0);
    assert!(chunk.layer(0).is_none());
    assert!(chunk.grass().is_none());
    assert!(chunk.draw_calls(&Vec3::zero()).is_empty());
}

#[test]
fn layers_keep_their_order_and_grass_is_at_most_one() {
    let mut chunk = Chunk::new(0, 0, Vec3::zero());
    chunk.add_layer(layer(180, 1, 100_000, 1));
    chunk.add_layer(layer(60, 2, 200_000, 2));
    assert_eq!(chunk.layer_count(), 2);
    assert_eq!(chunk.layer(0).unwrap().mesh, Handle { id: 1 });
    assert_eq!(chunk.layer(1).unwrap().chunk_instancing.instance_count(), 60);
    assert!(chunk.layer(2).is_none());
    assert!(chunk.set_grass(grass(Vec3::zero(), 45_000, 300_000)).is_none());
    let replaced = chunk.set_grass(grass(Vec3::zero(), 10, 300_000)).unwrap();
    assert_eq!(replaced.chunk_grass.descriptor().nr_instances, 45_000);
    assert_eq!(chunk.grass().unwrap().chunk_grass.descriptor().nr_instances, 10);
    assert_eq!(chunk.layer_count(), 2);
}

#[test]
fn deciding_the_draws_builds_nothing() {
    let mut chunk = Chunk::new(0, 0, Vec3::zero());
    chunk.add_layer(layer(180, 1, 100_000, 1));
    assert!(chunk.draw_calls(&Vec3::zero()).is_empty());
    assert!(!chunk.layer(0).unwrap().chunk_instancing.is_built());
    assert_eq!(chunk.prepare(), 1);
    assert_eq!(
        chunk.draw_calls(&Vec3::zero()),
        vec![DrawCall { source: DrawSource::Instancing(0), mesh: Handle { id: 1 }, instance_count: 180 }]
    );
    assert_eq!(chunk.prepare(), 0);
}

#[test]
fn one_draw_call_for_each_visible_layer() {
    let origin = Vec3::new(300_000, 0, 0);
    let mut chunk = Chunk::new(25, 15, origin);
    chunk.add_layer(layer(180, 1, 100_000, 1));
    chunk.add_layer(layer(60, 2, 200_000, 2));
    chunk.add_layer(layer(0, 3, 200_000, 3));
    chunk.add_layer(layer(90, 4, 200_000, 4));
    chunk.set_grass(grass(origin, 45_000, 300_000));
    assert_eq!(chunk.prepare(), 4);

    let mushroom = DrawCall { source: DrawSource::Instancing(0), mesh: Handle { id: 1 }, instance_count: 180 };
    let tree = DrawCall { source: DrawSource::Instancing(1), mesh: Handle { id: 2 }, instance_count: 60 };
    let rock = DrawCall { source: DrawSource::Instancing(3), mesh: Handle { id: 4 }, instance_count: 90 };
    let blades = DrawCall { source: DrawSource::Grass, mesh: Handle { id: 7 }, instance_count: 45_000 };

    // Inside the chunk: everything that has instances.
    assert_eq!(chunk.draw_calls(&Vec3::new(310_000, 1_000, 5_000)), vec![mushroom, tree, rock, blades]);
    // 100 units from its edge: still everything; a little farther the nearest limit drops out.
    assert_eq!(chunk.draw_calls(&Vec3::new(185_000, 0, 0)), vec![mushroom, tree, rock, blades]);
    assert_eq!(chunk.draw_calls(&Vec3::new(184_999, 0, 0)), vec![tree, rock, blades]);
    assert_eq!(chunk.draw_calls(&Vec3::new(85_000, 0, 0)), vec![tree, rock, blades]);
    assert_eq!(chunk.draw_calls(&Vec3::new(84_999, 0, 0)), vec![blades]);
    assert_eq!(chunk.draw_calls(&Vec3::new(-15_000, 0, 0)), vec![blades]);
    assert_eq!(chunk.draw_calls(&Vec3::new(-15_001, 0, 0)), vec![]);

    // An invalidated layer is left out until it is prepared again.
    let mut rebuilt = Chunk::new(25, 15, origin);
    let mut stale = layer(60, 2, 200_000, 2);
    stale.chunk_instancing.prepare();
    stale.chunk_instancing.invalidate();
    rebuilt.add_layer(stale);
    assert!(rebuilt.draw_calls(&origin).is_empty());
    assert_eq!(rebuilt.frame(&origin, 16), vec![tree_call(0)]);
}

fn tree_call(index: usize) -> DrawCall {
    DrawCall { source: DrawSource::Instancing(index), mesh: Handle { id: 2 }, instance_count: 60 }
}

#[test]
fn grass_without_blades_draws_nothing() {
    let mut chunk = Chunk::new(0, 0, Vec3::zero());
    chunk.set_grass(grass(Vec3::zero(), 0, 300_000));
    assert!(chunk.frame(&Vec3::zero(), 16).is_empty());
}

#[test]
fn frame_advances_time_prepares_and_draws() {
    let mut chunk = Chunk::new(0, 0, Vec3::zero());
    chunk.add_layer(layer(60, 2, 200_000, 2));
    chunk.set_grass(grass(Vec3::zero(), 100, 300_000));
    let calls = chunk.frame(&Vec3::new(0, 5_000, 10_000), 16);
    assert_eq!(calls.len(), 2);
    assert_eq!(calls[0], tree_call(0));
    assert_eq!(calls[1].source, DrawSource::Grass);
    assert!(chunk.layer(0).unwrap().chunk_instancing.is_built());
    assert_eq!(chunk.grass().unwrap().chunk_grass.descriptor().time, 16);
    let first = chunk.layer(0).unwrap().chunk_instancing.buffer().unwrap().clone();
    chunk.frame(&Vec3::new(0, 5_000, 10_000), 17);
    assert_eq!(chunk.grass().unwrap().chunk_grass.descriptor().time, 33);
    assert_eq!(chunk.layer(0).unwrap().chunk_instancing.buffer().unwrap(), &first);
    chunk.advance_time(7);
    assert_eq!(chunk.grass().unwrap().chunk_grass.descriptor().time, 40);
    // Without grass there is no time to advance.
    let mut bare = Chunk::new(0, 0, Vec3::zero());
    bare.advance_time(5);
    assert!(bare.grass().is_none());
}

#[test]
fn tree_total_over_the_grid() {
    let nr_instances: u32 = 30 * 30 * 1;
    let trees_per_chunk = nr_instances / 15;
    assert_eq!(trees_per_chunk, 60);
    let grid = GridConfig::new(Vec2 { x: 0, y: 0 }, Vec2 { x: 450_000, y: 450_000 }).unwrap();
    let mut chunks: Vec<Chunk> = Vec::new();
    for chunk_x in 0..NR_SIDE_CHUNKS {
        for chunk_y in 0..NR_SIDE_CHUNKS {
            let origin = grid.chunk_origin(chunk_x, chunk_y, CHUNK_SIZE).unwrap();
            let mut chunk = Chunk::new(chunk_x, chunk_y, origin);
            chunk.add_layer(layer(trees_per_chunk, 2, 200_000, (chunk_x * NR_SIDE_CHUNKS + chunk_y) as u64));
            chunks.push(chunk);
        }
    }
    assert_eq!(chunks.len(), 900);
    let mut declared: u64 = 0;
    let mut built: u64 = 0;
    for chunk in chunks.iter_mut() {
        assert_eq!(chunk.prepare(), 1);
        let tree = &chunk.layer(0).unwrap().chunk_instancing;
        declared += tree.instance_count() as u64;
        built += tree.buffer().unwrap().len() as u64;
        for record in tree.buffer().unwrap() {
            assert!(record.translation.x.abs() <= 15_000);
            assert!(record.translation.z.abs() <= 15_000);
        }
    }
    assert_eq!(declared, 54_000);
    assert_eq!(built, 54_000);
    // From the middle of the grid, trees are drawn for the chunks within 200 units.
    let camera = Vec3::new(0, 5_000, 10_000);
    let mut drawn: u64 = 0;
    for chunk in chunks.iter() {
        let calls = chunk.draw_calls(&camera);
        assert!(calls.len() <= 1);
        let near = is_visible_from(
            &camera,
            &chunk.origin(),
            &chunk.layer(0).unwrap().aabb,
            &chunk.layer(0).unwrap().distance_culling,
        );
        assert_eq!(calls.len() == 1, near);
        drawn += calls.iter().map(|c| c.instance_count as u64).sum::<u64>();
    }
    assert!(drawn > 0 && drawn < 54_000);
    assert_eq!(drawn % 60, 0);
}

#[test]
fn a_layer_is_drawn_when_ready_populated_and_near() {
    let aabb = chunk_aabb(CHUNK_SIZE, 4_000);
    let origin = Vec3::new(300_000, 0, 0);
    let culling = DistanceCulling { distance: 100_000 };
    let near = Vec3::new(185_000, 0, 0);
    let far = Vec3::new(184_999, 0, 0);
    assert!(layer_is_drawn(&near, &origin, &aabb, &culling, 60, true));
    assert!(!layer_is_drawn(&far, &origin, &aabb, &culling, 60, true));
    assert!(!layer_is_drawn(&near, &origin, &aabb, &culling, 0, true));
    assert!(!layer_is_drawn(&near, &origin, &aabb, &culling, 60, false));
    assert!(layer_is_drawn(&near, &origin, &aabb, &culling, 1, true));
}
