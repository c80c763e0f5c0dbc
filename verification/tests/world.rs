//! End-to-end tests of the terrain pipeline, driven the way a host loop
//! drives it: spawn, height sampling, block derivation, propagation, mesh
//! scheduling and polling, and despawn.

use noise::{NoiseFn, ScalePoint, Simplex, TranslatePoint};

use voxel_world::coords::{ChunkPosition, Vec3i};
use voxel_world::grid::cube_iter;
use voxel_world::pipeline::ChunkWorld;
use voxel_world::world_gen::{HeightField, HEIGHT_SCALE};

/// The layered noise field the world terrain is generated from: octave k
/// has amplitude 0.5^k, scale base * 0.5^k, an independently derived seed
/// and a translation of half its scale; the sum is normalized by the
/// geometric series total.
struct FractalNoise {
    inverse_of_sum_of_scales: f64,
    parts: Vec<(f64, TranslatePoint<ScalePoint<Simplex>>)>,
}

impl FractalNoise {
    fn new(seed: u32, layers: u32, noise_scale: f64) -> Self {
        let sum_of_layer_scales = 1.0 - 0.5_f64.powi(layers as i32);
        let parts = (0..layers)
            .map(|k| {
                let seed = seed.rotate_left(k);
                let a = 0.5_f64.powi(k as i32);
                let scale = noise_scale * a;
                let translation = 0.5 * scale;
                let simplex = Simplex::new(seed);
                let scaled = ScalePoint::new(simplex).set_scale(scale);
                let translated = TranslatePoint::new(scaled).set_translation(translation);
                (a, translated)
            })
            .collect();
        FractalNoise { inverse_of_sum_of_scales: sum_of_layer_scales.recip(), parts }
    }

    fn get(&self, point: [f64; 2]) -> f64 {
        let sum: f64 = self.parts.iter().map(|(a, n)| n.get(point) * a).sum();
        sum * self.inverse_of_sum_of_scales
    }
}

/// One chunk's column heights as the fixed-point samples the library takes.
fn sample_heights(noise: &FractalNoise, pos: &Vec3i) -> Vec<i64> {
    let mut samples = Vec::with_capacity(32 * 32);
    for x in 0..32i64 {
        for z in 0..32i64 {
            let wx = (x + 32 * pos.x as i64) as f64;
            let wz = (z + 32 * pos.z as i64) as f64;
            let h = noise.get([wx, wz]);
            let fixed = (h * HEIGHT_SCALE as f64).round() as i64;
            samples.push(fixed.clamp(-2 * HEIGHT_SCALE, 2 * HEIGHT_SCALE));
        }
    }
    samples
}

fn v(x: i32, y: i32, z: i32) -> Vec3i {
    Vec3i { x, y, z }
}

/// A constant height field whose surface lies at 20 world units.
fn high_flat_heights() -> HeightField {
    HeightField::new(vec![2 * HEIGHT_SCALE; 32 * 32])
}

#[test]
fn end_to_end_world() {
    let noise = FractalNoise::new(0xDEADBEEF, 6, 0.02);
    let mut world = ChunkWorld::new();
    let mut ids = Vec::new();
    for (x, y, z) in cube_iter(-2, 3) {
        let pos = v(x, y, z);
        let id = world.spawn_chunk(ChunkPosition(pos)).unwrap();
        ids.push((id, pos));
    }
    for (id, pos) in &ids {
        let heights = HeightField::new(sample_heights(&noise, pos));
        assert!(world.set_height_field(*id, heights));
    }
    for (id, _) in &ids {
        assert!(world.derive_blocks(*id));
    }
    world.propagate();
    // after the pipeline stabilizes, every chunk holds its block volume
    for (id, _) in &ids {
        assert!(world.has_block_volume(id));
    }
    // all 26 neighbors of the center chunk exist and publish, so its
    // block-volume cache is complete
    let center = world.chunk_at(&v(0, 0, 0)).unwrap();
    assert!(world.has_full_neighborhood(&center));
    // and its mesh comes out non-empty
    assert!(world.schedule_mesh(center));
    world.refresh_progress_flags();
    while world.run_one_task() {}
    let quads = world.quads_of(&center).unwrap();
    assert!(!quads.0.is_empty());
    assert!(world.quad_total().0 > 0);
}

#[test]
fn spawn_rejects_occupied_coordinate() {
    let mut world = ChunkWorld::new();
    let first = world.spawn_chunk(ChunkPosition(v(3, 4, 5)));
    assert!(first.is_some());
    assert!(world.spawn_chunk(ChunkPosition(v(3, 4, 5))).is_none());
    assert_eq!(world.chunk_at(&v(3, 4, 5)), first);
}

#[test]
fn height_field_taken_once() {
    let mut world = ChunkWorld::new();
    let id = world.spawn_chunk(ChunkPosition(v(0, 0, 0))).unwrap();
    assert!(world.set_height_field(id, high_flat_heights()));
    assert!(!world.set_height_field(id, high_flat_heights()));
    let unknown = voxel_world::coords::ChunkId(777);
    assert!(!world.set_height_field(unknown, high_flat_heights()));
}

#[test]
fn mesh_installed_and_replaced_once_per_task() {
    let mut world = ChunkWorld::new();
    let id = world.spawn_chunk(ChunkPosition(v(0, 0, 0))).unwrap();
    assert!(world.set_height_field(id, high_flat_heights()));
    assert!(world.derive_blocks(id));
    assert!(!world.derive_blocks(id));
    world.propagate();
    assert!(world.schedule_mesh(id));
    world.refresh_progress_flags();
    assert!(world.run_one_task());
    assert!(!world.run_one_task());
    let first_total = world.quad_total().0;
    assert!(first_total > 0);
    assert_eq!(world.quads_of(&id).unwrap().0.len() as u64, first_total);
    // re-meshing replaces the installed mesh in the running total
    assert!(world.schedule_mesh(id));
    assert!(world.run_one_task());
    assert_eq!(world.quad_total().0, first_total);
}

#[test]
fn replaced_task_installs_nothing() {
    let mut world = ChunkWorld::new();
    let id = world.spawn_chunk(ChunkPosition(v(0, 0, 0))).unwrap();
    assert!(world.set_height_field(id, high_flat_heights()));
    assert!(world.derive_blocks(id));
    world.propagate();
    // two spawns before any poll: the first task is replaced by the second
    assert!(world.schedule_mesh(id));
    assert!(world.schedule_mesh(id));
    assert!(world.run_one_task());
    // the replaced task's result was discarded
    assert_eq!(world.quad_total().0, 0);
    assert!(world.quads_of(&id).is_none());
    // the live task's result is installed
    assert!(world.run_one_task());
    assert!(world.quad_total().0 > 0);
    assert!(world.quads_of(&id).is_some());
}

#[test]
fn despawn_cancels_task_and_clears_neighbors() {
    let mut world = ChunkWorld::new();
    let mut ids = Vec::new();
    for (x, y, z) in cube_iter(0, 3) {
        let pos = v(x, y, z);
        let id = world.spawn_chunk(ChunkPosition(pos)).unwrap();
        ids.push((id, pos));
    }
    for (id, _) in &ids {
        assert!(world.set_height_field(*id, high_flat_heights()));
        assert!(world.derive_blocks(*id));
    }
    world.propagate();
    let center = world.chunk_at(&v(1, 1, 1)).unwrap();
    assert!(world.has_full_neighborhood(&center));
    // destroying a neighbor clears its slot in the center's cache, which
    // revokes the center's full view at the next propagation
    let corner = world.chunk_at(&v(0, 0, 0)).unwrap();
    assert!(world.despawn_chunk(corner));
    world.propagate();
    assert!(!world.has_full_neighborhood(&center));
    assert!(!world.has_block_volume(&corner));
    assert!(world.chunk_at(&v(0, 0, 0)).is_none());
    // despawning an unknown chunk is ignored
    assert!(!world.despawn_chunk(corner));
}

#[test]
fn despawn_before_completion_installs_nothing() {
    let mut world = ChunkWorld::new();
    let id = world.spawn_chunk(ChunkPosition(v(0, 0, 0))).unwrap();
    assert!(world.set_height_field(id, high_flat_heights()));
    assert!(world.derive_blocks(id));
    world.propagate();
    assert!(world.schedule_mesh(id));
    assert!(world.despawn_chunk(id));
    // the snapshot still runs, but its result must be discarded: its owner
    // was destroyed before completion
    assert!(world.run_one_task());
    assert!(!world.run_one_task());
    assert_eq!(world.quad_total().0, 0);
    assert!(world.quads_of(&id).is_none());
}

#[test]
fn despawn_removes_quads_from_total() {
    let mut world = ChunkWorld::new();
    let id = world.spawn_chunk(ChunkPosition(v(0, 0, 0))).unwrap();
    assert!(world.set_height_field(id, high_flat_heights()));
    assert!(world.derive_blocks(id));
    world.propagate();
    assert!(world.schedule_mesh(id));
    assert!(world.run_one_task());
    assert!(world.quad_total().0 > 0);
    assert!(world.despawn_chunk(id));
    assert_eq!(world.quad_total().0, 0);
}
