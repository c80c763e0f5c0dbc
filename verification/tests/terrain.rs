//! Tests of height fields, block-volume classification and neighborhood
//! coordinate resolution.

use std::sync::Arc;

use voxel_world::block::Block;
use voxel_world::coords::{ChunkPosition, Vec3i};
use voxel_world::neighborhood::Neighborhood;
use voxel_world::spatial::{pos_to_index_2d, pos_to_index_3d, SpatiallyMapped};
use voxel_world::world_gen::{generate_blocks, Blocks, HeightField, HEIGHT_SCALE};

fn pos(x: i32, y: i32, z: i32) -> ChunkPosition {
    ChunkPosition(Vec3i { x, y, z })
}

#[test]
fn height_field_is_spatially_mapped() {
    let mut samples = vec![0i64; 32 * 32];
    samples[pos_to_index_2d([4, 9])] = 1234;
    let heights = HeightField::new(samples);
    assert_eq!(*heights.at_pos([4, 9]), 1234);
    assert_eq!(*heights.at_pos([9, 4]), 0);
}

#[test]
fn blocks_are_spatially_mapped() {
    let mut volume = vec![Block::Air; 32 * 32 * 32];
    volume[pos_to_index_3d([1, 2, 3])] = Block::Dirt;
    let blocks = Blocks::new(volume);
    assert_eq!(*blocks.at_pos([1, 2, 3]), Block::Dirt);
    assert_eq!(*blocks.at_pos([3, 2, 1]), Block::Air);
}

#[test]
fn blocks_classified_against_surface() {
    // a flat surface at 20 world units: more than one unit below is stone,
    // within one unit below is dirt, at or above is air
    let heights = HeightField::new(vec![2 * HEIGHT_SCALE; 32 * 32]);
    let blocks = generate_blocks(&pos(0, 0, 0), &heights);
    assert_eq!(*blocks.at_pos([5, 0, 5]), Block::Stone);
    assert_eq!(*blocks.at_pos([5, 18, 5]), Block::Stone);
    assert_eq!(*blocks.at_pos([5, 19, 5]), Block::Dirt);
    assert_eq!(*blocks.at_pos([5, 20, 5]), Block::Air);
    assert_eq!(*blocks.at_pos([5, 31, 5]), Block::Air);
}

#[test]
fn blocks_classification_uses_world_height() {
    // the same surface seen from the chunk one above is all air, and from
    // the chunk one below all stone
    let heights = HeightField::new(vec![2 * HEIGHT_SCALE; 32 * 32]);
    let above = generate_blocks(&pos(0, 1, 0), &heights);
    assert_eq!(*above.at_pos([0, 0, 0]), Block::Air);
    let below = generate_blocks(&pos(0, -1, 0), &heights);
    assert_eq!(*below.at_pos([0, 31, 0]), Block::Stone);
}

#[test]
fn negative_surface_classifies_below_zero() {
    // a surface at -10 world units: voxels of the chunk below the origin
    let heights = HeightField::new(vec![-HEIGHT_SCALE; 32 * 32]);
    let chunk = generate_blocks(&pos(0, -1, 0), &heights);
    // world heights -32..=-1 live here; -12 is stone, -11 dirt, -10 air
    assert_eq!(*chunk.at_pos([0, 20, 0]), Block::Stone);
    assert_eq!(*chunk.at_pos([0, 21, 0]), Block::Dirt);
    assert_eq!(*chunk.at_pos([0, 22, 0]), Block::Air);
}

#[test]
fn neighborhood_resolves_out_of_chunk_coordinates() {
    let mut own = vec![Block::Air; 32 * 32 * 32];
    own[pos_to_index_3d([0, 5, 5])] = Block::Dirt;
    let mut west = vec![Block::Air; 32 * 32 * 32];
    west[pos_to_index_3d([31, 5, 5])] = Block::Stone;
    let mut cache: Neighborhood<Blocks> = Neighborhood::new_empty();
    cache.put_chunk(&[0, 0, 0], Some(Arc::new(Blocks::new(own))));
    cache.put_chunk(&[-1, 0, 0], Some(Arc::new(Blocks::new(west))));
    // inside the subject chunk
    assert_eq!(*cache.at_pos(&[0, 5, 5]).unwrap(), Block::Dirt);
    // one step west wraps into the neighbor's local space
    assert_eq!(*cache.at_pos(&[-1, 5, 5]).unwrap(), Block::Stone);
    // a coordinate in an absent neighbor resolves to nothing
    assert!(cache.at_pos(&[32, 5, 5]).is_none());
}
