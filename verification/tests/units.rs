//! Unit tests for blocks, directions, coordinate helpers and instance
//! packing.

use voxel_world::block::Block;
use voxel_world::coords::Vec3i;
use voxel_world::grid::{cube_iter, square_iter};
use voxel_world::instance::{Instance, InstanceRaw};
use voxel_world::normal::Normal;
use voxel_world::spatial::{pos_to_index_2d, pos_to_index_3d};

#[test]
fn block_transparency() {
    assert!(Block::Air.is_transparent());
    assert!(!Block::Stone.is_transparent());
    assert!(!Block::Dirt.is_transparent());
}

#[test]
fn block_texture_indices() {
    let stone = Block::Stone.get_texture_index().unwrap();
    assert_eq!(stone.index, 0);
    assert_eq!(stone.asset_path, "stone.png");
    let dirt = Block::Dirt.get_texture_index().unwrap();
    assert_eq!(dirt.index, 1);
    assert_eq!(dirt.asset_path, "dirt.png");
    assert!(Block::Air.get_texture_index().is_none());
}

#[test]
fn block_default_is_air() {
    assert_eq!(Block::default(), Block::Air);
}

#[test]
fn index_3d_layout() {
    assert_eq!(pos_to_index_3d([0, 0, 0]), 0);
    assert_eq!(pos_to_index_3d([0, 0, 1]), 1);
    assert_eq!(pos_to_index_3d([0, 1, 0]), 32);
    assert_eq!(pos_to_index_3d([1, 0, 0]), 1024);
    assert_eq!(pos_to_index_3d([31, 31, 31]), 32767);
}

#[test]
fn index_2d_layout() {
    assert_eq!(pos_to_index_2d([0, 0]), 0);
    assert_eq!(pos_to_index_2d([0, 5]), 5);
    assert_eq!(pos_to_index_2d([3, 1]), 97);
    assert_eq!(pos_to_index_2d([31, 31]), 1023);
}

#[test]
fn cube_iter_order_and_len() {
    let cells = cube_iter(-1, 2);
    assert_eq!(cells.len(), 27);
    assert_eq!(cells[0], (-1, -1, -1));
    assert_eq!(cells[1], (-1, -1, 0));
    assert_eq!(cells[3], (-1, 0, -1));
    assert_eq!(cells[9], (0, -1, -1));
    assert_eq!(cells[13], (0, 0, 0));
    assert_eq!(cells[26], (1, 1, 1));
    assert_eq!(cube_iter(0, 0).len(), 0);
    assert_eq!(cube_iter(5, 3).len(), 0);
}

#[test]
fn square_iter_order_and_len() {
    let cells = square_iter(0, 3);
    assert_eq!(cells.len(), 9);
    assert_eq!(cells[0], (0, 0));
    assert_eq!(cells[1], (0, 1));
    assert_eq!(cells[3], (1, 0));
    assert_eq!(cells[8], (2, 2));
    assert_eq!(square_iter(2, 2).len(), 0);
}

#[test]
fn normal_unit_directions() {
    assert_eq!(Normal::PosX.as_unit_direction(), Vec3i { x: 1, y: 0, z: 0 });
    assert_eq!(Normal::NegX.as_unit_direction(), Vec3i { x: -1, y: 0, z: 0 });
    assert_eq!(Normal::PosY.as_unit_direction(), Vec3i { x: 0, y: 1, z: 0 });
    assert_eq!(Normal::NegY.as_unit_direction(), Vec3i { x: 0, y: -1, z: 0 });
    assert_eq!(Normal::PosZ.as_unit_direction(), Vec3i { x: 0, y: 0, z: 1 });
    assert_eq!(Normal::NegZ.as_unit_direction(), Vec3i { x: 0, y: 0, z: -1 });
}

#[test]
fn normal_perpendicular_axes() {
    assert_eq!(Normal::PosX.perpendicular_axes(), (Normal::NegZ, Normal::NegY));
    assert_eq!(Normal::PosY.perpendicular_axes(), (Normal::NegZ, Normal::PosX));
    assert_eq!(Normal::PosZ.perpendicular_axes(), (Normal::PosX, Normal::NegY));
    assert_eq!(Normal::NegX.perpendicular_axes(), (Normal::PosZ, Normal::NegY));
    assert_eq!(Normal::NegY.perpendicular_axes(), (Normal::NegZ, Normal::NegX));
    assert_eq!(Normal::NegZ.perpendicular_axes(), (Normal::NegX, Normal::NegY));
}

#[test]
fn instance_packing_exact() {
    let instance = Instance {
        position: [3, 5, 7],
        dimensions: [1, 2],
        normal: Normal::PosZ,
    };
    let raw = InstanceRaw::from(instance);
    // width code 0, height code 1 << 5, x 3 << 10, y 5 << 16, z 7 << 22,
    // direction tag 4 << 28
    let expected: u32 = 0 | (1 << 5) | (3 << 10) | (5 << 16) | (7 << 22) | (4 << 28);
    assert_eq!(raw.data, expected);
}

#[test]
fn instance_packing_zero_dimension_clamped() {
    let instance = Instance {
        position: [0, 0, 0],
        dimensions: [0, 1],
        normal: Normal::PosX,
    };
    let raw = InstanceRaw::from(instance);
    assert_eq!(raw.data, 0);
}

#[test]
fn vec3i_arithmetic() {
    let a = Vec3i { x: 1, y: -2, z: 3 };
    let b = Vec3i { x: 10, y: 20, z: 30 };
    assert_eq!(a.plus(b), Vec3i { x: 11, y: 18, z: 33 });
    assert_eq!(a.flipped(), Vec3i { x: -1, y: 2, z: -3 });
}
