//! Tests of the face-culling mesher and its ambient-occlusion estimation.

use std::sync::Arc;

use voxel_world::block::Block;
use voxel_world::coords::Vec3i;
use voxel_world::grid::cube_iter;
use voxel_world::mesh::{
    get_ambient_occlusion_factor, get_quad_on_face, get_quads_naive, Quad,
};
use voxel_world::neighborhood::Neighborhood;
use voxel_world::normal::Normal;
use voxel_world::spatial::pos_to_index_3d;
use voxel_world::world_gen::Blocks;

fn volume_of(kind: Block) -> Vec<Block> {
    vec![kind; 32 * 32 * 32]
}

fn full_solid_neighborhood(middle: Vec<Block>) -> Neighborhood<Blocks> {
    let solid = Arc::new(Blocks::new(volume_of(Block::Stone)));
    let mut cache: Neighborhood<Blocks> = Neighborhood::new_empty();
    for (x, y, z) in cube_iter(-1, 2) {
        cache.put_chunk(&[x, y, z], Some(solid.clone()));
    }
    cache.put_chunk(&[0, 0, 0], Some(Arc::new(Blocks::new(middle))));
    cache
}

fn middle_only_neighborhood(middle: Vec<Block>) -> Neighborhood<Blocks> {
    let mut cache: Neighborhood<Blocks> = Neighborhood::new_empty();
    cache.put_chunk(&[0, 0, 0], Some(Arc::new(Blocks::new(middle))));
    cache
}

fn has_face(quads: &[Quad], pos: Vec3i, normal: Normal) -> bool {
    quads.iter().any(|q| q.pos == pos && q.normal == normal && q.block == Block::Stone)
}

#[test]
fn single_cavity_emits_exactly_six_faces() {
    let mut middle = volume_of(Block::Stone);
    middle[pos_to_index_3d([16, 16, 16])] = Block::Air;
    let cache = full_solid_neighborhood(middle);
    let quads = get_quads_naive(&cache);
    assert_eq!(quads.len(), 6);
    assert!(has_face(&quads, Vec3i { x: 15, y: 16, z: 16 }, Normal::PosX));
    assert!(has_face(&quads, Vec3i { x: 17, y: 16, z: 16 }, Normal::NegX));
    assert!(has_face(&quads, Vec3i { x: 16, y: 15, z: 16 }, Normal::PosY));
    assert!(has_face(&quads, Vec3i { x: 16, y: 17, z: 16 }, Normal::NegY));
    assert!(has_face(&quads, Vec3i { x: 16, y: 16, z: 15 }, Normal::PosZ));
    assert!(has_face(&quads, Vec3i { x: 16, y: 16, z: 17 }, Normal::NegZ));
    for q in &quads {
        assert_eq!(q.width, 1);
        assert_eq!(q.height, 1);
        // a voxel enclosed on all sides fully occludes every corner
        assert_eq!(q.ambient_occlusion, [4, 4, 4, 4]);
    }
}

#[test]
fn fully_solid_closed_volume_emits_nothing() {
    let cache = full_solid_neighborhood(volume_of(Block::Stone));
    let quads = get_quads_naive(&cache);
    assert!(quads.is_empty());
}

#[test]
fn missing_neighbors_read_as_air_at_the_boundary() {
    // with no neighbor volumes, a solid chunk's surface faces are emitted:
    // 6 sides of 32 x 32 voxels each
    let cache = middle_only_neighborhood(volume_of(Block::Stone));
    let quads = get_quads_naive(&cache);
    assert_eq!(quads.len(), 6 * 32 * 32);
    assert!(has_face(&quads, Vec3i { x: 0, y: 5, z: 9 }, Normal::NegX));
    assert!(has_face(&quads, Vec3i { x: 31, y: 5, z: 9 }, Normal::PosX));
    // with solid neighbors the same volume emits nothing at all
    let closed = full_solid_neighborhood(volume_of(Block::Stone));
    assert!(get_quads_naive(&closed).is_empty());
}

#[test]
fn face_emitted_only_toward_transparent() {
    let mut middle = volume_of(Block::Air);
    middle[pos_to_index_3d([5, 5, 5])] = Block::Dirt;
    middle[pos_to_index_3d([6, 5, 5])] = Block::Stone;
    let cache = middle_only_neighborhood(middle);
    // the face between the two solid voxels is culled
    assert!(get_quad_on_face(&cache, [5, 5, 5], &Normal::PosX).is_none());
    assert!(get_quad_on_face(&cache, [6, 5, 5], &Normal::NegX).is_none());
    // the faces toward air are emitted and record their block kind
    let up = get_quad_on_face(&cache, [5, 5, 5], &Normal::PosY).unwrap();
    assert_eq!(up.block, Block::Dirt);
    assert_eq!(up.pos, Vec3i { x: 5, y: 5, z: 5 });
    // an air voxel emits nothing
    assert!(get_quad_on_face(&cache, [7, 7, 7], &Normal::PosY).is_none());
}

// For a face at (5,5,5) pointing up, corner 0 samples one layer above the
// face: the sides at (5,6,6) and (4,6,5), the diagonal at (4,6,6).
fn ao_corner_zero(side_a: bool, side_b: bool, diagonal: bool) -> u8 {
    let mut middle = volume_of(Block::Air);
    middle[pos_to_index_3d([5, 5, 5])] = Block::Stone;
    if side_a {
        middle[pos_to_index_3d([5, 6, 6])] = Block::Stone;
    }
    if side_b {
        middle[pos_to_index_3d([4, 6, 5])] = Block::Stone;
    }
    if diagonal {
        middle[pos_to_index_3d([4, 6, 6])] = Block::Stone;
    }
    let cache = middle_only_neighborhood(middle);
    get_ambient_occlusion_factor(&cache, Vec3i { x: 5, y: 5, z: 5 }, &Normal::PosY, 0)
}

#[test]
fn ambient_occlusion_full_table() {
    // both sides solid: 4, whatever the diagonal holds
    assert_eq!(ao_corner_zero(true, true, false), 4);
    assert_eq!(ao_corner_zero(true, true, true), 4);
    // one side solid: 3 with the diagonal, else 2
    assert_eq!(ao_corner_zero(true, false, true), 3);
    assert_eq!(ao_corner_zero(false, true, true), 3);
    assert_eq!(ao_corner_zero(true, false, false), 2);
    assert_eq!(ao_corner_zero(false, true, false), 2);
    // no side solid: 1 with the diagonal, 0 with nothing
    assert_eq!(ao_corner_zero(false, false, true), 1);
    assert_eq!(ao_corner_zero(false, false, false), 0);
}
