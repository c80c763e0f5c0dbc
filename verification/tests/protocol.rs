//! Tests of the spatial index, the neighbor-cache protocol and the task
//! registry.

use std::sync::Arc;

use voxel_world::coords::{ChunkId, Vec3i};
use voxel_world::index::ChunkIndex;
use voxel_world::neighborhood::{FullNeighborhood, Neighborhood};
use voxel_world::tasks::ComputeTasks;
use voxel_world::tracker::NeighborTracker;

fn v(x: i32, y: i32, z: i32) -> Vec3i {
    Vec3i { x, y, z }
}

#[test]
fn index_round_trip() {
    let mut index = ChunkIndex::new();
    index.register(v(1, 2, 3), ChunkId(7));
    index.register(v(-4, 0, 9), ChunkId(8));
    assert_eq!(index.get_entity(&v(1, 2, 3)), Some(ChunkId(7)));
    assert_eq!(index.get_position(&ChunkId(7)), Some(v(1, 2, 3)));
    assert_eq!(index.get_entity(&v(-4, 0, 9)), Some(ChunkId(8)));
    assert_eq!(index.get_position(&ChunkId(8)), Some(v(-4, 0, 9)));
    // round trip both ways after an unregister
    assert_eq!(index.unregister(ChunkId(7)), Some(v(1, 2, 3)));
    assert_eq!(index.get_entity(&v(1, 2, 3)), None);
    assert_eq!(index.get_position(&ChunkId(7)), None);
    assert_eq!(index.get_entity(&v(-4, 0, 9)), Some(ChunkId(8)));
    assert_eq!(index.get_position(&ChunkId(8)), Some(v(-4, 0, 9)));
}

#[test]
fn index_unregister_unknown_is_ignored() {
    let mut index = ChunkIndex::new();
    index.register(v(0, 0, 0), ChunkId(1));
    assert_eq!(index.unregister(ChunkId(99)), None);
    assert_eq!(index.get_entity(&v(0, 0, 0)), Some(ChunkId(1)));
}

#[test]
fn neighborhood_slots() {
    let mut cache: Neighborhood<u32> = Neighborhood::new_empty();
    assert!(cache.get_chunk(&[0, 0, 0]).is_none());
    cache.put_chunk(&[0, 0, 0], Some(Arc::new(5)));
    cache.put_chunk(&[-1, 0, 1], Some(Arc::new(6)));
    assert_eq!(**cache.get_chunk(&[0, 0, 0]).as_ref().unwrap(), 5);
    assert_eq!(**cache.get_chunk(&[-1, 0, 1]).as_ref().unwrap(), 6);
    assert!(cache.get_chunk(&[1, 1, 1]).is_none());
    assert_eq!(*cache.get_middle(), 5);
    cache.put_chunk(&[0, 0, 0], None);
    assert!(cache.get_chunk(&[0, 0, 0]).is_none());
}

#[test]
fn full_neighborhood_present_iff_all_slots() {
    let mut cache: Neighborhood<u32> = Neighborhood::new_empty();
    let offsets = voxel_world::grid::cube_iter(-1, 2);
    for (i, (x, y, z)) in offsets.iter().enumerate() {
        assert!(FullNeighborhood::from_cache(&cache).is_none());
        cache.put_chunk(&[*x, *y, *z], Some(Arc::new(i as u32)));
    }
    // all 27 slots populated: the full view appears
    let full = FullNeighborhood::from_cache(&cache).unwrap();
    assert_eq!(**full.get_middle(), 13);
    assert_eq!(**full.get_chunk(&[-1, -1, -1]), 0);
    assert_eq!(**full.get_chunk(&[1, 1, 1]), 26);
    // any single slot reverting hides it again
    cache.put_chunk(&[0, 1, 0], None);
    assert!(FullNeighborhood::from_cache(&cache).is_none());
}

#[test]
fn propagation_symmetry() {
    let mut index = ChunkIndex::new();
    let a = ChunkId(1);
    let b = ChunkId(2);
    index.register(v(5, 5, 5), a);
    index.register(v(4, 5, 6), b); // b is at offset (-1, 0, 1) from a
    let mut tracker: NeighborTracker<u32> = NeighborTracker::new();
    tracker.publish(v(4, 5, 6), b, Arc::new(77));
    tracker.init_cache(&index, b);
    tracker.publish(v(5, 5, 5), a, Arc::new(41));
    tracker.init_cache(&index, a);
    tracker.consume_events(&index);
    // a publishes a new datum: b's slot at the inverse offset holds it
    tracker.publish(v(5, 5, 5), a, Arc::new(42));
    tracker.consume_events(&index);
    let b_cache = tracker.snapshot_cache(&b).unwrap();
    let slot = b_cache.get_chunk(&[1, 0, -1]).as_ref().unwrap();
    assert_eq!(**slot, 42);
    // a's own middle slot tracked its datum too
    let a_cache = tracker.snapshot_cache(&a).unwrap();
    assert_eq!(*a_cache.get_middle(), 42);
    // a is destroyed: b's slot at the inverse offset becomes empty
    tracker.retire(v(5, 5, 5), a);
    tracker.consume_events(&index);
    let b_cache = tracker.snapshot_cache(&b).unwrap();
    assert!(b_cache.get_chunk(&[1, 0, -1]).is_none());
    assert!(tracker.snapshot_cache(&a).is_none());
}

#[test]
fn task_replacement_installs_only_second() {
    let mut tasks: ComputeTasks<&str> = ComputeTasks::new();
    let owner = ChunkId(3);
    let t1 = tasks.spawn_task(owner);
    let t2 = tasks.spawn_task(owner);
    assert_ne!(t1, t2);
    // the replaced task's result is discarded
    assert_eq!(tasks.finish_task(owner, t1, "first"), None);
    // the live task's result is installed and the entry cleared
    assert_eq!(tasks.finish_task(owner, t2, "second"), Some("second"));
    assert!(!tasks.has_task(&owner));
    assert_eq!(tasks.finish_task(owner, t2, "late"), None);
}

#[test]
fn task_cancelled_on_owner_destruction() {
    let mut tasks: ComputeTasks<u32> = ComputeTasks::new();
    let owner = ChunkId(9);
    let t = tasks.spawn_task(owner);
    tasks.kill_task(owner);
    assert!(!tasks.has_task(&owner));
    // a completion arriving after destruction installs nothing
    assert_eq!(tasks.finish_task(owner, t, 11), None);
}

#[test]
fn task_added_flags_drained() {
    let mut tasks: ComputeTasks<u32> = ComputeTasks::new();
    tasks.spawn_task(ChunkId(1));
    tasks.spawn_task(ChunkId(2));
    let added = tasks.take_added();
    assert_eq!(added, vec![1, 2]);
    assert!(tasks.take_added().is_empty());
    assert!(tasks.has_task(&ChunkId(1)));
}
