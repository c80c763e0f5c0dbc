//! The terrain pipeline: per-chunk state strictly ordered by data
//! dependency — position, height field, block volume, neighbor propagation,
//! mesh task, installed mesh — together with the world-wide structures the
//! stages share: the spatial index, the neighbor tracker for block volumes,
//! the task registry and the running quad total.
//!
//! The host loop drives the pipeline: it spawns and despawns chunks as
//! entities come and go, hands in height samples, and calls the pass
//! methods in their fixed order each tick — block derivation, event
//! propagation, task scheduling, task polling.

use vstd::prelude::*;

use std::collections::HashMap;
use std::sync::Arc;

use crate::coords::{ChunkId, ChunkPosition, Vec3i};
use crate::index::ChunkIndex;
use crate::mesh::{all_quads, get_quads, MeshingType, QuadCount, Quads};
use crate::neighborhood::Neighborhood;
use crate::spatial::SpatiallyMapped;
use crate::tasks::ComputeTasks;
use crate::tracker::{
    caches_after_update, caches_after_updates, init_slot, init_slots, slot_after_update,
    NeighborTracker, NeighborUpdate,
};
use crate::world_gen::{
    blocks_match_heights, chunk_pos_ok, generate_blocks, Blocks, HeightField,
};

verus! {

broadcast use vstd::std_specs::hash::group_hash_axioms;

/// The pipeline state of one chunk.
pub struct ChunkRecord {
    pub position: ChunkPosition,
    pub height_field: Option<HeightField>,
    pub blocks: Option<Arc<Blocks>>,
    pub quads: Option<Quads>,
    pub mesh_in_progress: bool,
}

/// A mesh computation that was spawned and has not been polled to
/// completion: the owning chunk, the task ticket, and the self-contained
/// snapshot of the owner's block neighborhood taken at spawn time.
pub struct PendingMesh {
    pub owner: ChunkId,
    pub ticket: u64,
    pub snapshot: Neighborhood<Blocks>,
}

/// Every populated slot of a cache-slot sequence holds a full volume.
pub open spec fn slots_contents_wf(s: Seq<Option<Arc<Blocks>>>) -> bool {
    forall|k: int| 0 <= k < s.len() ==> (#[trigger] s[k] matches Some(c) ==> (*c).spatial_wf())
}

/// The pending-mesh well-formedness clauses carry over unchanged queues.
proof fn lemma_pending_meshes_wf_carries(a: ChunkWorld, b: ChunkWorld)
    requires
        forall|e: int|
            0 <= e < a.pending_meshes().len() ==> {
                &&& (#[trigger] a.pending_meshes()[e]).snapshot.wf()
                &&& slots_contents_wf(a.pending_meshes()[e].snapshot.slots())
            },
        b.pending_meshes() == a.pending_meshes(),
    ensures
        forall|e: int|
            0 <= e < b.pending_meshes().len() ==> {
                &&& (#[trigger] b.pending_meshes()[e]).snapshot.wf()
                &&& slots_contents_wf(b.pending_meshes()[e].snapshot.slots())
            },
{
    assert forall|e: int| 0 <= e < b.pending_meshes().len() implies {
        &&& (#[trigger] b.pending_meshes()[e]).snapshot.wf()
        &&& slots_contents_wf(b.pending_meshes()[e].snapshot.slots())
    } by {
        assert(b.pending_meshes()[e] == a.pending_meshes()[e]);
    }
}

/// The world the pipeline maintains.
pub struct ChunkWorld {
    index: ChunkIndex,
    records: HashMap<u64, ChunkRecord>,
    tracker: NeighborTracker<Blocks>,
    tasks: ComputeTasks<Quads>,
    pending_mesh: Vec<PendingMesh>,
    quad_count: u64,
    next_id: u64,
}

impl ChunkWorld {
    /// The pipeline state of every live chunk.
    pub closed spec fn chunks(self) -> Map<u64, ChunkRecord> {
        self.records@
    }

    /// The spatial index.
    pub closed spec fn index_state(self) -> ChunkIndex {
        self.index
    }

    /// The neighbor tracker for block volumes.
    pub closed spec fn tracker_state(self) -> NeighborTracker<Blocks> {
        self.tracker
    }

    /// The task registry for mesh computations.
    pub closed spec fn tasks_state(self) -> ComputeTasks<Quads> {
        self.tasks
    }

    /// The spawned, unpolled mesh computations, oldest first.
    pub closed spec fn pending_meshes(self) -> Seq<PendingMesh> {
        self.pending_mesh@
    }

    /// The running total of installed quads.
    pub closed spec fn spec_quad_count(self) -> u64 {
        self.quad_count
    }

    /// The identity the next spawned chunk receives.
    pub closed spec fn spec_next_id(self) -> u64 {
        self.next_id
    }

    /// The world invariant: the shared structures are internally
    /// consistent, and they agree with one another chunk for chunk.
    pub open spec fn inv(self) -> bool {
        &&& self.index_state().inv()
        &&& self.tracker_state().inv()
        &&& self.tasks_state().inv()
        // chunk identities are handed out in order
        &&& forall|i: u64| #[trigger] self.chunks().contains_key(i) ==> i < self.spec_next_id()
        // a chunk is on record exactly while its coordinate is indexed
        &&& forall|i: u64|
            #[trigger] self.chunks().contains_key(i) <==> self.index_state().id_map().contains_key(
                ChunkId(i),
            )
        // the indexed coordinate is the record's, and it is in range
        &&& forall|i: u64|
            #[trigger] self.chunks().contains_key(i) ==> {
                &&& self.index_state().id_map()[ChunkId(i)] == self.chunks()[i].position.0
                &&& chunk_pos_ok(self.chunks()[i].position)
            }
        // a datum is published exactly for the chunks holding a block volume
        &&& forall|i: u64|
            #[trigger] self.tracker_state().published_map().contains_key(i) <==> (
            self.chunks().contains_key(i) && self.chunks()[i].blocks is Some)
        &&& forall|i: u64|
            #[trigger] self.chunks().contains_key(i) ==> (self.chunks()[i].blocks matches Some(b)
                ==> self.tracker_state().published_map()[i] == b && (*b).spatial_wf())
        // every cached snapshot is a full volume
        &&& forall|i: u64|
            #[trigger] self.tracker_state().cache_view().contains_key(i) ==> slots_contents_wf(
                self.tracker_state().cache_view()[i],
            )
        // so is every value still in flight in the event queue
        &&& forall|e: int|
            0 <= e < self.tracker_state().pending_events().len() ==> ((
            #[trigger] self.tracker_state().pending_events()[e]).value matches Some(c)
                ==> (*c).spatial_wf())
        // stored height fields are complete and bounded
        &&& forall|i: u64|
            #[trigger] self.chunks().contains_key(i) ==> (self.chunks()[i].height_field matches Some(
                h,
            ) ==> h.spatial_wf() && h.samples_ok())
        // a task's owner is always on record
        &&& forall|o: u64|
            #[trigger] self.tasks_state().task_map().contains_key(o)
                ==> self.chunks().contains_key(o)
        // mesh snapshots are well-formed, so the mesher accepts them
        &&& forall|e: int|
            0 <= e < self.pending_meshes().len() ==> {
                &&& (#[trigger] self.pending_meshes()[e]).snapshot.wf()
                &&& slots_contents_wf(self.pending_meshes()[e].snapshot.slots())
            }
    }

    pub fn new() -> (r: ChunkWorld)
        ensures
            r.inv(),
            r.chunks() == Map::<u64, ChunkRecord>::empty(),
            r.index_state().pos_map() == Map::<Vec3i, ChunkId>::empty(),
            r.tracker_state().published_map() == Map::<u64, Arc<Blocks>>::empty(),
            r.tracker_state().cache_view() == Map::<u64, Seq<Option<Arc<Blocks>>>>::empty(),
            r.tracker_state().pending_events() == Seq::<NeighborUpdate<Blocks>>::empty(),
            r.tasks_state().task_map() == Map::<u64, u64>::empty(),
            r.pending_meshes() == Seq::<PendingMesh>::empty(),
            r.spec_quad_count() == 0,
    {
        let r = ChunkWorld {
            index: ChunkIndex::new(),
            records: HashMap::new(),
            tracker: NeighborTracker::new(),
            tasks: ComputeTasks::new(),
            pending_mesh: Vec::new(),
            quad_count: 0,
            next_id: 0,
        };
        proof {
            assert(r.chunks() =~= Map::<u64, ChunkRecord>::empty());
            assert(r.pending_meshes() =~= Seq::<PendingMesh>::empty());
        }
        r
    }

    /// The identity of the chunk at a coordinate, if one is registered.
    pub fn chunk_at(&self, pos: &Vec3i) -> (r: Option<ChunkId>)
        ensures
            r == if self.index_state().pos_map().contains_key(*pos) {
                Some(self.index_state().pos_map()[*pos])
            } else {
                None::<ChunkId>
            },
    {
        self.index.get_entity(pos)
    }

    /// The coordinate of a chunk, if it is registered.
    pub fn position_of(&self, id: &ChunkId) -> (r: Option<Vec3i>)
        ensures
            r == if self.index_state().id_map().contains_key(*id) {
                Some(self.index_state().id_map()[*id])
            } else {
                None::<Vec3i>
            },
    {
        self.index.get_position(id)
    }

    /// Spawn a chunk at a free coordinate: the chunk is registered in the
    /// spatial index and starts its pipeline with no derived data. An
    /// occupied coordinate spawns nothing.
    pub fn spawn_chunk(&mut self, position: ChunkPosition) -> (r: Option<ChunkId>)
        requires
            old(self).inv(),
            chunk_pos_ok(position),
            old(self).spec_next_id() < u64::MAX,
        ensures
            final(self).inv(),
            old(self).index_state().pos_map().contains_key(position.0) ==> r is None && *final(self)
                == *old(self),
            !old(self).index_state().pos_map().contains_key(position.0) ==> {
                &&& r == Some(ChunkId(old(self).spec_next_id()))
                &&& final(self).spec_next_id() == old(self).spec_next_id() + 1
                &&& final(self).index_state().pos_map() == old(self).index_state().pos_map().insert(
                    position.0,
                    ChunkId(old(self).spec_next_id()),
                )
                &&& final(self).index_state().id_map() == old(self).index_state().id_map().insert(
                    ChunkId(old(self).spec_next_id()),
                    position.0,
                )
                &&& final(self).chunks() == old(self).chunks().insert(
                    old(self).spec_next_id(),
                    ChunkRecord {
                        position,
                        height_field: None,
                        blocks: None,
                        quads: None,
                        mesh_in_progress: false,
                    },
                )
                &&& final(self).tracker_state() == old(self).tracker_state()
                &&& final(self).tasks_state() == old(self).tasks_state()
                &&& final(self).pending_meshes() == old(self).pending_meshes()
                &&& final(self).spec_quad_count() == old(self).spec_quad_count()
            },
    {
        if self.index.get_entity(&position.0).is_some() {
            return None;
        }
        let id = ChunkId(self.next_id);
        proof {
            assert(!old(self).chunks().contains_key(id.0));
            assert(!old(self).index_state().id_map().contains_key(id));
        }
        self.next_id = self.next_id + 1;
        self.index.register(position.0, id);
        let record = ChunkRecord {
            position,
            height_field: None,
            blocks: None,
            quads: None,
            mesh_in_progress: false,
        };
        self.records.insert(id.0, record);
        proof {
            lemma_pending_meshes_wf_carries(*old(self), *self);
        }
        Some(id)
    }

    /// Hand in a chunk's height field, sampled by the host from the world
    /// noise generator at the chunk's horizontal world coordinates. Only a
    /// chunk still lacking its height field takes it; a notification for an
    /// unknown chunk is dropped.
    pub fn set_height_field(&mut self, id: ChunkId, heights: HeightField) -> (r: bool)
        requires
            old(self).inv(),
            heights.spatial_wf(),
            heights.samples_ok(),
        ensures
            final(self).inv(),
            r == (old(self).chunks().contains_key(id.0) && old(self).chunks()[id.0].height_field
                is None),
            r ==> final(self).chunks() == old(self).chunks().insert(
                id.0,
                ChunkRecord { height_field: Some(heights), ..old(self).chunks()[id.0] },
            ),
            !r ==> final(self).chunks() == old(self).chunks(),
            final(self).index_state() == old(self).index_state(),
            final(self).tracker_state() == old(self).tracker_state(),
            final(self).tasks_state() == old(self).tasks_state(),
            final(self).pending_meshes() == old(self).pending_meshes(),
            final(self).spec_quad_count() == old(self).spec_quad_count(),
            final(self).spec_next_id() == old(self).spec_next_id(),
    {
        match self.records.remove(&id.0) {
            None => {
                proof {
                    assert(self.chunks() =~= old(self).chunks());
                    lemma_pending_meshes_wf_carries(*old(self), *self);
                }
                false
            },
            Some(mut record) => {
                if record.height_field.is_some() {
                    self.records.insert(id.0, record);
                    proof {
                        assert(self.chunks() =~= old(self).chunks());
                        lemma_pending_meshes_wf_carries(*old(self), *self);
                    }
                    false
                } else {
                    record.height_field = Some(heights);
                    self.records.insert(id.0, record);
                    proof {
                        assert(self.chunks() =~= old(self).chunks().insert(
                            id.0,
                            ChunkRecord {
                                height_field: Some(heights),
                                ..old(self).chunks()[id.0]
                            },
                        ));
                        lemma_pending_meshes_wf_carries(*old(self), *self);
                    }
                    true
                }
            },
        }
    }

    /// Derive the block volume of a chunk whose height field is in and
    /// whose volume is still missing: the volume is classified from the
    /// height field, published to the neighbor tracker — queueing the
    /// notification that will redistribute it — and, the first time, the
    /// chunk's own neighbor cache is built from the current index.
    pub fn derive_blocks(&mut self, id: ChunkId) -> (r: bool)
        requires
            old(self).inv(),
        ensures
            final(self).inv(),
            r == (old(self).chunks().contains_key(id.0) && old(self).chunks()[id.0].height_field
                is Some && old(self).chunks()[id.0].blocks is None),
            !r ==> {
                &&& final(self).chunks() == old(self).chunks()
                &&& final(self).index_state() == old(self).index_state()
                &&& final(self).tracker_state() == old(self).tracker_state()
                &&& final(self).tasks_state() == old(self).tasks_state()
                &&& final(self).pending_meshes() == old(self).pending_meshes()
                &&& final(self).spec_quad_count() == old(self).spec_quad_count()
                &&& final(self).spec_next_id() == old(self).spec_next_id()
            },
            r ==> ({
                let rec = old(self).chunks()[id.0];
                &&& final(self).chunks().contains_key(id.0)
                &&& (final(self).chunks()[id.0].blocks matches Some(b) && {
                    &&& (*b).spatial_wf()
                    &&& (rec.height_field matches Some(h) ==> blocks_match_heights(
                        rec.position,
                        h.values(),
                        (*b).volume(),
                    ))
                    &&& final(self).chunks() == old(self).chunks().insert(
                        id.0,
                        ChunkRecord { blocks: Some(b), ..rec },
                    )
                    &&& final(self).tracker_state().published_map() == old(self).tracker_state().published_map().insert(id.0, b)
                    &&& final(self).tracker_state().pending_events() == old(self).tracker_state().pending_events().push(
                        NeighborUpdate { pos: rec.position.0, value: Some(b) },
                    )
                    &&& (old(self).tracker_state().cache_view().contains_key(id.0) ==> final(self).tracker_state().cache_view() == old(self).tracker_state().cache_view())
                    &&& (!old(self).tracker_state().cache_view().contains_key(id.0) ==> final(self).tracker_state().cache_view() == old(self).tracker_state().cache_view().insert(
                        id.0,
                        init_slots(
                            old(self).index_state().pos_map(),
                            old(self).tracker_state().published_map().insert(id.0, b),
                            rec.position.0,
                        ),
                    ))
                })
                &&& final(self).index_state() == old(self).index_state()
                &&& final(self).tasks_state() == old(self).tasks_state()
                &&& final(self).pending_meshes() == old(self).pending_meshes()
                &&& final(self).spec_quad_count() == old(self).spec_quad_count()
                &&& final(self).spec_next_id() == old(self).spec_next_id()
            }),
    {
        match self.records.remove(&id.0) {
            None => {
                proof {
                    assert(self.chunks() =~= old(self).chunks());
                    lemma_pending_meshes_wf_carries(*old(self), *self);
                }
                false
            },
            Some(mut record) => {
                if record.blocks.is_some() || record.height_field.is_none() {
                    self.records.insert(id.0, record);
                    proof {
                        assert(self.chunks() =~= old(self).chunks());
                        lemma_pending_meshes_wf_carries(*old(self), *self);
                    }
                    false
                } else {
                    let volume = match &record.height_field {
                        Some(heights) => generate_blocks(&record.position, heights),
                        None => vstd::pervasive::unreached(),
                    };
                    let b = Arc::new(volume);
                    record.blocks = Some(b.clone());
                    let position = record.position;
                    self.records.insert(id.0, record);
                    proof {
                        assert(self.chunks() =~= old(self).chunks().insert(
                            id.0,
                            ChunkRecord { blocks: Some(b), ..old(self).chunks()[id.0] },
                        ));
                    }
                    self.tracker.publish(position.0, id, b.clone());
                    let had_cache = self.tracker.has_cache(&id);
                    if !had_cache {
                        proof {
                            assert(self.index.id_map().contains_key(id));
                        }
                        self.tracker.init_cache(&self.index, id);
                        proof {
                            assert forall|i: u64|
                                #[trigger] self.tracker_state().cache_view().contains_key(
                                    i,
                                ) implies slots_contents_wf(self.tracker_state().cache_view()[i]) by {
                                if i == id.0 {
                                    let slots = self.tracker_state().cache_view()[i];
                                    assert forall|k: int| 0 <= k < slots.len() implies (
                                    #[trigger] slots[k] matches Some(c)
                                        ==> (*c).spatial_wf()) by {
                                        if slots[k] is Some {
                                            let pubmap = old(self).tracker_state().published_map().insert(id.0, b);
                                            assert(slots[k] == init_slot(
                                                old(self).index_state().pos_map(),
                                                pubmap,
                                                position.0,
                                                k,
                                            ));
                                        }
                                    }
                                } else {
                                    assert(old(self).tracker_state().cache_view().contains_key(i));
                                }
                            }
                        }
                    }
                    proof {
                        lemma_pending_meshes_wf_carries(*old(self), *self);
                    }
                    true
                }
            },
        }
    }

    /// Broadcast every queued datum notification to the neighbors' caches,
    /// in FIFO order: each notification overwrites one slot — the inverse
    /// offset of its source — in the cache of every existing neighbor, and
    /// each touched cache has its full-neighborhood view refreshed.
    pub fn propagate(&mut self)
        requires
            old(self).inv(),
        ensures
            final(self).inv(),
            final(self).tracker_state().cache_view() == caches_after_updates(
                old(self).tracker_state().cache_view(),
                old(self).index_state().pos_map(),
                old(self).tracker_state().pending_events(),
            ),
            final(self).tracker_state().pending_events() == Seq::<NeighborUpdate<Blocks>>::empty(),
            final(self).tracker_state().published_map() == old(self).tracker_state().published_map(),
            final(self).chunks() == old(self).chunks(),
            final(self).index_state() == old(self).index_state(),
            final(self).tasks_state() == old(self).tasks_state(),
            final(self).pending_meshes() == old(self).pending_meshes(),
            final(self).spec_quad_count() == old(self).spec_quad_count(),
            final(self).spec_next_id() == old(self).spec_next_id(),
    {
        proof {
            lemma_updates_preserve_wf(
                old(self).tracker_state().cache_view(),
                old(self).index_state().pos_map(),
                old(self).tracker_state().pending_events(),
            );
        }
        self.tracker.consume_events(&self.index);
        proof {
            lemma_pending_meshes_wf_carries(*old(self), *self);
        }
    }

    /// Take a self-contained snapshot of a chunk's neighbor cache and
    /// register a fresh mesh task for it, replacing — cancelling — any task
    /// the chunk already had. Nothing is scheduled for a chunk without a
    /// cache.
    pub fn schedule_mesh(&mut self, id: ChunkId) -> (r: bool)
        requires
            old(self).inv(),
            old(self).tasks_state().ticket_counter() < u64::MAX,
        ensures
            final(self).inv(),
            r == (old(self).chunks().contains_key(id.0)
                && old(self).tracker_state().cache_view().contains_key(id.0)),
            !r ==> *final(self) == *old(self),
            r ==> ({
                let t = old(self).tasks_state().ticket_counter();
                &&& final(self).tasks_state().task_map() == old(self).tasks_state().task_map().insert(id.0, t)
                &&& final(self).tasks_state().ticket_counter() == t + 1
                &&& final(self).tasks_state().added() == old(self).tasks_state().added().push(id.0)
                &&& final(self).pending_meshes().len() == old(self).pending_meshes().len() + 1
                &&& final(self).pending_meshes().subrange(
                    0,
                    old(self).pending_meshes().len() as int,
                ) == old(self).pending_meshes()
                &&& final(self).pending_meshes().last().owner == id
                &&& final(self).pending_meshes().last().ticket == t
                &&& final(self).pending_meshes().last().snapshot.slots() == old(self).tracker_state().cache_view()[id.0]
                &&& final(self).chunks() == old(self).chunks()
                &&& final(self).index_state() == old(self).index_state()
                &&& final(self).tracker_state() == old(self).tracker_state()
                &&& final(self).spec_quad_count() == old(self).spec_quad_count()
                &&& final(self).spec_next_id() == old(self).spec_next_id()
            }),
    {
        if !self.records.contains_key(&id.0) {
            return false;
        }
        match self.tracker.snapshot_cache(&id) {
            Some(snapshot) => {
                let ticket = self.tasks.spawn_task(id);
                self.pending_mesh.push(PendingMesh { owner: id, ticket, snapshot });
                proof {
                    assert forall|e: int| 0 <= e < self.pending_meshes().len() implies {
                        &&& (#[trigger] self.pending_meshes()[e]).snapshot.wf()
                        &&& slots_contents_wf(self.pending_meshes()[e].snapshot.slots())
                    } by {
                        if e < old(self).pending_meshes().len() {
                            assert(self.pending_meshes()[e] == old(self).pending_meshes()[e]);
                        } else {
                            assert(old(self).tracker_state().cache_view().contains_key(id.0));
                        }
                    }
                    assert(self.pending_meshes().subrange(
                        0,
                        old(self).pending_meshes().len() as int,
                    ) =~= old(self).pending_meshes());
                }
                true
            },
            None => false,
        }
    }

    /// Mark the chunks whose mesh task was spawned since the last pass as
    /// having a computation in progress.
    pub fn refresh_progress_flags(&mut self)
        requires
            old(self).inv(),
        ensures
            final(self).inv(),
            final(self).tasks_state().added() == Seq::<u64>::empty(),
            final(self).tasks_state().task_map() == old(self).tasks_state().task_map(),
            final(self).tasks_state().ticket_counter() == old(self).tasks_state().ticket_counter(),
            final(self).chunks().dom() == old(self).chunks().dom(),
            forall|i: u64|
                #[trigger] old(self).chunks().contains_key(i) ==> final(self).chunks()[i] == (if old(self).tasks_state().added().contains(i) {
                    ChunkRecord { mesh_in_progress: true, ..old(self).chunks()[i] }
                } else {
                    old(self).chunks()[i]
                }),
            final(self).index_state() == old(self).index_state(),
            final(self).tracker_state() == old(self).tracker_state(),
            final(self).pending_meshes() == old(self).pending_meshes(),
            final(self).spec_quad_count() == old(self).spec_quad_count(),
            final(self).spec_next_id() == old(self).spec_next_id(),
    {
        let owners = self.tasks.take_added();
        let ghost owners0 = owners@;
        let mut e: usize = 0;
        while e < owners.len()
            invariant
                e <= owners@.len(),
                owners@ == owners0,
                owners0 == old(self).tasks_state().added(),
                self.index_state() == old(self).index_state(),
                self.tracker_state() == old(self).tracker_state(),
                self.pending_meshes() == old(self).pending_meshes(),
                self.spec_quad_count() == old(self).spec_quad_count(),
                self.spec_next_id() == old(self).spec_next_id(),
                self.tasks_state().added() == Seq::<u64>::empty(),
                self.tasks_state().task_map() == old(self).tasks_state().task_map(),
                self.tasks_state().ticket_counter() == old(self).tasks_state().ticket_counter(),
                self.chunks().dom() == old(self).chunks().dom(),
                forall|i: u64|
                    #[trigger] old(self).chunks().contains_key(i) ==> self.chunks()[i] == (if
                    owners0.subrange(0, e as int).contains(i) {
                        ChunkRecord { mesh_in_progress: true, ..old(self).chunks()[i] }
                    } else {
                        old(self).chunks()[i]
                    }),
                old(self).inv(),
            decreases owners@.len() - e,
        {
            let ghost pre = self.chunks();
            let owner = owners[e];
            match self.records.remove(&owner) {
                Some(mut record) => {
                    record.mesh_in_progress = true;
                    self.records.insert(owner, record);
                },
                None => {
                    proof {
                        assert(self.chunks() =~= pre);
                    }
                },
            }
            proof {
                assert(owners0.subrange(0, e + 1) =~= owners0.subrange(0, e as int).push(
                    owners0[e as int],
                ));
                assert forall|i: u64| #[trigger] old(self).chunks().contains_key(i) implies self.chunks()[i]
                    == (if owners0.subrange(0, e + 1).contains(i) {
                    ChunkRecord { mesh_in_progress: true, ..old(self).chunks()[i] }
                } else {
                    old(self).chunks()[i]
                }) by {
                    vstd::seq_lib::lemma_seq_contains_after_push(
                        owners0.subrange(0, e as int),
                        owners0[e as int],
                        i,
                    );
                    if i != owner {
                        assert(self.chunks()[i] == pre[i]);
                    } else {
                        assert(owners0.subrange(0, e + 1).contains(i));
                        assert(pre[i] == (if owners0.subrange(0, e as int).contains(i) {
                            ChunkRecord { mesh_in_progress: true, ..old(self).chunks()[i] }
                        } else {
                            old(self).chunks()[i]
                        }));
                    }
                }
            }
            e = e + 1;
        }
        proof {
            assert(owners0.subrange(0, owners0.len() as int) =~= owners0);
            assert forall|i: u64| #[trigger] self.chunks().contains_key(i) implies i < self.spec_next_id() by {
                assert(old(self).chunks().contains_key(i));
            }
            inv_helper_records_carry(*old(self), *self);
            lemma_pending_meshes_wf_carries(*old(self), *self);
        }
    }

    /// Poll the oldest spawned computation: its mesh is computed from its
    /// self-contained snapshot, and installed on the owner exactly when its
    /// ticket is still the owner's task on record. The result of a task
    /// that was replaced, or whose owner was destroyed, is discarded —
    /// nothing is ever installed for a destroyed owner. Installing a mesh
    /// replaces the owner's previous one in the running quad total.
    pub fn run_one_task(&mut self) -> (r: bool)
        requires
            old(self).inv(),
        ensures
            final(self).inv(),
            r == (old(self).pending_meshes().len() > 0),
            !r ==> *final(self) == *old(self),
            r ==> ({
                let pm = old(self).pending_meshes()[0];
                let live = old(self).tasks_state().task_map().contains_key(pm.owner.0) && old(self).tasks_state().task_map()[pm.owner.0] == pm.ticket;
                &&& final(self).pending_meshes() == old(self).pending_meshes().subrange(
                    1,
                    old(self).pending_meshes().len() as int,
                )
                &&& final(self).index_state() == old(self).index_state()
                &&& final(self).tracker_state() == old(self).tracker_state()
                &&& final(self).tasks_state().added() == old(self).tasks_state().added()
                &&& final(self).tasks_state().ticket_counter() == old(self).tasks_state().ticket_counter()
                &&& final(self).spec_next_id() == old(self).spec_next_id()
                &&& (!live ==> {
                    &&& final(self).chunks() == old(self).chunks()
                    &&& final(self).tasks_state().task_map() == old(self).tasks_state().task_map()
                    &&& final(self).spec_quad_count() == old(self).spec_quad_count()
                })
                &&& (live ==> {
                    &&& final(self).tasks_state().task_map() == old(self).tasks_state().task_map().remove(pm.owner.0)
                    &&& final(self).chunks().dom() == old(self).chunks().dom()
                    &&& (forall|i: u64|
                        #[trigger] old(self).chunks().contains_key(i) && i != pm.owner.0 ==> final(self).chunks()[i] == old(self).chunks()[i])
                    &&& (final(self).chunks()[pm.owner.0].quads matches Some(q) && q.0@
                        == all_quads(pm.snapshot) && final(self).spec_quad_count() == count_more(
                        count_less(
                            old(self).spec_quad_count(),
                            spec_quads_len(old(self).chunks()[pm.owner.0].quads),
                        ),
                        q.0@.len() as int,
                    ))
                    &&& final(self).chunks()[pm.owner.0].mesh_in_progress == false
                    &&& final(self).chunks()[pm.owner.0].position == old(self).chunks()[pm.owner.0].position
                    &&& final(self).chunks()[pm.owner.0].height_field == old(self).chunks()[pm.owner.0].height_field
                    &&& final(self).chunks()[pm.owner.0].blocks == old(self).chunks()[pm.owner.0].blocks
                })
            }),
    {
        if self.pending_mesh.is_empty() {
            return false;
        }
        let pm = self.pending_mesh.remove(0);
        let ghost pm0 = pm;
        proof {
            assert(old(self).pending_meshes()[0].snapshot.wf());
            assert(slots_contents_wf(old(self).pending_meshes()[0].snapshot.slots()));
        }
        let owner = pm.owner;
        let ticket = pm.ticket;
        let quads = get_quads(pm.snapshot, MeshingType::Naive);
        match self.tasks.finish_task(owner, ticket, quads) {
            None => {
                proof {
                    lemma_pending_meshes_shift(*old(self), *self);
                }
                true
            },
            Some(q) => {
                match self.records.remove(&owner.0) {
                    None => vstd::pervasive::unreached(),
                    Some(mut record) => {
                        let removed: u64 = match &record.quads {
                            Some(qq) => qq.0.len() as u64,
                            None => 0,
                        };
                        if self.quad_count >= removed {
                            self.quad_count = self.quad_count - removed;
                        } else {
                            self.quad_count = 0;
                        }
                        let added: u64 = q.0.len() as u64;
                        if self.quad_count <= u64::MAX - added {
                            self.quad_count = self.quad_count + added;
                        } else {
                            self.quad_count = u64::MAX;
                        }
                        record.quads = Some(q);
                        record.mesh_in_progress = false;
                        self.records.insert(owner.0, record);
                        proof {
                            assert(self.chunks().dom() =~= old(self).chunks().dom());
                            assert forall|i: u64| #[trigger] self.chunks().contains_key(
                                i,
                            ) implies i < self.spec_next_id() by {
                                assert(old(self).chunks().contains_key(i));
                            }
                            inv_helper_records_carry(*old(self), *self);
                            lemma_pending_meshes_shift(*old(self), *self);
                        }
                        true
                    },
                }
            },
        }
    }

    /// Remove a destroyed chunk from the world: its index entries are
    /// evicted, its published datum is retired — queueing the notification
    /// that clears its slot in every neighbor's cache — its in-flight task
    /// is cancelled, its quads leave the running total, and its record is
    /// dropped. A notification for a chunk that was never registered is
    /// logged by the host and ignored here.
    pub fn despawn_chunk(&mut self, id: ChunkId) -> (r: bool)
        requires
            old(self).inv(),
        ensures
            final(self).inv(),
            r == old(self).index_state().id_map().contains_key(id),
            !r ==> {
                &&& final(self).chunks() == old(self).chunks()
                &&& final(self).index_state().pos_map() == old(self).index_state().pos_map()
                &&& final(self).index_state().id_map() == old(self).index_state().id_map()
                &&& final(self).tracker_state() == old(self).tracker_state()
                &&& final(self).tasks_state() == old(self).tasks_state()
                &&& final(self).pending_meshes() == old(self).pending_meshes()
                &&& final(self).spec_quad_count() == old(self).spec_quad_count()
                &&& final(self).spec_next_id() == old(self).spec_next_id()
            },
            r ==> ({
                let pos = old(self).index_state().id_map()[id];
                &&& final(self).index_state().pos_map() == old(self).index_state().pos_map().remove(
                    pos,
                )
                &&& final(self).index_state().id_map() == old(self).index_state().id_map().remove(
                    id,
                )
                &&& final(self).chunks() == old(self).chunks().remove(id.0)
                &&& final(self).tracker_state().published_map() == old(self).tracker_state().published_map().remove(id.0)
                &&& final(self).tracker_state().cache_view() == old(self).tracker_state().cache_view().remove(id.0)
                &&& final(self).tracker_state().full_view() == old(self).tracker_state().full_view().remove(id.0)
                &&& final(self).tracker_state().pending_events() == old(self).tracker_state().pending_events().push(NeighborUpdate { pos, value: None })
                &&& final(self).tasks_state().task_map() == old(self).tasks_state().task_map().remove(id.0)
                &&& final(self).spec_quad_count() == count_less(
                    old(self).spec_quad_count(),
                    spec_quads_len(old(self).chunks()[id.0].quads),
                )
                &&& final(self).pending_meshes() == old(self).pending_meshes()
                &&& final(self).spec_next_id() == old(self).spec_next_id()
            }),
    {
        match self.index.unregister(id) {
            None => {
                proof {
                    assert(self.chunks() =~= old(self).chunks());
                    assert(self.tracker_state() == old(self).tracker_state());
                    assert(self.tasks_state() == old(self).tasks_state());
                    lemma_pending_meshes_wf_carries(*old(self), *self);
                }
                false
            },
            Some(pos) => {
                proof {
                    assert(old(self).chunks().contains_key(id.0));
                    assert(chunk_pos_ok(old(self).chunks()[id.0].position));
                    assert(pos == old(self).chunks()[id.0].position.0);
                }
                self.tracker.retire(pos, id);
                self.tasks.kill_task(id);
                match self.records.remove(&id.0) {
                    None => vstd::pervasive::unreached(),
                    Some(record) => {
                        let removed: u64 = match &record.quads {
                            Some(qq) => qq.0.len() as u64,
                            None => 0,
                        };
                        if self.quad_count >= removed {
                            self.quad_count = self.quad_count - removed;
                        } else {
                            self.quad_count = 0;
                        }
                        proof {
                            assert(self.chunks() =~= old(self).chunks().remove(id.0));
                            assert forall|i: u64| #[trigger] self.chunks().contains_key(
                                i,
                            ) implies i < self.spec_next_id() by {
                                assert(old(self).chunks().contains_key(i));
                            }
                            assert forall|i: u64| #[trigger] self.chunks().contains_key(
                                i,
                            ) implies self.index_state().id_map().contains_key(ChunkId(i)) by {
                                assert(old(self).chunks().contains_key(i));
                                assert(ChunkId(i) != id);
                            }
                            assert forall|i: u64|
                                self.index_state().id_map().contains_key(
                                    ChunkId(i),
                                ) implies #[trigger] self.chunks().contains_key(i) by {
                                assert(old(self).index_state().id_map().contains_key(ChunkId(i)));
                                assert(ChunkId(i) != id);
                                assert(old(self).chunks().contains_key(i));
                                assert(i != id.0);
                            }
                            assert forall|i: u64| #[trigger] self.chunks().contains_key(
                                i,
                            ) implies {
                                &&& self.index_state().id_map()[ChunkId(i)]
                                    == self.chunks()[i].position.0
                                &&& chunk_pos_ok(self.chunks()[i].position)
                            } by {
                                assert(old(self).chunks().contains_key(i));
                                assert(ChunkId(i) != id);
                            }
                            assert forall|i: u64|
                                #[trigger] self.tracker_state().published_map().contains_key(
                                    i,
                                ) implies (self.chunks().contains_key(i) && self.chunks()[i].blocks
                                is Some) by {
                                assert(old(self).tracker_state().published_map().contains_key(i));
                                assert(i != id.0);
                            }
                            assert forall|i: u64|
                                self.chunks().contains_key(i) && self.chunks()[i].blocks
                                    is Some implies #[trigger] self.tracker_state().published_map().contains_key(
                                i,
                            ) by {
                                assert(old(self).chunks().contains_key(i));
                                assert(i != id.0);
                            }
                            assert forall|i: u64| #[trigger] self.chunks().contains_key(
                                i,
                            ) implies (self.chunks()[i].blocks matches Some(bb)
                                ==> self.tracker_state().published_map()[i] == bb
                                && (*bb).spatial_wf()) by {
                                assert(old(self).chunks().contains_key(i));
                                assert(i != id.0);
                            }
                            assert forall|i: u64|
                                #[trigger] self.tracker_state().cache_view().contains_key(
                                    i,
                                ) implies slots_contents_wf(
                                self.tracker_state().cache_view()[i],
                            ) by {
                                assert(old(self).tracker_state().cache_view().contains_key(i));
                                assert(self.tracker_state().cache_view()[i] == old(
                                    self,
                                ).tracker_state().cache_view()[i]);
                            }
                            assert forall|e: int|
                                0 <= e < self.tracker_state().pending_events().len() implies ((
                            #[trigger] self.tracker_state().pending_events()[e]).value matches Some(
                                c,
                            ) ==> (*c).spatial_wf()) by {
                                if e < old(self).tracker_state().pending_events().len() {
                                    assert(self.tracker_state().pending_events()[e] == old(
                                        self,
                                    ).tracker_state().pending_events()[e]);
                                }
                            }
                            assert forall|i: u64| #[trigger] self.chunks().contains_key(
                                i,
                            ) implies (self.chunks()[i].height_field matches Some(h)
                                ==> h.spatial_wf() && h.samples_ok()) by {
                                assert(old(self).chunks().contains_key(i));
                            }
                            assert forall|o: u64|
                                #[trigger] self.tasks_state().task_map().contains_key(
                                    o,
                                ) implies self.chunks().contains_key(o) by {
                                assert(old(self).tasks_state().task_map().contains_key(o));
                                assert(o != id.0);
                            }
                            lemma_pending_meshes_wf_carries(*old(self), *self);
                        }
                        true
                    },
                }
            },
        }
    }

    /// The running total of installed quads.
    pub fn quad_total(&self) -> (r: QuadCount)
        ensures
            r.0 == self.spec_quad_count(),
    {
        QuadCount(self.quad_count)
    }

    /// Whether a chunk currently holds its derived block volume.
    pub fn has_block_volume(&self, id: &ChunkId) -> (r: bool)
        ensures
            r == (self.chunks().contains_key(id.0) && self.chunks()[id.0].blocks is Some),
    {
        match self.records.get(&id.0) {
            Some(record) => record.blocks.is_some(),
            None => false,
        }
    }

    /// Whether a chunk currently publishes a full-neighborhood view of its
    /// block-volume cache.
    pub fn has_full_neighborhood(&self, id: &ChunkId) -> (r: bool)
        ensures
            r == self.tracker_state().full_view().contains_key(id.0),
    {
        self.tracker.has_full(id)
    }

    /// A chunk's installed mesh, if one has been installed.
    pub fn quads_of(&self, id: &ChunkId) -> (r: Option<&Quads>)
        ensures
            r is Some <==> (self.chunks().contains_key(id.0) && self.chunks()[id.0].quads is Some),
            r matches Some(q) ==> self.chunks()[id.0].quads matches Some(q2) && *q == q2,
    {
        match self.records.get(&id.0) {
            Some(record) => match &record.quads {
                Some(q) => Some(q),
                None => None,
            },
            None => None,
        }
    }
}

/// The number of quads in an installed mesh; none counts as zero.
pub open spec fn spec_quads_len(q: Option<Quads>) -> int {
    match q {
        Some(qq) => qq.0@.len() as int,
        None => 0,
    }
}

/// A running total decreased by `n`, stopping at zero.
pub open spec fn count_less(c: u64, n: int) -> u64 {
    if n <= c {
        (c - n) as u64
    } else {
        0
    }
}

/// A running total increased by `n`, stopping at the counter's limit.
pub open spec fn count_more(c: u64, n: int) -> u64 {
    if c + n <= u64::MAX {
        (c + n) as u64
    } else {
        u64::MAX
    }
}

/// One broadcast step only moves published values into slots, so slot
/// well-formedness survives it.
proof fn lemma_update_preserves_wf(
    cv: Map<u64, Seq<Option<Arc<Blocks>>>>,
    posmap: Map<Vec3i, ChunkId>,
    ev: NeighborUpdate<Blocks>,
)
    requires
        forall|i: u64|
            #[trigger] cv.contains_key(i) ==> cv[i].len() == 27 && slots_contents_wf(cv[i]),
        ev.value matches Some(c) ==> (*c).spatial_wf(),
    ensures
        forall|i: u64|
            #[trigger] caches_after_update(cv, posmap, ev).contains_key(i) ==> caches_after_update(
                cv,
                posmap,
                ev,
            )[i].len() == 27 && slots_contents_wf(caches_after_update(cv, posmap, ev)[i]),
        caches_after_update(cv, posmap, ev).dom() == cv.dom(),
{
    let after = caches_after_update(cv, posmap, ev);
    assert(after.dom() =~= cv.dom());
    assert forall|i: u64| #[trigger] after.contains_key(i) implies after[i].len() == 27
        && slots_contents_wf(after[i]) by {
        assert(cv.contains_key(i));
        assert forall|k: int| 0 <= k < after[i].len() implies (#[trigger] after[i][k] matches Some(
            c,
        ) ==> (*c).spatial_wf()) by {
            assert(after[i][k] == slot_after_update(cv[i], posmap, ev, i, k));
            if after[i][k] != ev.value {
                assert(after[i][k] == cv[i][k]);
            }
        }
    }
}

/// Broadcasting any queue of updates keeps every slot well-formed.
proof fn lemma_updates_preserve_wf(
    cv: Map<u64, Seq<Option<Arc<Blocks>>>>,
    posmap: Map<Vec3i, ChunkId>,
    evs: Seq<NeighborUpdate<Blocks>>,
)
    requires
        forall|i: u64|
            #[trigger] cv.contains_key(i) ==> cv[i].len() == 27 && slots_contents_wf(cv[i]),
        forall|e: int|
            0 <= e < evs.len() ==> ((#[trigger] evs[e]).value matches Some(c)
                ==> (*c).spatial_wf()),
    ensures
        forall|i: u64|
            #[trigger] caches_after_updates(cv, posmap, evs).contains_key(i)
                ==> caches_after_updates(cv, posmap, evs)[i].len() == 27 && slots_contents_wf(
                caches_after_updates(cv, posmap, evs)[i],
            ),
    decreases evs.len(),
{
    if evs.len() == 0 {
        assert(caches_after_updates(cv, posmap, evs) == cv);
    } else {
        lemma_update_preserves_wf(cv, posmap, evs[0]);
        let cv1 = caches_after_update(cv, posmap, evs[0]);
        let tail = evs.subrange(1, evs.len() as int);
        assert forall|e: int| 0 <= e < tail.len() implies ((#[trigger] tail[e]).value matches Some(
            c,
        ) ==> (*c).spatial_wf()) by {
            assert(tail[e] == evs[e + 1]);
        }
        lemma_updates_preserve_wf(cv1, posmap, tail);
        assert(caches_after_updates(cv, posmap, evs) == caches_after_updates(cv1, posmap, tail));
    }
}

/// Helper: the record-keyed invariant clauses carry over a change that
/// keeps each record's position, height field and blocks.
proof fn inv_helper_records_carry(a: ChunkWorld, b: ChunkWorld)
    requires
        a.inv(),
        b.index_state() == a.index_state(),
        b.tracker_state() == a.tracker_state(),
        forall|i: u64| #[trigger] b.chunks().contains_key(i) ==> a.chunks().contains_key(i),
        forall|i: u64|
            #[trigger] b.chunks().contains_key(i) ==> {
                &&& b.chunks()[i].position == a.chunks()[i].position
                &&& b.chunks()[i].height_field == a.chunks()[i].height_field
                &&& b.chunks()[i].blocks == a.chunks()[i].blocks
            },
        forall|i: u64| #[trigger] a.chunks().contains_key(i) ==> b.chunks().contains_key(i),
    ensures
        forall|i: u64|
            #[trigger] b.chunks().contains_key(i) <==> b.index_state().id_map().contains_key(
                ChunkId(i),
            ),
        forall|i: u64|
            #[trigger] b.chunks().contains_key(i) ==> {
                &&& b.index_state().id_map()[ChunkId(i)] == b.chunks()[i].position.0
                &&& chunk_pos_ok(b.chunks()[i].position)
            },
        forall|i: u64|
            #[trigger] b.tracker_state().published_map().contains_key(i) <==> (
            b.chunks().contains_key(i) && b.chunks()[i].blocks is Some),
        forall|i: u64|
            #[trigger] b.chunks().contains_key(i) ==> (b.chunks()[i].blocks matches Some(bb)
                ==> b.tracker_state().published_map()[i] == bb && (*bb).spatial_wf()),
        forall|i: u64|
            #[trigger] b.chunks().contains_key(i) ==> (b.chunks()[i].height_field matches Some(h)
                ==> h.spatial_wf() && h.samples_ok()),
{
    assert forall|i: u64| #[trigger] b.chunks().contains_key(i) implies b.index_state().id_map().contains_key(
        ChunkId(i),
    ) by {
        assert(a.chunks().contains_key(i));
    }
    assert forall|i: u64|
        b.index_state().id_map().contains_key(ChunkId(i)) implies #[trigger] b.chunks().contains_key(
        i,
    ) by {
        assert(a.index_state().id_map().contains_key(ChunkId(i)));
        assert(a.chunks().contains_key(i));
    }
    assert forall|i: u64| #[trigger] b.chunks().contains_key(i) implies {
        &&& b.index_state().id_map()[ChunkId(i)] == b.chunks()[i].position.0
        &&& chunk_pos_ok(b.chunks()[i].position)
    } by {
        assert(a.chunks().contains_key(i));
        assert(b.chunks()[i].position == a.chunks()[i].position);
    }
    assert forall|i: u64|
        #[trigger] b.tracker_state().published_map().contains_key(i) implies (
    b.chunks().contains_key(i) && b.chunks()[i].blocks is Some) by {
        assert(a.tracker_state().published_map().contains_key(i));
        assert(a.chunks().contains_key(i) && a.chunks()[i].blocks is Some);
        assert(b.chunks()[i].blocks == a.chunks()[i].blocks);
    }
    assert forall|i: u64|
        b.chunks().contains_key(i) && b.chunks()[i].blocks is Some implies #[trigger] b.tracker_state().published_map().contains_key(
        i,
    ) by {
        assert(a.chunks().contains_key(i));
        assert(a.chunks()[i].blocks == b.chunks()[i].blocks);
        assert(a.tracker_state().published_map().contains_key(i));
    }
    assert forall|i: u64| #[trigger] b.chunks().contains_key(i) implies (b.chunks()[i].blocks
        matches Some(bb) ==> b.tracker_state().published_map()[i] == bb && (*bb).spatial_wf()) by {
        assert(a.chunks().contains_key(i));
        assert(b.chunks()[i].blocks == a.chunks()[i].blocks);
    }
    assert forall|i: u64| #[trigger] b.chunks().contains_key(i) implies (b.chunks()[i].height_field
        matches Some(h) ==> h.spatial_wf() && h.samples_ok()) by {
        assert(a.chunks().contains_key(i));
    }
}

/// The pending-mesh clauses carry over dropping the queue's head.
proof fn lemma_pending_meshes_shift(a: ChunkWorld, b: ChunkWorld)
    requires
        forall|e: int|
            0 <= e < a.pending_meshes().len() ==> {
                &&& (#[trigger] a.pending_meshes()[e]).snapshot.wf()
                &&& slots_contents_wf(a.pending_meshes()[e].snapshot.slots())
            },
        a.pending_meshes().len() > 0,
        b.pending_meshes() == a.pending_meshes().subrange(1, a.pending_meshes().len() as int),
    ensures
        forall|e: int|
            0 <= e < b.pending_meshes().len() ==> {
                &&& (#[trigger] b.pending_meshes()[e]).snapshot.wf()
                &&& slots_contents_wf(b.pending_meshes()[e].snapshot.slots())
            },
{
    assert forall|e: int| 0 <= e < b.pending_meshes().len() implies {
        &&& (#[trigger] b.pending_meshes()[e]).snapshot.wf()
        &&& slots_contents_wf(b.pending_meshes()[e].snapshot.slots())
    } by {
        assert(b.pending_meshes()[e] == a.pending_meshes()[e + 1]);
    }
}

} // verus!
