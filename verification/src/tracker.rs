//! Change propagation for neighbor caches: per-chunk published snapshots,
//! a FIFO queue of datum-change notifications, and the broadcast that keeps
//! every neighbor's cache slot and full-neighborhood view up to date.

use vstd::prelude::*;

use std::collections::HashMap;
use std::sync::Arc;

use crate::coords::{ChunkId, Vec3i};
use crate::index::ChunkIndex;
use crate::neighborhood::{offset_index, FullNeighborhood, Neighborhood};

verus! {

broadcast use vstd::std_specs::hash::group_hash_axioms;

/// A queued datum-change notification: the chunk at `pos` now publishes
/// `value`, or publishes nothing when `value` is `None`.
pub struct NeighborUpdate<T> {
    pub pos: Vec3i,
    pub value: Option<Arc<T>>,
}

/// Positions an event may carry: room for one step in every direction.
pub open spec fn event_pos_ok(p: Vec3i) -> bool {
    &&& i32::MIN < p.x < i32::MAX
    &&& i32::MIN < p.y < i32::MAX
    &&& i32::MIN < p.z < i32::MAX
}

/// `p` offset by (dx, dy, dz), each component wrapping as 32-bit addition.
pub open spec fn offset_pos(p: Vec3i, dx: int, dy: int, dz: int) -> Vec3i {
    Vec3i { x: (p.x + dx) as i32, y: (p.y + dy) as i32, z: (p.z + dz) as i32 }
}

/// The slot a cache owned by chunk `i` holds at index `k` once the update
/// `ev` has been broadcast: the inverse-offset slot of the event's source
/// chunk is overwritten with the event's value, all others are kept.
pub open spec fn slot_after_update<T>(
    slots: Seq<Option<Arc<T>>>,
    posmap: Map<Vec3i, ChunkId>,
    ev: NeighborUpdate<T>,
    i: u64,
    k: int,
) -> Option<Arc<T>> {
    let sx = k % 3 - 1;
    let sy = (k / 3) % 3 - 1;
    let sz = k / 9 - 1;
    let source = offset_pos(ev.pos, -sx, -sy, -sz);
    if posmap.contains_key(source) && posmap[source].0 == i {
        ev.value
    } else {
        slots[k]
    }
}

/// All 27 slots of one cache after the update `ev` has been broadcast.
pub open spec fn cache_slots_after_update<T>(
    slots: Seq<Option<Arc<T>>>,
    posmap: Map<Vec3i, ChunkId>,
    ev: NeighborUpdate<T>,
    i: u64,
) -> Seq<Option<Arc<T>>> {
    Seq::new(27, |k: int| slot_after_update(slots, posmap, ev, i, k))
}

/// Every tracked cache after the update `ev` has been broadcast.
pub open spec fn caches_after_update<T>(
    cv: Map<u64, Seq<Option<Arc<T>>>>,
    posmap: Map<Vec3i, ChunkId>,
    ev: NeighborUpdate<T>,
) -> Map<u64, Seq<Option<Arc<T>>>> {
    Map::new(
        |i: u64| cv.contains_key(i),
        |i: u64| cache_slots_after_update(cv[i], posmap, ev, i),
    )
}

/// Every tracked cache after a queue of updates has been broadcast in FIFO
/// order.
pub open spec fn caches_after_updates<T>(
    cv: Map<u64, Seq<Option<Arc<T>>>>,
    posmap: Map<Vec3i, ChunkId>,
    evs: Seq<NeighborUpdate<T>>,
) -> Map<u64, Seq<Option<Arc<T>>>>
    decreases evs.len(),
{
    if evs.len() == 0 {
        cv
    } else {
        caches_after_updates(
            caches_after_update(cv, posmap, evs[0]),
            posmap,
            evs.subrange(1, evs.len() as int),
        )
    }
}

/// The slot a fresh cache for a chunk at `pos` holds at index `k`: the
/// published datum of the chunk at the slot's relative offset, if both the
/// chunk and its datum exist.
pub open spec fn init_slot<T>(
    posmap: Map<Vec3i, ChunkId>,
    published: Map<u64, Arc<T>>,
    pos: Vec3i,
    k: int,
) -> Option<Arc<T>> {
    let dx = k % 3 - 1;
    let dy = (k / 3) % 3 - 1;
    let dz = k / 9 - 1;
    let npos = offset_pos(pos, dx, dy, dz);
    if posmap.contains_key(npos) && published.contains_key(posmap[npos].0) {
        Some(published[posmap[npos].0])
    } else {
        None
    }
}

/// All 27 slots of a fresh cache for a chunk at `pos`.
pub open spec fn init_slots<T>(
    posmap: Map<Vec3i, ChunkId>,
    published: Map<u64, Arc<T>>,
    pos: Vec3i,
) -> Seq<Option<Arc<T>>> {
    Seq::new(27, |k: int| init_slot(posmap, published, pos, k))
}

/// All 27 slots are populated.
pub open spec fn slots_full<T>(s: Seq<Option<Arc<T>>>) -> bool {
    forall|k: int| 0 <= k < 27 ==> s[k] is Some
}

/// Broadcasting an update is symmetric: when the chunk at relative offset
/// (dx, dy, dz) from a cached chunk `b` publishes a datum, `b`'s slot at the
/// inverse offset (-dx, -dy, -dz) holds exactly that datum — the published
/// value, or empty when the source chunk was destroyed.
pub proof fn lemma_propagation_symmetry<T>(
    cv: Map<u64, Seq<Option<Arc<T>>>>,
    posmap: Map<Vec3i, ChunkId>,
    ev: NeighborUpdate<T>,
    dx: int,
    dy: int,
    dz: int,
    b: u64,
)
    requires
        event_pos_ok(ev.pos),
        -1 <= dx <= 1,
        -1 <= dy <= 1,
        -1 <= dz <= 1,
        posmap.contains_key(offset_pos(ev.pos, dx, dy, dz)),
        posmap[offset_pos(ev.pos, dx, dy, dz)].0 == b,
        cv.contains_key(b),
    ensures
        caches_after_update(cv, posmap, ev)[b][offset_index(-dx, -dy, -dz)] == ev.value,
{
    let k = offset_index(-dx, -dy, -dz);
    assert(k % 3 - 1 == -dx);
    assert((k / 3) % 3 - 1 == -dy);
    assert(k / 9 - 1 == -dz);
}

/// Full-neighborhood correctness: on any consistent tracker state, a chunk
/// publishes a full-neighborhood view exactly when its cache exists and all
/// 27 of its slots are populated — and since every operation of the
/// protocol preserves consistency, this holds after any slot transition.
pub proof fn lemma_full_neighborhood_signal<T>(t: NeighborTracker<T>, i: u64)
    requires
        t.inv(),
    ensures
        t.full_view().contains_key(i) <==> (t.cache_view().contains_key(i) && slots_full(
            t.cache_view()[i],
        )),
{
}

/// Per tracked datum type, the state of the neighbor-cache protocol: the
/// published snapshot of each chunk's datum, each chunk's neighbor cache,
/// the caches' full-neighborhood views, and the queue of notifications not
/// yet broadcast.
pub struct NeighborTracker<T> {
    published: HashMap<u64, Arc<T>>,
    caches: HashMap<u64, Neighborhood<T>>,
    fulls: HashMap<u64, FullNeighborhood<T>>,
    pending: Vec<NeighborUpdate<T>>,
}

impl<T> NeighborTracker<T> {
    /// The published datum of each chunk that currently publishes one.
    pub closed spec fn published_map(self) -> Map<u64, Arc<T>> {
        self.published@
    }

    /// The slots of each chunk's neighbor cache.
    pub closed spec fn cache_view(self) -> Map<u64, Seq<Option<Arc<T>>>> {
        Map::new(|i: u64| self.caches@.contains_key(i), |i: u64| self.caches@[i].slots())
    }

    /// The snapshots of each published full-neighborhood view.
    pub closed spec fn full_view(self) -> Map<u64, Seq<Arc<T>>> {
        Map::new(|i: u64| self.fulls@.contains_key(i), |i: u64| self.fulls@[i].slots())
    }

    /// The queued notifications, oldest first.
    pub closed spec fn pending_events(self) -> Seq<NeighborUpdate<T>> {
        self.pending@
    }

    /// Protocol invariant. A full-neighborhood view is present exactly for
    /// the caches whose 27 slots are all populated, and mirrors their slots.
    pub open spec fn inv(self) -> bool {
        &&& forall|i: u64|
            #[trigger] self.cache_view().contains_key(i) ==> self.cache_view()[i].len() == 27
        &&& forall|i: u64|
            #[trigger] self.full_view().contains_key(i) ==> self.cache_view().contains_key(i)
                && slots_full(self.cache_view()[i])
        &&& forall|i: u64|
            #[trigger] self.cache_view().contains_key(i) && slots_full(self.cache_view()[i])
                ==> self.full_view().contains_key(i)
        &&& forall|i: u64|
            #[trigger] self.full_view().contains_key(i) ==> self.full_view()[i].len() == 27 && (
            forall|k: int|
                0 <= k < 27 ==> self.cache_view()[i][k] == Some(
                    #[trigger] self.full_view()[i][k],
                ))
        &&& forall|e: int|
            0 <= e < self.pending_events().len() ==> event_pos_ok(
                (#[trigger] self.pending_events()[e]).pos,
            )
    }

    pub fn new() -> (r: Self)
        ensures
            r.inv(),
            r.published_map() == Map::<u64, Arc<T>>::empty(),
            r.cache_view() == Map::<u64, Seq<Option<Arc<T>>>>::empty(),
            r.full_view() == Map::<u64, Seq<Arc<T>>>::empty(),
            r.pending_events() == Seq::<NeighborUpdate<T>>::empty(),
    {
        let r = NeighborTracker {
            published: HashMap::new(),
            caches: HashMap::new(),
            fulls: HashMap::new(),
            pending: Vec::new(),
        };
        proof {
            assert(r.published_map() =~= Map::<u64, Arc<T>>::empty());
            assert(r.cache_view() =~= Map::<u64, Seq<Option<Arc<T>>>>::empty());
            assert(r.full_view() =~= Map::<u64, Seq<Arc<T>>>::empty());
            assert(r.pending_events() =~= Seq::<NeighborUpdate<T>>::empty());
        }
        r
    }

    /// Record a chunk's freshly published datum and queue the notification
    /// that will broadcast it to the chunk's neighbors.
    pub fn publish(&mut self, pos: Vec3i, id: ChunkId, value: Arc<T>)
        requires
            old(self).inv(),
            event_pos_ok(pos),
        ensures
            final(self).inv(),
            final(self).published_map() == old(self).published_map().insert(id.0, value),
            final(self).cache_view() == old(self).cache_view(),
            final(self).full_view() == old(self).full_view(),
            final(self).pending_events() == old(self).pending_events().push(
                NeighborUpdate { pos, value: Some(value) },
            ),
    {
        self.published.insert(id.0, value.clone());
        self.pending.push(NeighborUpdate { pos, value: Some(value) });
        proof {
            assert(self.cache_view() =~= old(self).cache_view());
            assert(self.full_view() =~= old(self).full_view());
        }
    }

    /// Drop a destroyed chunk from the protocol: its published datum, its
    /// own cache and full view go away, and the notification that clears its
    /// slot in every neighbor's cache is queued. `pos` is the chunk's
    /// coordinate captured before its data was lost.
    pub fn retire(&mut self, pos: Vec3i, id: ChunkId)
        requires
            old(self).inv(),
            event_pos_ok(pos),
        ensures
            final(self).inv(),
            final(self).published_map() == old(self).published_map().remove(id.0),
            final(self).cache_view() == old(self).cache_view().remove(id.0),
            final(self).full_view() == old(self).full_view().remove(id.0),
            final(self).pending_events() == old(self).pending_events().push(
                NeighborUpdate { pos, value: None },
            ),
    {
        self.published.remove(&id.0);
        self.caches.remove(&id.0);
        self.fulls.remove(&id.0);
        self.pending.push(NeighborUpdate { pos, value: None });
        proof {
            assert(self.cache_view() =~= old(self).cache_view().remove(id.0));
            assert(self.full_view() =~= old(self).full_view().remove(id.0));
        }
    }

    /// Whether a chunk currently has a neighbor cache.
    pub fn has_cache(&self, id: &ChunkId) -> (r: bool)
        ensures
            r == self.cache_view().contains_key(id.0),
    {
        self.caches.contains_key(&id.0)
    }

    /// Whether a chunk currently publishes a full-neighborhood view.
    pub fn has_full(&self, id: &ChunkId) -> (r: bool)
        ensures
            r == self.full_view().contains_key(id.0),
    {
        self.fulls.contains_key(&id.0)
    }

    /// A snapshot of a chunk's neighbor cache, sharing the slot contents.
    pub fn snapshot_cache(&self, id: &ChunkId) -> (r: Option<Neighborhood<T>>)
        requires
            self.inv(),
        ensures
            r is Some <==> self.cache_view().contains_key(id.0),
            r matches Some(n) ==> n.wf() && n.slots() == self.cache_view()[id.0],
    {
        match self.caches.get(&id.0) {
            Some(n) => {
                proof {
                    assert(self.cache_view().contains_key(id.0));
                    assert(n.slots() == self.cache_view()[id.0]);
                }
                Some(n.duplicate())
            },
            None => None,
        }
    }

    /// Rebuild the full-neighborhood view of one chunk from its cache:
    /// published when all 27 slots are populated, revoked otherwise.
    fn refresh_full(&mut self, i: u64)
        requires
            old(self).inv_but_full(i),
        ensures
            final(self).inv(),
            final(self).published_map() == old(self).published_map(),
            final(self).cache_view() == old(self).cache_view(),
            final(self).pending_events() == old(self).pending_events(),
    {
        let full = match self.caches.get(&i) {
            Some(cache) => {
                proof {
                    assert(self.cache_view().contains_key(i));
                    assert(cache.slots() == self.cache_view()[i]);
                }
                FullNeighborhood::from_cache(cache)
            },
            None => None,
        };
        match full {
            Some(f) => {
                self.fulls.insert(i, f);
            },
            None => {
                self.fulls.remove(&i);
            },
        }
        proof {
            assert(self.cache_view() =~= old(self).cache_view());
            assert forall|j: u64| #[trigger] self.full_view().contains_key(j) implies self.cache_view().contains_key(
                j,
            ) && slots_full(self.cache_view()[j]) by {
                if j != i {
                    assert(old(self).full_view().contains_key(j));
                }
            }
            assert forall|j: u64|
                #[trigger] self.cache_view().contains_key(j) && slots_full(
                    self.cache_view()[j],
                ) implies self.full_view().contains_key(j) by {
                if j != i {
                    assert(old(self).full_view().contains_key(j));
                }
            }
            assert forall|j: u64| #[trigger] self.full_view().contains_key(j) implies self.full_view()[j].len()
                == 27 && (forall|k: int|
                0 <= k < 27 ==> self.cache_view()[j][k] == Some(
                    #[trigger] self.full_view()[j][k],
                )) by {
                if j != i {
                    assert(old(self).full_view().contains_key(j));
                    assert(self.full_view()[j] == old(self).full_view()[j]);
                }
            }
        }
    }

    /// The protocol invariant with the full-view clauses weakened at one
    /// chunk, the state between a slot write and the matching full refresh.
    spec fn inv_but_full(self, i: u64) -> bool {
        &&& forall|j: u64|
            #[trigger] self.cache_view().contains_key(j) ==> self.cache_view()[j].len() == 27
        &&& forall|j: u64|
            #[trigger] self.full_view().contains_key(j) && j != i ==> self.cache_view().contains_key(
                j,
            ) && slots_full(self.cache_view()[j])
        &&& forall|j: u64|
            #[trigger] self.cache_view().contains_key(j) && slots_full(self.cache_view()[j]) && j
                != i ==> self.full_view().contains_key(j)
        &&& forall|j: u64|
            #[trigger] self.full_view().contains_key(j) && j != i ==> self.full_view()[j].len()
                == 27 && (forall|k: int|
                0 <= k < 27 ==> self.cache_view()[j][k] == Some(#[trigger] self.full_view()[j][k]))
        &&& forall|e: int|
            0 <= e < self.pending_events().len() ==> event_pos_ok(
                (#[trigger] self.pending_events()[e]).pos,
            )
    }

    /// Build the neighbor cache of a chunk that has just begun publishing
    /// the tracked datum: each slot is looked up once against the index and
    /// the published data. Initializes the cache exactly once per chunk.
    pub fn init_cache(&mut self, index: &ChunkIndex, id: ChunkId)
        requires
            old(self).inv(),
            index.inv(),
            index.id_map().contains_key(id),
            event_pos_ok(index.id_map()[id]),
            old(self).published_map().contains_key(id.0),
            !old(self).cache_view().contains_key(id.0),
        ensures
            final(self).inv(),
            final(self).published_map() == old(self).published_map(),
            final(self).pending_events() == old(self).pending_events(),
            final(self).cache_view() == old(self).cache_view().insert(
                id.0,
                init_slots(index.pos_map(), old(self).published_map(), index.id_map()[id]),
            ),
    {
        let pos = match index.get_position(&id) {
            Some(p) => p,
            None => vstd::pervasive::unreached(),
        };
        let ghost target = init_slots(index.pos_map(), old(self).published_map(), pos);
        let mut cache = Neighborhood::<T>::new_empty();
        let mut k: usize = 0;
        while k < 27
            invariant
                k <= 27,
                cache.wf(),
                self == old(self),
                index.inv(),
                event_pos_ok(pos),
                target == init_slots(index.pos_map(), self.published_map(), pos),
                forall|q: int| 0 <= q < k ==> cache.slots()[q] == target[q],
                forall|q: int| k <= q < 27 ==> cache.slots()[q] is None,
            decreases 27 - k,
        {
            let dx = (k % 3) as i32 - 1;
            let dy = ((k / 3) % 3) as i32 - 1;
            let dz = (k / 9) as i32 - 1;
            let npos = Vec3i { x: pos.x + dx, y: pos.y + dy, z: pos.z + dz };
            proof {
                assert(npos == offset_pos(pos, dx as int, dy as int, dz as int));
                assert(offset_index(dx as int, dy as int, dz as int) == k);
            }
            let value: Option<Arc<T>> = match index.get_entity(&npos) {
                None => None,
                Some(ne) => match self.published.get(&ne.0) {
                    None => None,
                    Some(v) => Some(v.clone()),
                },
            };
            proof {
                assert(value == init_slot(index.pos_map(), self.published_map(), pos, k as int));
            }
            cache.put_chunk(&[dx, dy, dz], value);
            k = k + 1;
        }
        proof {
            assert(cache.slots() =~= target);
        }
        self.caches.insert(id.0, cache);
        proof {
            assert(self.cache_view() =~= old(self).cache_view().insert(id.0, target));
            assert(self.full_view() == old(self).full_view());
            assert forall|j: u64|
                #[trigger] self.full_view().contains_key(j) && j != id.0 implies self.cache_view().contains_key(
                j,
            ) && slots_full(self.cache_view()[j]) by {
                assert(old(self).cache_view().contains_key(j));
                assert(self.cache_view()[j] == old(self).cache_view()[j]);
            }
            assert(self.inv_but_full(id.0));
        }
        self.refresh_full(id.0);
    }

    /// Deliver one update to the single cache slot at index `k`: the chunk
    /// at the slot's inverse offset from the event's source — when it exists
    /// and has a cache — gets that slot overwritten with the event's value
    /// and its full-neighborhood view refreshed; every other cache is kept.
    fn apply_slot(&mut self, index: &ChunkIndex, ev: &NeighborUpdate<T>, k: usize)
        requires
            old(self).inv(),
            index.inv(),
            event_pos_ok(ev.pos),
            k < 27,
        ensures
            final(self).inv(),
            final(self).published_map() == old(self).published_map(),
            final(self).pending_events() == old(self).pending_events(),
            final(self).cache_view().dom() == old(self).cache_view().dom(),
            forall|i: u64, q: int|
                old(self).cache_view().contains_key(i) && 0 <= q < 27
                    ==> #[trigger] final(self).cache_view()[i][q] == (if q == k {
                    slot_after_update(old(self).cache_view()[i], index.pos_map(), *ev, i, q)
                } else {
                    old(self).cache_view()[i][q]
                }),
    {
        let ghost posmap = index.pos_map();
        let sx = (k % 3) as i32 - 1;
        let sy = ((k / 3) % 3) as i32 - 1;
        let sz = (k / 9) as i32 - 1;
        let source = Vec3i { x: ev.pos.x - sx, y: ev.pos.y - sy, z: ev.pos.z - sz };
        proof {
            assert(source == offset_pos(ev.pos, -(sx as int), -(sy as int), -(sz as int)));
        }
        let target: Option<ChunkId> = index.get_entity(&source);
        match target {
            Some(tid) => {
                match self.caches.remove(&tid.0) {
                    Some(mut cache) => {
                        proof {
                            assert(old(self).cache_view().contains_key(tid.0));
                            assert(cache.slots() == old(self).cache_view()[tid.0]);
                        }
                        let value: Option<Arc<T>> = match &ev.value {
                            Some(v) => Some(v.clone()),
                            None => None,
                        };
                        proof {
                            assert(value == ev.value);
                        }
                        cache.put_chunk(&[sx, sy, sz], value);
                        self.caches.insert(tid.0, cache);
                        proof {
                            assert(offset_index(sx as int, sy as int, sz as int) == k);
                            assert(self.cache_view() =~= old(self).cache_view().insert(
                                tid.0,
                                old(self).cache_view()[tid.0].update(k as int, ev.value),
                            ));
                            assert(self.full_view() =~= old(self).full_view());
                            assert(self.cache_view().dom() =~= old(self).cache_view().dom());
                            assert forall|j: u64|
                                #[trigger] self.cache_view().contains_key(j) implies self.cache_view()[j].len()
                                == 27 by {
                                assert(old(self).cache_view().contains_key(j));
                            }
                            assert forall|j: u64|
                                #[trigger] self.full_view().contains_key(j) && j != tid.0 implies self.cache_view().contains_key(
                                j,
                            ) && slots_full(self.cache_view()[j]) by {
                                assert(old(self).full_view().contains_key(j));
                                assert(self.cache_view()[j] == old(self).cache_view()[j]);
                            }
                            assert forall|j: u64|
                                #[trigger] self.cache_view().contains_key(j) && slots_full(
                                    self.cache_view()[j],
                                ) && j != tid.0 implies self.full_view().contains_key(j) by {
                                assert(self.cache_view()[j] == old(self).cache_view()[j]);
                            }
                            assert forall|j: u64|
                                #[trigger] self.full_view().contains_key(j) && j != tid.0 implies self.full_view()[j].len()
                                == 27 && (forall|q: int|
                                0 <= q < 27 ==> self.cache_view()[j][q] == Some(
                                    #[trigger] self.full_view()[j][q],
                                )) by {
                                assert(old(self).full_view().contains_key(j));
                                assert(self.full_view()[j] == old(self).full_view()[j]);
                                assert(self.cache_view()[j] == old(self).cache_view()[j]);
                            }
                            assert(self.inv_but_full(tid.0));
                        }
                        self.refresh_full(tid.0);
                        proof {
                            assert forall|i: u64, q: int|
                                old(self).cache_view().contains_key(i) && 0 <= q < 27 implies #[trigger] self.cache_view()[i][q]
                                == (if q == k {
                                slot_after_update(old(self).cache_view()[i], posmap, *ev, i, q)
                            } else {
                                old(self).cache_view()[i][q]
                            }) by {
                                if i == tid.0 {
                                    assert(self.cache_view()[i] == old(self).cache_view()[i].update(
                                        k as int,
                                        ev.value,
                                    ));
                                } else {
                                    assert(self.cache_view()[i] == old(self).cache_view()[i]);
                                    assert(posmap[source].0 == tid.0);
                                }
                            }
                        }
                    },
                    None => {
                        proof {
                            assert(self.caches@ =~= old(self).caches@);
                            assert(self.cache_view() =~= old(self).cache_view());
                            assert(self.full_view() =~= old(self).full_view());
                            assert forall|i: u64, q: int|
                                old(self).cache_view().contains_key(i) && 0 <= q < 27 implies #[trigger] self.cache_view()[i][q]
                                == (if q == k {
                                slot_after_update(old(self).cache_view()[i], posmap, *ev, i, q)
                            } else {
                                old(self).cache_view()[i][q]
                            }) by {
                                if q == k && posmap.contains_key(source) && posmap[source].0 == i {
                                    assert(i == tid.0);
                                    assert(!self.caches@.contains_key(tid.0));
                                    assert(!old(self).cache_view().contains_key(i));
                                }
                            }
                        }
                    },
                }
            },
            None => {
                proof {
                    assert(!posmap.contains_key(source));
                }
            },
        }
    }

    /// Broadcast one queued update: for every relative offset, the neighbor
    /// chunk at that offset from the event's source — when it exists and has
    /// a cache — gets the slot at the inverse offset overwritten with the
    /// event's value, and its full-neighborhood view refreshed.
    fn apply_event(&mut self, index: &ChunkIndex, ev: &NeighborUpdate<T>)
        requires
            old(self).inv(),
            index.inv(),
            event_pos_ok(ev.pos),
        ensures
            final(self).inv(),
            final(self).published_map() == old(self).published_map(),
            final(self).pending_events() == old(self).pending_events(),
            final(self).cache_view() == caches_after_update(
                old(self).cache_view(),
                index.pos_map(),
                *ev,
            ),
    {
        let ghost cv0 = old(self).cache_view();
        let ghost posmap = index.pos_map();
        let mut k: usize = 0;
        while k < 27
            invariant
                k <= 27,
                self.inv(),
                index.inv(),
                event_pos_ok(ev.pos),
                posmap == index.pos_map(),
                self.published_map() == old(self).published_map(),
                self.pending_events() == old(self).pending_events(),
                self.cache_view().dom() == cv0.dom(),
                forall|i: u64, q: int|
                    cv0.contains_key(i) && 0 <= q < 27 ==> #[trigger] self.cache_view()[i][q] == (
                    if q < k {
                        slot_after_update(cv0[i], posmap, *ev, i, q)
                    } else {
                        cv0[i][q]
                    }),
            decreases 27 - k,
        {
            let ghost pre = self.cache_view();
            self.apply_slot(index, ev, k);
            proof {
                assert forall|i: u64, q: int|
                    cv0.contains_key(i) && 0 <= q < 27 implies #[trigger] self.cache_view()[i][q]
                    == (if q < k + 1 {
                    slot_after_update(cv0[i], posmap, *ev, i, q)
                } else {
                    cv0[i][q]
                }) by {
                    assert(pre.contains_key(i));
                    if q == k {
                        assert(self.cache_view()[i][q] == slot_after_update(
                            pre[i],
                            posmap,
                            *ev,
                            i,
                            q,
                        ));
                        assert(pre[i][q] == cv0[i][q]);
                    }
                }
            }
            k = k + 1;
        }
        proof {
            assert(self.cache_view() =~~= caches_after_update(cv0, posmap, *ev));
        }
    }

    /// Broadcast every queued update, oldest first, leaving the queue empty.
    pub fn consume_events(&mut self, index: &ChunkIndex)
        requires
            old(self).inv(),
            index.inv(),
        ensures
            final(self).inv(),
            final(self).published_map() == old(self).published_map(),
            final(self).pending_events() == Seq::<NeighborUpdate<T>>::empty(),
            final(self).cache_view() == caches_after_updates(
                old(self).cache_view(),
                index.pos_map(),
                old(self).pending_events(),
            ),
    {
        let mut events: Vec<NeighborUpdate<T>> = Vec::new();
        std::mem::swap(&mut events, &mut self.pending);
        let ghost cv0 = old(self).cache_view();
        let ghost posmap = index.pos_map();
        let ghost evs = events@;
        proof {
            assert(self.cache_view() =~= cv0);
            assert(self.full_view() =~= old(self).full_view());
            assert(evs.subrange(0, 0) =~= Seq::<NeighborUpdate<T>>::empty());
            assert(caches_after_updates(cv0, posmap, Seq::<NeighborUpdate<T>>::empty()) == cv0);
        }
        let mut e: usize = 0;
        while e < events.len()
            invariant
                e <= events@.len(),
                self.inv(),
                index.inv(),
                posmap == index.pos_map(),
                evs == events@,
                forall|q: int| 0 <= q < evs.len() ==> event_pos_ok((#[trigger] evs[q]).pos),
                self.published_map() == old(self).published_map(),
                self.pending_events() == Seq::<NeighborUpdate<T>>::empty(),
                self.cache_view() == caches_after_updates(cv0, posmap, evs.subrange(0, e as int)),
            decreases events@.len() - e,
        {
            proof {
                assert(evs.subrange(0, e + 1) =~= evs.subrange(0, e as int).push(evs[e as int]));
                lemma_updates_snoc(cv0, posmap, evs.subrange(0, e as int), evs[e as int]);
            }
            let ev = &events[e];
            self.apply_event(index, ev);
            e = e + 1;
        }
        proof {
            assert(evs.subrange(0, evs.len() as int) =~= evs);
        }
    }
}

/// Broadcasting a queue and then one more update is the same as broadcasting
/// the queue extended by that update.
proof fn lemma_updates_snoc<T>(
    cv: Map<u64, Seq<Option<Arc<T>>>>,
    posmap: Map<Vec3i, ChunkId>,
    evs: Seq<NeighborUpdate<T>>,
    ev: NeighborUpdate<T>,
)
    ensures
        caches_after_updates(cv, posmap, evs.push(ev)) == caches_after_update(
            caches_after_updates(cv, posmap, evs),
            posmap,
            ev,
        ),
    decreases evs.len(),
{
    if evs.len() == 0 {
        assert(evs.push(ev)[0] == ev);
        assert(evs.push(ev).subrange(1, 1) =~= Seq::<NeighborUpdate<T>>::empty());
        assert(caches_after_updates(
            caches_after_update(cv, posmap, ev),
            posmap,
            Seq::<NeighborUpdate<T>>::empty(),
        ) == caches_after_update(cv, posmap, ev));
        assert(caches_after_updates(cv, posmap, evs) == cv);
    } else {
        assert(evs.push(ev)[0] == evs[0]);
        assert(evs.push(ev).subrange(1, evs.len() as int + 1) =~= evs.subrange(
            1,
            evs.len() as int,
        ).push(ev));
        lemma_updates_snoc(
            caches_after_update(cv, posmap, evs[0]),
            posmap,
            evs.subrange(1, evs.len() as int),
            ev,
        );
    }
}

} // verus!
