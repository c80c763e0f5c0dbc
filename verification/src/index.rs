//! The spatial chunk index: a bidirectional map between chunk coordinates
//! and chunk identities, kept consistent with the chunk lifecycle.

use vstd::prelude::*;

use std::collections::HashMap;

use crate::coords::{ChunkId, Vec3i};

verus! {

broadcast use vstd::std_specs::hash::group_hash_axioms;

/// Chunk coordinates packed into one integer, so the position map can be
/// keyed by a plain integer.
pub open spec fn pos_key_spec(p: Vec3i) -> u128 {
    ((p.x as u32 as u128) << 64) | ((p.y as u32 as u128) << 32) | (p.z as u32 as u128)
}

/// Distinct coordinates pack to distinct keys.
pub proof fn lemma_pos_key_injective(a: Vec3i, b: Vec3i)
    requires
        pos_key_spec(a) == pos_key_spec(b),
    ensures
        a == b,
{
    let (ax, ay, az) = (a.x, a.y, a.z);
    let (bx, by, bz) = (b.x, b.y, b.z);
    assert(ax == bx && ay == by && az == bz) by (bit_vector)
        requires
            ((ax as u32 as u128) << 64) | ((ay as u32 as u128) << 32) | (az as u32 as u128) == ((
            bx as u32 as u128) << 64) | ((by as u32 as u128) << 32) | (bz as u32 as u128),
    ;
}

fn pos_key(p: &Vec3i) -> (r: u128)
    ensures
        r == pos_key_spec(*p),
{
    ((p.x as u32 as u128) << 64) | ((p.y as u32 as u128) << 32) | (p.z as u32 as u128)
}

/// Bidirectional lookup between chunk coordinates and chunk identities.
///
/// Entries are added and removed only in lockstep with a chunk's coordinate
/// being attached and detached, so the two directions always agree.
pub struct ChunkIndex {
    entity_by_position: HashMap<u128, ChunkId>,
    position_by_entity: HashMap<u64, Vec3i>,
}

impl ChunkIndex {
    /// The map from chunk coordinates to chunk identities.
    pub closed spec fn pos_map(self) -> Map<Vec3i, ChunkId> {
        Map::new(
            |p: Vec3i| self.entity_by_position@.contains_key(pos_key_spec(p)),
            |p: Vec3i| self.entity_by_position@[pos_key_spec(p)],
        )
    }

    /// The map from chunk identities to chunk coordinates.
    pub closed spec fn id_map(self) -> Map<ChunkId, Vec3i> {
        Map::new(
            |e: ChunkId| self.position_by_entity@.contains_key(e.0),
            |e: ChunkId| self.position_by_entity@[e.0],
        )
    }

    /// The two directions of the index agree entry for entry.
    pub closed spec fn inv(self) -> bool {
        &&& forall|k: u128|
            #[trigger] self.entity_by_position@.contains_key(k) ==> {
                let e = self.entity_by_position@[k];
                &&& self.position_by_entity@.contains_key(e.0)
                &&& pos_key_spec(self.position_by_entity@[e.0]) == k
            }
        &&& forall|i: u64|
            #[trigger] self.position_by_entity@.contains_key(i) ==> {
                let p = self.position_by_entity@[i];
                &&& self.entity_by_position@.contains_key(pos_key_spec(p))
                &&& self.entity_by_position@[pos_key_spec(p)].0 == i
            }
    }

    /// Index consistency: on a consistent index the two lookup directions
    /// round-trip, in both orders.
    pub proof fn lemma_round_trip(self)
        requires
            self.inv(),
        ensures
            forall|p: Vec3i|
                #[trigger] self.pos_map().contains_key(p) ==> self.id_map().contains_key(
                    self.pos_map()[p],
                ) && self.id_map()[self.pos_map()[p]] == p,
            forall|e: ChunkId|
                #[trigger] self.id_map().contains_key(e) ==> self.pos_map().contains_key(
                    self.id_map()[e],
                ) && self.pos_map()[self.id_map()[e]] == e,
    {
        assert forall|p: Vec3i| #[trigger] self.pos_map().contains_key(p) implies self.id_map().contains_key(
            self.pos_map()[p],
        ) && self.id_map()[self.pos_map()[p]] == p by {
            let e = self.entity_by_position@[pos_key_spec(p)];
            lemma_pos_key_injective(self.position_by_entity@[e.0], p);
        }
        assert forall|e: ChunkId| #[trigger] self.id_map().contains_key(e) implies self.pos_map().contains_key(
            self.id_map()[e],
        ) && self.pos_map()[self.id_map()[e]] == e by {
            let p = self.position_by_entity@[e.0];
            assert(self.entity_by_position@.contains_key(pos_key_spec(p)));
            assert(self.entity_by_position@[pos_key_spec(p)].0 == e.0);
        }
    }

    pub fn new() -> (r: ChunkIndex)
        ensures
            r.inv(),
            r.pos_map() == Map::<Vec3i, ChunkId>::empty(),
            r.id_map() == Map::<ChunkId, Vec3i>::empty(),
    {
        let r = ChunkIndex {
            entity_by_position: HashMap::new(),
            position_by_entity: HashMap::new(),
        };
        proof {
            assert(r.pos_map() =~= Map::<Vec3i, ChunkId>::empty());
            assert(r.id_map() =~= Map::<ChunkId, Vec3i>::empty());
        }
        r
    }

    /// The identity of the chunk at a coordinate, if one is registered there.
    pub fn get_entity(&self, pos: &Vec3i) -> (r: Option<ChunkId>)
        ensures
            r == if self.pos_map().contains_key(*pos) {
                Some(self.pos_map()[*pos])
            } else {
                None::<ChunkId>
            },
    {
        let key = pos_key(pos);
        match self.entity_by_position.get(&key) {
            Some(e) => Some(*e),
            None => None,
        }
    }

    /// The coordinate of a chunk, if it is registered.
    pub fn get_position(&self, e: &ChunkId) -> (r: Option<Vec3i>)
        ensures
            r == if self.id_map().contains_key(*e) {
                Some(self.id_map()[*e])
            } else {
                None::<Vec3i>
            },
    {
        match self.position_by_entity.get(&e.0) {
            Some(p) => Some(*p),
            None => None,
        }
    }

    /// Record a freshly attached chunk coordinate. Registration happens
    /// exactly once per chunk, and at most one chunk occupies a coordinate.
    pub fn register(&mut self, pos: Vec3i, id: ChunkId)
        requires
            old(self).inv(),
            !old(self).pos_map().contains_key(pos),
            !old(self).id_map().contains_key(id),
        ensures
            final(self).inv(),
            final(self).pos_map() == old(self).pos_map().insert(pos, id),
            final(self).id_map() == old(self).id_map().insert(id, pos),
    {
        let key = pos_key(&pos);
        self.entity_by_position.insert(key, id);
        self.position_by_entity.insert(id.0, pos);
        proof {
            assert forall|q: Vec3i| #[trigger] pos_key_spec(q) == pos_key_spec(pos) implies q
                == pos by {
                lemma_pos_key_injective(q, pos);
            }
            assert(self.pos_map() =~= old(self).pos_map().insert(pos, id));
            assert(self.id_map() =~= old(self).id_map().insert(id, pos));
            assert forall|k: u128| #[trigger] self.entity_by_position@.contains_key(k) implies {
                let e = self.entity_by_position@[k];
                &&& self.position_by_entity@.contains_key(e.0)
                &&& pos_key_spec(self.position_by_entity@[e.0]) == k
            } by {
                if k != pos_key_spec(pos) {
                    let e = old(self).entity_by_position@[k];
                    assert(old(self).position_by_entity@.contains_key(e.0));
                    assert(!old(self).id_map().contains_key(id));
                    assert(e.0 != id.0);
                }
            }
            assert forall|i: u64| #[trigger] self.position_by_entity@.contains_key(i) implies {
                let p = self.position_by_entity@[i];
                &&& self.entity_by_position@.contains_key(pos_key_spec(p))
                &&& self.entity_by_position@[pos_key_spec(p)].0 == i
            } by {
                if i != id.0 {
                    let p = old(self).position_by_entity@[i];
                    assert(old(self).entity_by_position@.contains_key(pos_key_spec(p)));
                    assert(!old(self).pos_map().contains_key(pos));
                    assert(pos_key_spec(p) != pos_key_spec(pos));
                }
            }
        }
    }

    /// Evict a chunk as its coordinate is about to be detached. A chunk that
    /// was never registered (a dropped notification) is ignored and the index
    /// is left unchanged.
    pub fn unregister(&mut self, id: ChunkId) -> (r: Option<Vec3i>)
        requires
            old(self).inv(),
        ensures
            final(self).inv(),
            r == if old(self).id_map().contains_key(id) {
                Some(old(self).id_map()[id])
            } else {
                None::<Vec3i>
            },
            old(self).id_map().contains_key(id) ==> {
                &&& final(self).pos_map() == old(self).pos_map().remove(old(self).id_map()[id])
                &&& final(self).id_map() == old(self).id_map().remove(id)
            },
            !old(self).id_map().contains_key(id) ==> {
                &&& final(self).pos_map() == old(self).pos_map()
                &&& final(self).id_map() == old(self).id_map()
            },
    {
        match self.position_by_entity.remove(&id.0) {
            None => {
                proof {
                    assert(self.pos_map() =~= old(self).pos_map());
                    assert(self.id_map() =~= old(self).id_map());
                }
                None
            },
            Some(p) => {
                let key = pos_key(&p);
                self.entity_by_position.remove(&key);
                proof {
                    let oldp = old(self).id_map()[id];
                    assert forall|q: Vec3i| #[trigger] pos_key_spec(q) == pos_key_spec(p) implies q
                        == p by {
                        lemma_pos_key_injective(q, p);
                    }
                    assert(self.pos_map() =~= old(self).pos_map().remove(oldp));
                    assert(self.id_map() =~= old(self).id_map().remove(id));
                    assert forall|k: u128| #[trigger] self.entity_by_position@.contains_key(
                        k,
                    ) implies {
                        let e = self.entity_by_position@[k];
                        &&& self.position_by_entity@.contains_key(e.0)
                        &&& pos_key_spec(self.position_by_entity@[e.0]) == k
                    } by {
                        let e = old(self).entity_by_position@[k];
                        assert(old(self).position_by_entity@.contains_key(e.0));
                        if e.0 == id.0 {
                            assert(pos_key_spec(old(self).position_by_entity@[id.0]) == k);
                            assert(k == pos_key_spec(p));
                            assert(false);
                        }
                    }
                    assert forall|i: u64| #[trigger] self.position_by_entity@.contains_key(
                        i,
                    ) implies {
                        let q = self.position_by_entity@[i];
                        &&& self.entity_by_position@.contains_key(pos_key_spec(q))
                        &&& self.entity_by_position@[pos_key_spec(q)].0 == i
                    } by {
                        let q = old(self).position_by_entity@[i];
                        if pos_key_spec(q) == pos_key_spec(p) {
                            lemma_pos_key_injective(q, p);
                            assert(old(self).entity_by_position@[pos_key_spec(p)].0 == i);
                            assert(old(self).entity_by_position@.contains_key(pos_key_spec(p)));
                            assert(old(self).entity_by_position@[pos_key_spec(p)].0 == id.0);
                            assert(false);
                        }
                    }
                }
                Some(p)
            },
        }
    }
}

} // verus!
