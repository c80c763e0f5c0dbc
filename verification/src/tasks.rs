//! The background-task registry: at most one in-flight computation per
//! owning chunk, replacement on respawn, and cancellation tied to the
//! owner's lifetime.
//!
//! A task is identified by a ticket handed out at spawn time. The
//! computation itself runs outside the registry; its result is offered back
//! with the ticket, and is installed only when that ticket is still the one
//! on record — a result from a replaced or cancelled task is discarded.

use vstd::prelude::*;

use core::marker::PhantomData;
use std::collections::HashMap;

use crate::coords::ChunkId;

verus! {

broadcast use vstd::std_specs::hash::group_hash_axioms;

/// Per result type `T`, the registry of in-flight background computations,
/// keyed by the owning chunk.
pub struct ComputeTasks<T> {
    tasks: HashMap<u64, u64>,
    added_since_last_update: Vec<u64>,
    next_ticket: u64,
    _result: PhantomData<T>,
}

impl<T> ComputeTasks<T> {
    /// The ticket of each owner's in-flight task.
    pub closed spec fn task_map(self) -> Map<u64, u64> {
        self.tasks@
    }

    /// Owners whose task was spawned since the flags were last refreshed.
    pub closed spec fn added(self) -> Seq<u64> {
        self.added_since_last_update@
    }

    /// The ticket the next spawn will hand out; all tickets on record are
    /// older.
    pub closed spec fn ticket_counter(self) -> u64 {
        self.next_ticket
    }

    /// Every ticket on record was handed out before the next one.
    pub open spec fn inv(self) -> bool {
        forall|o: u64|
            #[trigger] self.task_map().contains_key(o) ==> self.task_map()[o]
                < self.ticket_counter()
    }

    pub fn new() -> (r: Self)
        ensures
            r.inv(),
            r.task_map() == Map::<u64, u64>::empty(),
            r.added() == Seq::<u64>::empty(),
    {
        let r = ComputeTasks {
            tasks: HashMap::new(),
            added_since_last_update: Vec::new(),
            next_ticket: 0,
            _result: PhantomData,
        };
        proof {
            assert(r.task_map() =~= Map::<u64, u64>::empty());
            assert(r.added() =~= Seq::<u64>::empty());
        }
        r
    }

    /// Register a computation for `owner`, replacing — and thereby
    /// cancelling — any task the owner already had. The returned ticket is
    /// fresh: no earlier spawn handed it out.
    pub fn spawn_task(&mut self, owner: ChunkId) -> (t: u64)
        requires
            old(self).inv(),
            old(self).ticket_counter() < u64::MAX,
        ensures
            final(self).inv(),
            t == old(self).ticket_counter(),
            final(self).ticket_counter() == old(self).ticket_counter() + 1,
            final(self).task_map() == old(self).task_map().insert(owner.0, t),
            final(self).added() == old(self).added().push(owner.0),
    {
        let t = self.next_ticket;
        self.next_ticket = self.next_ticket + 1;
        self.tasks.insert(owner.0, t);
        self.added_since_last_update.push(owner.0);
        proof {
            assert forall|o: u64| #[trigger] self.task_map().contains_key(o) implies self.task_map()[o]
                < self.ticket_counter() by {
                if o != owner.0 {
                    assert(old(self).task_map().contains_key(o));
                }
            }
        }
        t
    }

    /// Offer the result of the computation spawned under `ticket`. It is
    /// installed — returned to the caller — exactly when that ticket is
    /// still the owner's task on record; the result of a task that was
    /// replaced, or whose owner was destroyed, is discarded, and nothing is
    /// ever installed for a destroyed owner.
    pub fn finish_task(&mut self, owner: ChunkId, ticket: u64, result: T) -> (r: Option<T>)
        requires
            old(self).inv(),
        ensures
            final(self).inv(),
            final(self).ticket_counter() == old(self).ticket_counter(),
            final(self).added() == old(self).added(),
            old(self).task_map().contains_key(owner.0) && old(self).task_map()[owner.0] == ticket
                ==> r == Some(result) && final(self).task_map() == old(self).task_map().remove(
                owner.0,
            ),
            !(old(self).task_map().contains_key(owner.0) && old(self).task_map()[owner.0]
                == ticket) ==> r is None && final(self).task_map() == old(self).task_map(),
    {
        let current = match self.tasks.get(&owner.0) {
            Some(t) => Some(*t),
            None => None,
        };
        match current {
            Some(t) => {
                if t == ticket {
                    self.tasks.remove(&owner.0);
                    proof {
                        assert forall|o: u64| #[trigger] self.task_map().contains_key(
                            o,
                        ) implies self.task_map()[o] < self.ticket_counter() by {
                            assert(old(self).task_map().contains_key(o));
                        }
                    }
                    Some(result)
                } else {
                    None
                }
            },
            None => None,
        }
    }

    /// Drop the owner's task, if any, as the owner is destroyed; the
    /// underlying computation is abandoned.
    pub fn kill_task(&mut self, owner: ChunkId)
        requires
            old(self).inv(),
        ensures
            final(self).inv(),
            final(self).ticket_counter() == old(self).ticket_counter(),
            final(self).added() == old(self).added(),
            final(self).task_map() == old(self).task_map().remove(owner.0),
    {
        self.tasks.remove(&owner.0);
        proof {
            assert(self.task_map() =~= old(self).task_map().remove(owner.0));
        }
    }

    /// Whether `owner` currently has an in-flight task.
    pub fn has_task(&self, owner: &ChunkId) -> (r: bool)
        ensures
            r == self.task_map().contains_key(owner.0),
    {
        self.tasks.contains_key(&owner.0)
    }

    /// Take the owners whose tasks were spawned since the last call, for
    /// the in-progress markers.
    pub fn take_added(&mut self) -> (r: Vec<u64>)
        ensures
            r@ == old(self).added(),
            final(self).added() == Seq::<u64>::empty(),
            final(self).task_map() == old(self).task_map(),
            final(self).ticket_counter() == old(self).ticket_counter(),
            final(self).inv() == old(self).inv(),
    {
        let mut taken: Vec<u64> = Vec::new();
        std::mem::swap(&mut taken, &mut self.added_since_last_update);
        taken
    }
}

/// Task lifecycle. Spawning a second task for one owner before the first
/// completes leaves exactly the second on record: the first's ticket no
/// longer matches, so its late result installs nothing, while the second's
/// result installs and clears the entry. Destroying the owner removes the
/// entry, so no later completion installs anything.
pub proof fn lemma_task_lifecycle(m0: Map<u64, u64>, owner: u64, t1: u64, t2: u64)
    requires
        t1 != t2,
    ensures
        m0.insert(owner, t1).insert(owner, t2).contains_key(owner),
        m0.insert(owner, t1).insert(owner, t2)[owner] == t2,
        m0.insert(owner, t1).insert(owner, t2)[owner] != t1,
        m0.insert(owner, t1).insert(owner, t2).remove(owner) =~= m0.remove(owner),
        !m0.insert(owner, t1).remove(owner).contains_key(owner),
{
}

} // verus!
