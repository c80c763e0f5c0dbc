//! Per-chunk neighbor caches: up to 27 shared snapshots of neighboring
//! chunks' derived data, and the full-neighborhood view derived from them.

use vstd::prelude::*;

use std::sync::Arc;

use crate::spatial::SpatiallyMapped;
use crate::CHUNK_SIZE;

verus! {

/// Linear slot of a relative offset whose components are each in -1..=1.
pub open spec fn offset_index(x: int, y: int, z: int) -> int {
    (x + 1) + 3 * (y + 1) + 9 * (z + 1)
}

/// Slot of the chunk's own datum, the relative offset (0, 0, 0).
pub open spec fn middle_index() -> int {
    offset_index(0, 0, 0)
}

/// Which of the three neighbor layers a signed chunk-local coordinate falls
/// in along one axis: 0 one chunk below, 1 inside the chunk, 2 one above.
pub open spec fn axis_layer(x: int) -> int {
    if x < 0 {
        0
    } else if x < CHUNK_SIZE {
        1
    } else {
        2
    }
}

/// A signed coordinate wrapped into the addressed chunk's own local space.
pub open spec fn wrapped_local(x: int) -> int {
    (x + CHUNK_SIZE) % (CHUNK_SIZE as int)
}

fn axis_layer_of(x: i32) -> (r: usize)
    requires
        -(CHUNK_SIZE as i32) <= x < 2 * CHUNK_SIZE as i32,
    ensures
        r == axis_layer(x as int),
{
    if x < 0 {
        0
    } else if x < CHUNK_SIZE as i32 {
        1
    } else {
        2
    }
}

/// A cache of up to 27 shared references to the derived data of the chunks
/// at relative offsets {-1, 0, 1}^3, the chunk's own datum in the middle.
///
/// A slot is populated iff a neighbor chunk exists at that relative offset
/// and currently publishes the tracked datum.
pub struct Neighborhood<T> {
    chunks: Vec<Option<Arc<T>>>,
}

impl<T> Neighborhood<T> {
    /// The 27 slots, in offset-index order.
    pub closed spec fn slots(self) -> Seq<Option<Arc<T>>> {
        self.chunks@
    }

    pub open spec fn wf(self) -> bool {
        self.slots().len() == 27
    }

    /// The slot at relative offset (x, y, z).
    pub open spec fn slot(self, x: int, y: int, z: int) -> Option<Arc<T>> {
        self.slots()[offset_index(x, y, z)]
    }

    /// All 27 slots are populated.
    pub open spec fn is_full(self) -> bool {
        forall|i: int| 0 <= i < 27 ==> self.slots()[i] is Some
    }

    /// A cache with every slot empty.
    pub fn new_empty() -> (r: Self)
        ensures
            r.wf(),
            forall|i: int| 0 <= i < 27 ==> r.slots()[i] is None,
    {
        let mut chunks: Vec<Option<Arc<T>>> = Vec::new();
        let mut i: usize = 0;
        while i < 27
            invariant
                i <= 27,
                chunks@.len() == i,
                forall|k: int| 0 <= k < i ==> chunks@[k] is None,
            decreases 27 - i,
        {
            chunks.push(None);
            i = i + 1;
        }
        Neighborhood { chunks }
    }

    /// A copy of the cache sharing the same snapshots.
    pub fn duplicate(&self) -> (r: Self)
        requires
            self.wf(),
        ensures
            r.wf(),
            r.slots() == self.slots(),
    {
        let mut chunks: Vec<Option<Arc<T>>> = Vec::new();
        let mut i: usize = 0;
        while i < 27
            invariant
                i <= 27,
                self.wf(),
                chunks@.len() == i,
                forall|k: int| 0 <= k < i ==> chunks@[k] == self.slots()[k],
            decreases 27 - i,
        {
            let slot = match &self.chunks[i] {
                Some(c) => Some(c.clone()),
                None => None,
            };
            chunks.push(slot);
            i = i + 1;
        }
        proof {
            assert(chunks@ =~= self.slots());
        }
        Neighborhood { chunks }
    }

    /// The slot at relative offset `pos`, each component in -1..=1.
    pub fn get_chunk(&self, pos: &[i32; 3]) -> (r: &Option<Arc<T>>)
        requires
            self.wf(),
            -1 <= pos[0] <= 1,
            -1 <= pos[1] <= 1,
            -1 <= pos[2] <= 1,
        ensures
            *r == self.slot(pos[0] as int, pos[1] as int, pos[2] as int),
    {
        let x = pos[0];
        let y = pos[1];
        let z = pos[2];
        let index = ((x + 1) + 3 * (y + 1) + 9 * (z + 1)) as usize;
        &self.chunks[index]
    }

    /// Overwrite the slot at relative offset `pos`, each component in -1..=1.
    pub fn put_chunk(&mut self, pos: &[i32; 3], value: Option<Arc<T>>)
        requires
            old(self).wf(),
            -1 <= pos[0] <= 1,
            -1 <= pos[1] <= 1,
            -1 <= pos[2] <= 1,
        ensures
            final(self).wf(),
            final(self).slots() == old(self).slots().update(
                offset_index(pos[0] as int, pos[1] as int, pos[2] as int),
                value,
            ),
    {
        let x = pos[0];
        let y = pos[1];
        let z = pos[2];
        let index = ((x + 1) + 3 * (y + 1) + 9 * (z + 1)) as usize;
        self.chunks[index] = value;
    }

    /// The chunk's own datum. The middle slot must be populated.
    pub fn get_middle(&self) -> (r: &T)
        requires
            self.wf(),
            self.slots()[middle_index()] is Some,
        ensures
            self.slots()[middle_index()] matches Some(c) && *r == *c,
    {
        match &self.chunks[13] {
            Some(chunk) => chunk,
            None => vstd::pervasive::unreached(),
        }
    }
}

impl<T: SpatiallyMapped<3>> Neighborhood<T> {
    /// Every populated slot holds a fully populated volume.
    pub open spec fn contents_wf(self) -> bool {
        forall|i: int|
            0 <= i < 27 ==> (#[trigger] self.slots()[i] matches Some(c) ==> (*c).spatial_wf())
    }

    /// The item at a signed chunk-local coordinate, resolved against the
    /// neighbor the coordinate falls in; `None` when that slot is empty.
    pub open spec fn spec_at_pos(self, x: int, y: int, z: int) -> Option<T::Item> {
        match self.slots()[axis_layer(x) + 3 * axis_layer(y) + 9 * axis_layer(z)] {
            None => None,
            Some(c) => Some(
                (*c).spec_at(
                    [wrapped_local(x) as usize, wrapped_local(y) as usize, wrapped_local(z) as usize],
                ),
            ),
        }
    }

    /// Resolve a coordinate up to one chunk beyond the subject chunk's bounds
    /// against the neighborhood.
    pub fn at_pos(&self, pos: &[i32; 3]) -> (r: Option<&T::Item>)
        requires
            self.wf(),
            self.contents_wf(),
            -(CHUNK_SIZE as i32) <= pos[0] < 2 * CHUNK_SIZE as i32,
            -(CHUNK_SIZE as i32) <= pos[1] < 2 * CHUNK_SIZE as i32,
            -(CHUNK_SIZE as i32) <= pos[2] < 2 * CHUNK_SIZE as i32,
        ensures
            r is Some <==> self.spec_at_pos(pos[0] as int, pos[1] as int, pos[2] as int) is Some,
            r matches Some(item) ==> self.spec_at_pos(pos[0] as int, pos[1] as int, pos[2] as int)
                == Some(*item),
    {
        let size = CHUNK_SIZE as i32;
        let x = pos[0];
        let y = pos[1];
        let z = pos[2];
        let xn = axis_layer_of(x);
        let yn = axis_layer_of(y);
        let zn = axis_layer_of(z);
        let xl = ((x + size) % size) as usize;
        let yl = ((y + size) % size) as usize;
        let zl = ((z + size) % size) as usize;
        let index = xn + 3 * yn + 9 * zn;
        match &self.chunks[index] {
            None => None,
            Some(c) => Some(c.at_pos([xl, yl, zl])),
        }
    }
}

/// The derived view of a neighbor cache in which all 27 slots are populated:
/// an explicit completeness signal for downstream consumers.
pub struct FullNeighborhood<T> {
    chunks: Vec<Arc<T>>,
}

impl<T> FullNeighborhood<T> {
    /// The 27 snapshots, in offset-index order.
    pub closed spec fn slots(self) -> Seq<Arc<T>> {
        self.chunks@
    }

    pub open spec fn wf(self) -> bool {
        self.slots().len() == 27
    }

    /// Build the full view of a cache; `None` unless every slot is populated.
    pub fn from_cache(cache: &Neighborhood<T>) -> (r: Option<Self>)
        requires
            cache.wf(),
        ensures
            r is Some <==> cache.is_full(),
            r matches Some(f) ==> {
                &&& f.wf()
                &&& forall|i: int|
                    0 <= i < 27 ==> ((#[trigger] cache.slots()[i]) matches Some(c) && f.slots()[i]
                        == c)
            },
    {
        let mut chunks: Vec<Arc<T>> = Vec::new();
        let mut i: usize = 0;
        while i < 27
            invariant
                i <= 27,
                cache.wf(),
                chunks@.len() == i,
                forall|k: int|
                    0 <= k < i ==> ((#[trigger] cache.slots()[k]) matches Some(c) && chunks@[k]
                        == c),
            decreases 27 - i,
        {
            match &cache.chunks[i] {
                Some(c) => chunks.push(c.clone()),
                None => {
                    return None;
                },
            }
            i = i + 1;
        }
        Some(FullNeighborhood { chunks })
    }

    /// The snapshot at relative offset `pos`, each component in -1..=1.
    pub fn get_chunk(&self, pos: &[i32; 3]) -> (r: &Arc<T>)
        requires
            self.wf(),
            -1 <= pos[0] <= 1,
            -1 <= pos[1] <= 1,
            -1 <= pos[2] <= 1,
        ensures
            *r == self.slots()[offset_index(pos[0] as int, pos[1] as int, pos[2] as int)],
    {
        let x = pos[0];
        let y = pos[1];
        let z = pos[2];
        let index = ((x + 1) + 3 * (y + 1) + 9 * (z + 1)) as usize;
        &self.chunks[index]
    }

    /// The chunk's own datum.
    pub fn get_middle(&self) -> (r: &Arc<T>)
        requires
            self.wf(),
        ensures
            *r == self.slots()[middle_index()],
    {
        &self.chunks[13]
    }
}

impl<T: SpatiallyMapped<3>> FullNeighborhood<T> {
    /// Every snapshot holds a fully populated volume.
    pub open spec fn contents_wf(self) -> bool {
        forall|i: int| 0 <= i < 27 ==> (*#[trigger] self.slots()[i]).spatial_wf()
    }

    /// The item at a signed chunk-local coordinate, resolved against the
    /// neighbor the coordinate falls in.
    pub open spec fn spec_at_pos(self, x: int, y: int, z: int) -> T::Item {
        (*self.slots()[axis_layer(x) + 3 * axis_layer(y) + 9 * axis_layer(z)]).spec_at(
            [wrapped_local(x) as usize, wrapped_local(y) as usize, wrapped_local(z) as usize],
        )
    }

    /// Resolve a coordinate up to one chunk beyond the subject chunk's bounds
    /// against the neighborhood.
    pub fn at_pos(&self, pos: &[i32; 3]) -> (r: &T::Item)
        requires
            self.wf(),
            self.contents_wf(),
            -(CHUNK_SIZE as i32) <= pos[0] < 2 * CHUNK_SIZE as i32,
            -(CHUNK_SIZE as i32) <= pos[1] < 2 * CHUNK_SIZE as i32,
            -(CHUNK_SIZE as i32) <= pos[2] < 2 * CHUNK_SIZE as i32,
        ensures
            *r == self.spec_at_pos(pos[0] as int, pos[1] as int, pos[2] as int),
    {
        let size = CHUNK_SIZE as i32;
        let x = pos[0];
        let y = pos[1];
        let z = pos[2];
        let xn = axis_layer_of(x);
        let yn = axis_layer_of(y);
        let zn = axis_layer_of(z);
        let xl = ((x + size) % size) as usize;
        let yl = ((y + size) % size) as usize;
        let zl = ((z + size) % size) as usize;
        let index = xn + 3 * yn + 9 * zn;
        self.chunks[index].at_pos([xl, yl, zl])
    }
}

} // verus!
