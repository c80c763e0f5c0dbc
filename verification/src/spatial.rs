//! Chunk-local addressing: flattening of 2D and 3D chunk-local coordinates
//! into a linear index, and the capability trait for containers indexed by
//! such coordinates.

use vstd::prelude::*;

use crate::CHUNK_SIZE;

verus! {

/// Linear index of a chunk-local 3D position, z fastest, x slowest.
pub open spec fn spec_index_3d(x: int, y: int, z: int) -> int {
    z + y * CHUNK_SIZE + x * CHUNK_SIZE * CHUNK_SIZE
}

/// Linear index of a chunk-local 2D position, y fastest.
pub open spec fn spec_index_2d(x: int, y: int) -> int {
    y + x * CHUNK_SIZE
}

pub fn pos_to_index_3d(pos: [usize; 3]) -> (r: usize)
    requires
        pos[0] < CHUNK_SIZE,
        pos[1] < CHUNK_SIZE,
        pos[2] < CHUNK_SIZE,
    ensures
        r == spec_index_3d(pos[0] as int, pos[1] as int, pos[2] as int),
        r < CHUNK_SIZE * CHUNK_SIZE * CHUNK_SIZE,
{
    pos[2] + pos[1] * CHUNK_SIZE + pos[0] * CHUNK_SIZE * CHUNK_SIZE
}

pub fn pos_to_index_2d(pos: [usize; 2]) -> (r: usize)
    requires
        pos[0] < CHUNK_SIZE,
        pos[1] < CHUNK_SIZE,
    ensures
        r == spec_index_2d(pos[0] as int, pos[1] as int),
        r < CHUNK_SIZE * CHUNK_SIZE,
{
    pos[1] + pos[0] * CHUNK_SIZE
}

/// The flattened index, with the multiplications spelled out in literals.
pub proof fn lemma_index_3d_literal(x: int, y: int, z: int)
    ensures
        spec_index_3d(x, y, z) == z + y * 32 + x * 1024,
{
    assert(y * (CHUNK_SIZE as int) == y * 32 && x * (CHUNK_SIZE as int) * (CHUNK_SIZE as int) == x
        * 1024) by (nonlinear_arith)
        requires
            CHUNK_SIZE == 32,
    ;
}

/// The flattened index of an in-chunk position is in range.
pub proof fn lemma_index_3d_bounds(x: int, y: int, z: int)
    requires
        0 <= x < CHUNK_SIZE,
        0 <= y < CHUNK_SIZE,
        0 <= z < CHUNK_SIZE,
    ensures
        0 <= spec_index_3d(x, y, z) < CHUNK_SIZE * CHUNK_SIZE * CHUNK_SIZE,
{
    lemma_index_3d_literal(x, y, z);
    assert((CHUNK_SIZE as int) * (CHUNK_SIZE as int) * (CHUNK_SIZE as int) == 32768)
        by (nonlinear_arith)
        requires
            CHUNK_SIZE == 32,
    ;
}

/// Distinct in-chunk positions flatten to distinct indices.
pub proof fn lemma_index_3d_injective(x1: int, y1: int, z1: int, x2: int, y2: int, z2: int)
    requires
        0 <= x1 < CHUNK_SIZE,
        0 <= y1 < CHUNK_SIZE,
        0 <= z1 < CHUNK_SIZE,
        0 <= x2 < CHUNK_SIZE,
        0 <= y2 < CHUNK_SIZE,
        0 <= z2 < CHUNK_SIZE,
        spec_index_3d(x1, y1, z1) == spec_index_3d(x2, y2, z2),
    ensures
        x1 == x2,
        y1 == y2,
        z1 == z2,
{
    lemma_index_3d_literal(x1, y1, z1);
    lemma_index_3d_literal(x2, y2, z2);
}

/// The flattened 2D index, with the multiplication spelled out in a literal.
pub proof fn lemma_index_2d_literal(x: int, y: int)
    ensures
        spec_index_2d(x, y) == y + x * 32,
{
    assert(x * (CHUNK_SIZE as int) == x * 32) by (nonlinear_arith)
        requires
            CHUNK_SIZE == 32,
    ;
}

/// The flattened index of an in-chunk column is in range.
pub proof fn lemma_index_2d_bounds(x: int, y: int)
    requires
        0 <= x < CHUNK_SIZE,
        0 <= y < CHUNK_SIZE,
    ensures
        0 <= spec_index_2d(x, y) < CHUNK_SIZE * CHUNK_SIZE,
{
    lemma_index_2d_literal(x, y);
    assert((CHUNK_SIZE as int) * (CHUNK_SIZE as int) == 1024) by (nonlinear_arith)
        requires
            CHUNK_SIZE == 32,
    ;
}

/// A container addressed by chunk-local coordinates of dimension `DIM`.
pub trait SpatiallyMapped<const DIM: usize> {
    type Item;

    /// The container holds one item per chunk-local position.
    spec fn spatial_wf(&self) -> bool;

    /// The item at a chunk-local position.
    spec fn spec_at(&self, pos: [usize; DIM]) -> Self::Item;

    fn at_pos(&self, pos: [usize; DIM]) -> (r: &Self::Item)
        requires
            self.spatial_wf(),
            forall|i: int| 0 <= i < DIM ==> pos[i] < CHUNK_SIZE,
        ensures
            *r == self.spec_at(pos),
    ;
}

} // verus!
