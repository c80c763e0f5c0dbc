//! Incremental chunk-meshing pipeline for a voxel world.
//!
//! The world is split into fixed-size cubic chunks. Each chunk derives a
//! renderable set of unit quads from its own block volume and the block
//! volumes of its up to 26 spatial neighbors. The crate provides:
//!
//! - a bidirectional spatial index from chunk coordinates to chunk identities,
//! - a per-chunk neighbor cache with a change-propagation protocol and an
//!   explicit full-neighborhood signal,
//! - a background-task registry keyed by owning chunk, with replacement and
//!   cancellation tied to the owner's lifetime,
//! - a face-culling mesher with per-corner ambient-occlusion estimation, and
//! - the terrain pipeline tying height fields, block volumes, neighbor
//!   propagation and mesh tasks together.

pub mod block;
pub mod coords;
pub mod grid;
pub mod index;
pub mod instance;
pub mod mesh;
pub mod neighborhood;
pub mod normal;
pub mod pipeline;
pub mod spatial;
pub mod tasks;
pub mod tracker;
pub mod world_gen;

use vstd::prelude::*;

verus! {

/// Edge length, in voxels, of one cubic chunk.
pub const CHUNK_SIZE: usize = 32;

} // verus!
