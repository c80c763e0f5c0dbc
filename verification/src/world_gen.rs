//! Terrain data derived per chunk: the height field sampled from the world
//! noise generator, and the block volume classified from it.
//!
//! Height samples are fixed-point values: the sampler's real-valued output
//! scaled by `HEIGHT_SCALE` and rounded, so the classification below is
//! exact integer arithmetic.

use vstd::prelude::*;

use crate::block::Block;
use crate::coords::ChunkPosition;
use crate::spatial::{
    lemma_index_2d_bounds, lemma_index_3d_bounds, lemma_index_3d_injective, pos_to_index_2d,
    pos_to_index_3d, spec_index_2d, spec_index_3d, SpatiallyMapped,
};
use crate::CHUNK_SIZE;

verus! {

/// Fixed-point scale: one world unit in a stored height sample.
pub const HEIGHT_SCALE: i64 = 65536;

/// How many world units of terrain height one unit of noise output stands
/// for.
pub const WORLD_AMPLITUDE: i64 = 10;

/// Bound on a stored height sample: the noise output is normalized into
/// roughly [-1, 1], so two units of headroom are ample.
pub open spec fn sample_ok(s: i64) -> bool {
    -2 * HEIGHT_SCALE <= s <= 2 * HEIGHT_SCALE
}

/// One scaled height sample per (x, z) column of a chunk.
pub struct HeightField {
    samples: Vec<i64>,
}

impl HeightField {
    /// The samples, x-major as `spec_index_2d` lays them out.
    pub closed spec fn values(self) -> Seq<i64> {
        self.samples@
    }

    /// Every sample is in the range the bounded noise can produce.
    pub open spec fn samples_ok(self) -> bool {
        forall|i: int| 0 <= i < self.values().len() ==> sample_ok(#[trigger] self.values()[i])
    }

    pub fn new(samples: Vec<i64>) -> (r: Self)
        requires
            samples@.len() == CHUNK_SIZE * CHUNK_SIZE,
            forall|i: int| 0 <= i < samples@.len() ==> sample_ok(#[trigger] samples@[i]),
        ensures
            r.values() == samples@,
            r.spatial_wf(),
            r.samples_ok(),
    {
        HeightField { samples }
    }
}

impl SpatiallyMapped<2> for HeightField {
    type Item = i64;

    open spec fn spatial_wf(&self) -> bool {
        self.values().len() == CHUNK_SIZE * CHUNK_SIZE
    }

    open spec fn spec_at(&self, pos: [usize; 2]) -> i64 {
        self.values()[spec_index_2d(pos[0] as int, pos[1] as int)]
    }

    fn at_pos(&self, pos: [usize; 2]) -> (r: &i64) {
        proof {
            assert(pos[0] < CHUNK_SIZE && pos[1] < CHUNK_SIZE);
        }
        &self.samples[pos_to_index_2d(pos)]
    }
}

/// The 32^3 block volume of one chunk.
pub struct Blocks {
    blocks: Vec<Block>,
}

impl Blocks {
    /// The voxels, laid out as `spec_index_3d` maps positions to indices.
    pub closed spec fn volume(self) -> Seq<Block> {
        self.blocks@
    }

    pub fn new(blocks: Vec<Block>) -> (r: Self)
        requires
            blocks@.len() == CHUNK_SIZE * CHUNK_SIZE * CHUNK_SIZE,
        ensures
            r.volume() == blocks@,
            r.spatial_wf(),
    {
        Blocks { blocks }
    }
}

impl SpatiallyMapped<3> for Blocks {
    type Item = Block;

    open spec fn spatial_wf(&self) -> bool {
        self.volume().len() == CHUNK_SIZE * CHUNK_SIZE * CHUNK_SIZE
    }

    open spec fn spec_at(&self, pos: [usize; 3]) -> Block {
        self.volume()[spec_index_3d(pos[0] as int, pos[1] as int, pos[2] as int)]
    }

    fn at_pos(&self, pos: [usize; 3]) -> (r: &Block) {
        proof {
            assert(pos[0] < CHUNK_SIZE && pos[1] < CHUNK_SIZE && pos[2] < CHUNK_SIZE);
        }
        &self.blocks[pos_to_index_3d(pos)]
    }
}

/// The block kind of a voxel whose world-space height is `true_y`, in a
/// column whose surface lies at `h` (both in `HEIGHT_SCALE` fixed point):
/// more than one unit below the surface is stone, within one unit below is
/// dirt, at or above the surface is air.
pub open spec fn classify_block(true_y: int, h: int) -> Block {
    if (true_y + 1) * HEIGHT_SCALE < h {
        Block::Stone
    } else if true_y * HEIGHT_SCALE < h {
        Block::Dirt
    } else {
        Block::Air
    }
}

/// Chunk coordinates the pipeline accepts: far below the 32-bit limits, so
/// voxel world coordinates stay in range.
pub open spec fn chunk_pos_ok(p: ChunkPosition) -> bool {
    &&& -0x100_0000 <= p.0.x <= 0x100_0000
    &&& -0x100_0000 <= p.0.y <= 0x100_0000
    &&& -0x100_0000 <= p.0.z <= 0x100_0000
}

/// A block volume is the classification of a height field: every voxel of
/// `volume` is `classify_block` of its world height and its column's
/// surface height.
pub open spec fn blocks_match_heights(
    position: ChunkPosition,
    heights: Seq<i64>,
    volume: Seq<Block>,
) -> bool {
    forall|x: int, y: int, z: int|
        0 <= x < CHUNK_SIZE && 0 <= y < CHUNK_SIZE && 0 <= z < CHUNK_SIZE
            ==> #[trigger] volume[spec_index_3d(x, y, z)] == classify_block(
            position.0.y * CHUNK_SIZE + y,
            heights[spec_index_2d(x, z)] * WORLD_AMPLITUDE,
        )
}

/// Derive a chunk's block volume from its height field: each voxel is
/// classified against its column's surface height, scaled by the world
/// amplitude.
pub fn generate_blocks(position: &ChunkPosition, heights: &HeightField) -> (r: Blocks)
    requires
        heights.spatial_wf(),
        heights.samples_ok(),
        chunk_pos_ok(*position),
    ensures
        r.spatial_wf(),
        blocks_match_heights(*position, heights.values(), r.volume()),
{
    proof {
        assert(-0x2000_0000 <= position.0.y * (CHUNK_SIZE as int) <= 0x2000_0000)
            by (nonlinear_arith)
            requires
                CHUNK_SIZE == 32,
                -0x100_0000 <= position.0.y <= 0x100_0000,
        ;
    }
    let chunk_y = position.0.y * (CHUNK_SIZE as i32);
    let mut blocks: Vec<Block> = Vec::new();
    let mut x: usize = 0;
    while x < CHUNK_SIZE
        invariant
            x <= CHUNK_SIZE,
            heights.spatial_wf(),
            heights.samples_ok(),
            chunk_pos_ok(*position),
            chunk_y == position.0.y * CHUNK_SIZE,
            -0x2000_0000 <= chunk_y <= 0x2000_0000,
            blocks@.len() == spec_index_3d(x as int, 0, 0),
            forall|i: int, j: int, k: int|
                0 <= i < CHUNK_SIZE && 0 <= j < CHUNK_SIZE && 0 <= k < CHUNK_SIZE
                    && spec_index_3d(i, j, k) < blocks@.len()
                    ==> #[trigger] blocks@[spec_index_3d(i, j, k)] == classify_block(
                    position.0.y * CHUNK_SIZE + j,
                    heights.values()[spec_index_2d(i, k)] * WORLD_AMPLITUDE,
                ),
        decreases CHUNK_SIZE - x,
    {
        let mut y: usize = 0;
        while y < CHUNK_SIZE
            invariant
                y <= CHUNK_SIZE,
                x < CHUNK_SIZE,
                heights.spatial_wf(),
                heights.samples_ok(),
                chunk_pos_ok(*position),
                chunk_y == position.0.y * CHUNK_SIZE,
                -0x2000_0000 <= chunk_y <= 0x2000_0000,
                blocks@.len() == spec_index_3d(x as int, y as int, 0),
                forall|i: int, j: int, k: int|
                    0 <= i < CHUNK_SIZE && 0 <= j < CHUNK_SIZE && 0 <= k < CHUNK_SIZE
                        && spec_index_3d(i, j, k) < blocks@.len()
                        ==> #[trigger] blocks@[spec_index_3d(i, j, k)] == classify_block(
                        position.0.y * CHUNK_SIZE + j,
                        heights.values()[spec_index_2d(i, k)] * WORLD_AMPLITUDE,
                    ),
            decreases CHUNK_SIZE - y,
        {
            let true_y = (y as i32) as i64 + (chunk_y as i64);
            let mut z: usize = 0;
            while z < CHUNK_SIZE
                invariant
                    z <= CHUNK_SIZE,
                    x < CHUNK_SIZE,
                    y < CHUNK_SIZE,
                    heights.spatial_wf(),
                    heights.samples_ok(),
                    chunk_pos_ok(*position),
                    chunk_y == position.0.y * CHUNK_SIZE,
                    -0x2000_0000 <= chunk_y <= 0x2000_0000,
                    true_y == position.0.y * CHUNK_SIZE + y,
                    -0x2000_0100 <= true_y <= 0x2000_0100,
                    blocks@.len() == spec_index_3d(x as int, y as int, z as int),
                    forall|i: int, j: int, k: int|
                        0 <= i < CHUNK_SIZE && 0 <= j < CHUNK_SIZE && 0 <= k < CHUNK_SIZE
                            && spec_index_3d(i, j, k) < blocks@.len()
                            ==> #[trigger] blocks@[spec_index_3d(i, j, k)] == classify_block(
                            position.0.y * CHUNK_SIZE + j,
                            heights.values()[spec_index_2d(i, k)] * WORLD_AMPLITUDE,
                        ),
                decreases CHUNK_SIZE - z,
            {
                proof {
                    lemma_index_2d_bounds(x as int, z as int);
                    lemma_index_3d_bounds(x as int, y as int, z as int);
                }
                let sample = *heights.at_pos([x, z]);
                proof {
                    assert(-0x7000_0000_0000_0000 <= sample * WORLD_AMPLITUDE
                        <= 0x7000_0000_0000_0000) by (nonlinear_arith)
                        requires
                            WORLD_AMPLITUDE == 10,
                            -131072 <= sample <= 131072,
                    ;
                    assert(-0x7000_0000_0000_0000 <= (true_y + 1) * HEIGHT_SCALE
                        <= 0x7000_0000_0000_0000 && -0x7000_0000_0000_0000 <= true_y * HEIGHT_SCALE
                        <= 0x7000_0000_0000_0000) by (nonlinear_arith)
                        requires
                            HEIGHT_SCALE == 65536,
                            -0x2000_0100 <= true_y <= 0x2000_0100,
                    ;
                }
                let surface = sample * WORLD_AMPLITUDE;
                let block = if (true_y + 1) * HEIGHT_SCALE < surface {
                    Block::Stone
                } else if true_y * HEIGHT_SCALE < surface {
                    Block::Dirt
                } else {
                    Block::Air
                };
                blocks.push(block);
                proof {
                    let ghost nlen = blocks@.len() as int;
                    assert(blocks@[nlen - 1] == classify_block(
                        position.0.y * CHUNK_SIZE + y,
                        heights.values()[spec_index_2d(x as int, z as int)] * WORLD_AMPLITUDE,
                    ));
                    assert forall|i: int, j: int, k: int|
                        0 <= i < CHUNK_SIZE && 0 <= j < CHUNK_SIZE && 0 <= k < CHUNK_SIZE
                            && spec_index_3d(i, j, k) < nlen implies #[trigger] blocks@[spec_index_3d(
                        i,
                        j,
                        k,
                    )] == classify_block(
                        position.0.y * CHUNK_SIZE + j,
                        heights.values()[spec_index_2d(i, k)] * WORLD_AMPLITUDE,
                    ) by {
                        if spec_index_3d(i, j, k) == nlen - 1 {
                            lemma_index_3d_injective(i, j, k, x as int, y as int, z as int);
                        }
                    }
                }
                z = z + 1;
            }
            proof {
                assert(spec_index_3d(x as int, y as int + 1, 0) == spec_index_3d(
                    x as int,
                    y as int,
                    CHUNK_SIZE as int,
                )) by (nonlinear_arith);
            }
            y = y + 1;
        }
        proof {
            assert(spec_index_3d(x as int + 1, 0, 0) == spec_index_3d(
                x as int,
                CHUNK_SIZE as int,
                0,
            )) by (nonlinear_arith);
        }
        x = x + 1;
    }
    proof {
        assert(spec_index_3d(CHUNK_SIZE as int, 0, 0) == CHUNK_SIZE * CHUNK_SIZE * CHUNK_SIZE);
    }
    Blocks::new(blocks)
}

} // verus!
