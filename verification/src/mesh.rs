//! The face-culling mesher: one unit quad per visible voxel face, with a
//! 0-4 ambient-occlusion level per quad corner.
//!
//! The input is a read-only neighborhood of block volumes whose middle is
//! the subject chunk. Coordinates that fall outside the subject chunk are
//! resolved against the matching neighbor volume; an empty neighbor slot
//! reads as air, so meshing proceeds on incomplete neighborhoods with air
//! substituted — a deliberate approximation at world edges.

use vstd::prelude::*;

use crate::block::Block;
use crate::coords::Vec3i;
use crate::neighborhood::Neighborhood;
use crate::normal::Normal;
use crate::world_gen::Blocks;
use crate::CHUNK_SIZE;

verus! {

/// One emitted visible voxel face: a unit quad.
#[derive(Clone, Copy, Debug)]
pub struct Quad {
    pub block: Block,
    pub normal: Normal,
    pub width: u32,
    pub height: u32,
    pub pos: Vec3i,
    /// Column-wise, starting with top right.
    pub ambient_occlusion: [u8; 4],
}

/// The quads of one chunk's current mesh.
pub struct Quads(pub Vec<Quad>);

/// The world's running total of installed quads.
#[derive(Clone, Copy, Debug, PartialEq, Eq, Structural)]
pub struct QuadCount(pub u64);

/// The meshing algorithm to run.
#[derive(Clone, Copy, Debug, PartialEq, Eq, Structural)]
pub enum MeshingType {
    Naive,
}

/// The block kind at a signed chunk-local coordinate: the sample from the
/// neighborhood, or air where the neighbor slot is empty.
pub open spec fn spec_block_at(n: Neighborhood<Blocks>, x: int, y: int, z: int) -> Block {
    match n.spec_at_pos(x, y, z) {
        None => Block::Air,
        Some(b) => b,
    }
}

/// Whether the voxel at a signed chunk-local coordinate occludes light.
#[verifier::opaque]
pub open spec fn spec_solid_at(n: Neighborhood<Blocks>, x: int, y: int, z: int) -> bool {
    !spec_block_at(n, x, y, z).spec_transparent()
}

/// A face is emitted exactly between a non-empty voxel and a transparent
/// (or absent) adjacent voxel.
pub open spec fn face_visible(
    n: Neighborhood<Blocks>,
    x: int,
    y: int,
    z: int,
    normal: Normal,
) -> bool {
    let d = normal.spec_unit_direction();
    &&& !(spec_block_at(n, x, y, z) is Air)
    &&& spec_block_at(n, x + d.x, y + d.y, z + d.z).spec_transparent()
}

/// The quarter-occlusion table: both sides solid shadow the corner fully,
/// one side solid shadows it more when the diagonal is solid too, and with
/// open sides only the diagonal contributes.
pub open spec fn ao_from_samples(side0: bool, side1: bool, corner: bool) -> u8 {
    if side0 && side1 {
        4u8
    } else if side0 || side1 {
        if corner {
            3u8
        } else {
            2u8
        }
    } else if corner {
        1u8
    } else {
        0u8
    }
}

/// The sign of the first perpendicular offset for a quad corner.
pub open spec fn corner_sign_0(corner: int) -> int {
    if corner == 0 || corner == 1 {
        -1
    } else {
        1
    }
}

/// The sign of the second perpendicular offset for a quad corner.
pub open spec fn corner_sign_1(corner: int) -> int {
    if corner == 0 || corner == 2 {
        -1
    } else {
        1
    }
}

/// The ambient-occlusion level of one corner of the face at (x, y, z)
/// pointing in `normal`: three voxels one layer beyond the face are
/// sampled — the corner's two side neighbors and its diagonal.
pub open spec fn spec_corner_ao(
    n: Neighborhood<Blocks>,
    x: int,
    y: int,
    z: int,
    normal: Normal,
    corner: int,
) -> u8 {
    let d = normal.spec_unit_direction();
    let axes = normal.spec_perpendicular_axes();
    let a0 = axes.0.spec_unit_direction();
    let a1 = axes.1.spec_unit_direction();
    let s0 = corner_sign_0(corner);
    let s1 = corner_sign_1(corner);
    let ux = x + d.x;
    let uy = y + d.y;
    let uz = z + d.z;
    let left = spec_solid_at(n, ux + a0.x * s0, uy + a0.y * s0, uz + a0.z * s0);
    let right = spec_solid_at(n, ux + a1.x * s1, uy + a1.y * s1, uz + a1.z * s1);
    let diagonal = spec_solid_at(
        n,
        ux + a0.x * s0 + a1.x * s1,
        uy + a0.y * s0 + a1.y * s1,
        uz + a0.z * s0 + a1.z * s1,
    );
    ao_from_samples(left, right, diagonal)
}

/// The quad emitted for the face at (x, y, z) pointing in `normal`.
pub open spec fn quad_for(
    n: Neighborhood<Blocks>,
    x: int,
    y: int,
    z: int,
    normal: Normal,
) -> Quad {
    Quad {
        block: spec_block_at(n, x, y, z),
        normal,
        width: 1u32,
        height: 1u32,
        pos: Vec3i { x: x as i32, y: y as i32, z: z as i32 },
        ambient_occlusion: [
            spec_corner_ao(n, x, y, z, normal, 0),
            spec_corner_ao(n, x, y, z, normal, 1),
            spec_corner_ao(n, x, y, z, normal, 2),
            spec_corner_ao(n, x, y, z, normal, 3),
        ],
    }
}

/// The quad emitted for one face, as a sequence: a singleton when the face
/// is visible, empty otherwise.
pub open spec fn face_quads(
    n: Neighborhood<Blocks>,
    x: int,
    y: int,
    z: int,
    normal: Normal,
) -> Seq<Quad> {
    if face_visible(n, x, y, z, normal) {
        seq![quad_for(n, x, y, z, normal)]
    } else {
        Seq::empty()
    }
}

/// All quads of one voxel, its six faces probed in a fixed order.
#[verifier::opaque]
pub open spec fn cell_quads(n: Neighborhood<Blocks>, x: int, y: int, z: int) -> Seq<Quad> {
    face_quads(n, x, y, z, Normal::PosX) + face_quads(n, x, y, z, Normal::NegX) + face_quads(
        n,
        x,
        y,
        z,
        Normal::PosY,
    ) + face_quads(n, x, y, z, Normal::NegY) + face_quads(n, x, y, z, Normal::PosZ) + face_quads(
        n,
        x,
        y,
        z,
        Normal::NegZ,
    )
}

/// The x coordinate of the voxel scanned at step `c`.
pub open spec fn cell_x(c: int) -> int {
    c / 1024
}

/// The y coordinate of the voxel scanned at step `c`.
pub open spec fn cell_y(c: int) -> int {
    (c / 32) % 32
}

/// The z coordinate of the voxel scanned at step `c`.
pub open spec fn cell_z(c: int) -> int {
    c % 32
}

/// All quads of the first `c` voxels in scan order.
pub open spec fn quads_upto(n: Neighborhood<Blocks>, c: int) -> Seq<Quad>
    decreases c,
{
    if c <= 0 {
        Seq::empty()
    } else {
        quads_upto(n, c - 1) + cell_quads(n, cell_x(c - 1), cell_y(c - 1), cell_z(c - 1))
    }
}

/// Every quad of the subject chunk's mesh, in scan order.
pub open spec fn all_quads(n: Neighborhood<Blocks>) -> Seq<Quad> {
    quads_upto(n, 32768)
}

/// The mesh of the first `c` voxels never shrinks as the scan proceeds:
/// what an earlier step emitted stays, at the same place.
proof fn lemma_upto_prefix(n: Neighborhood<Blocks>, c1: int, c2: int)
    requires
        0 <= c1 <= c2,
    ensures
        quads_upto(n, c1).len() <= quads_upto(n, c2).len(),
        forall|i: int|
            0 <= i < quads_upto(n, c1).len() ==> #[trigger] quads_upto(n, c2)[i] == quads_upto(
                n,
                c1,
            )[i],
    decreases c2 - c1,
{
    if c1 < c2 {
        lemma_upto_prefix(n, c1, c2 - 1);
    }
}

/// Soundness of the mesh: every emitted quad is the quad of some visible
/// face of the subject chunk — a face between a non-empty voxel and a
/// transparent or absent adjacent voxel.
pub proof fn lemma_quads_sound(n: Neighborhood<Blocks>, i: int)
    requires
        0 <= i < all_quads(n).len(),
    ensures
        exists|x: int, y: int, z: int, normal: Normal|
            0 <= x < CHUNK_SIZE && 0 <= y < CHUNK_SIZE && 0 <= z < CHUNK_SIZE && #[trigger]
            face_visible(n, x, y, z, normal) && all_quads(n)[i] == #[trigger] quad_for(
                n,
                x,
                y,
                z,
                normal,
            ),
{
    lemma_upto_sound(n, 32768, i);
}

#[verifier::rlimit(100)]
proof fn lemma_upto_sound(n: Neighborhood<Blocks>, c: int, i: int)
    requires
        0 <= c <= 32768,
        0 <= i < quads_upto(n, c).len(),
    ensures
        exists|x: int, y: int, z: int, normal: Normal|
            0 <= x < CHUNK_SIZE && 0 <= y < CHUNK_SIZE && 0 <= z < CHUNK_SIZE && #[trigger]
            face_visible(n, x, y, z, normal) && quads_upto(n, c)[i] == #[trigger] quad_for(
                n,
                x,
                y,
                z,
                normal,
            ),
    decreases c,
{
    let prev = quads_upto(n, c - 1);
    if i < prev.len() {
        lemma_upto_sound(n, c - 1, i);
        assert(quads_upto(n, c)[i] == prev[i]);
    } else {
        reveal(cell_quads);
        let x = cell_x(c - 1);
        let y = cell_y(c - 1);
        let z = cell_z(c - 1);
        assert(0 <= x < CHUNK_SIZE && 0 <= y < CHUNK_SIZE && 0 <= z < CHUNK_SIZE);
        let cell = cell_quads(n, x, y, z);
        let j = i - prev.len();
        assert(quads_upto(n, c)[i] == cell[j]);
        let s0 = face_quads(n, x, y, z, Normal::PosX);
        let s1 = face_quads(n, x, y, z, Normal::NegX);
        let s2 = face_quads(n, x, y, z, Normal::PosY);
        let s3 = face_quads(n, x, y, z, Normal::NegY);
        let s4 = face_quads(n, x, y, z, Normal::PosZ);
        let s5 = face_quads(n, x, y, z, Normal::NegZ);
        if j < s0.len() {
            assert(face_visible(n, x, y, z, Normal::PosX) && cell[j] == quad_for(
                n,
                x,
                y,
                z,
                Normal::PosX,
            ));
        } else if j < s0.len() + s1.len() {
            assert(face_visible(n, x, y, z, Normal::NegX) && cell[j] == quad_for(
                n,
                x,
                y,
                z,
                Normal::NegX,
            ));
        } else if j < s0.len() + s1.len() + s2.len() {
            assert(face_visible(n, x, y, z, Normal::PosY) && cell[j] == quad_for(
                n,
                x,
                y,
                z,
                Normal::PosY,
            ));
        } else if j < s0.len() + s1.len() + s2.len() + s3.len() {
            assert(face_visible(n, x, y, z, Normal::NegY) && cell[j] == quad_for(
                n,
                x,
                y,
                z,
                Normal::NegY,
            ));
        } else if j < s0.len() + s1.len() + s2.len() + s3.len() + s4.len() {
            assert(face_visible(n, x, y, z, Normal::PosZ) && cell[j] == quad_for(
                n,
                x,
                y,
                z,
                Normal::PosZ,
            ));
        } else {
            assert(face_visible(n, x, y, z, Normal::NegZ) && cell[j] == quad_for(
                n,
                x,
                y,
                z,
                Normal::NegZ,
            ));
        }
    }
}

/// Completeness of the mesh: every visible face of the subject chunk has
/// its quad in the emitted mesh.
proof fn lemma_cell_coords(x: int, y: int, z: int)
    requires
        0 <= x < 32,
        0 <= y < 32,
        0 <= z < 32,
    ensures
        cell_x(x * 1024 + y * 32 + z) == x,
        cell_y(x * 1024 + y * 32 + z) == y,
        cell_z(x * 1024 + y * 32 + z) == z,
{
    assert((x * 1024 + y * 32 + z) / 1024 == x && ((x * 1024 + y * 32 + z) / 32) % 32 == y && (x
        * 1024 + y * 32 + z) % 32 == z) by (nonlinear_arith)
        requires
            0 <= x < 32,
            0 <= y < 32,
            0 <= z < 32,
    ;
}

#[verifier::rlimit(100)]
pub proof fn lemma_quads_complete(n: Neighborhood<Blocks>, x: int, y: int, z: int, normal: Normal)
    requires
        0 <= x < CHUNK_SIZE,
        0 <= y < CHUNK_SIZE,
        0 <= z < CHUNK_SIZE,
        face_visible(n, x, y, z, normal),
    ensures
        all_quads(n).contains(quad_for(n, x, y, z, normal)),
{
    reveal(cell_quads);
    let c = x * 1024 + y * 32 + z;
    lemma_cell_coords(x, y, z);
    assert(0 <= c < 32768);
    let cell = cell_quads(n, x, y, z);
    let q = quad_for(n, x, y, z, normal);
    let s0 = face_quads(n, x, y, z, Normal::PosX);
    let s1 = face_quads(n, x, y, z, Normal::NegX);
    let s2 = face_quads(n, x, y, z, Normal::PosY);
    let s3 = face_quads(n, x, y, z, Normal::NegY);
    let s4 = face_quads(n, x, y, z, Normal::PosZ);
    let s5 = face_quads(n, x, y, z, Normal::NegZ);
    let j: int = match normal {
        Normal::PosX => 0int,
        Normal::NegX => s0.len() as int,
        Normal::PosY => s0.len() as int + s1.len(),
        Normal::NegY => s0.len() as int + s1.len() + s2.len(),
        Normal::PosZ => s0.len() as int + s1.len() + s2.len() + s3.len(),
        Normal::NegZ => s0.len() as int + s1.len() + s2.len() + s3.len() + s4.len(),
    };
    assert(0 <= j < cell.len() && cell[j] == q);
    let prev = quads_upto(n, c);
    assert(quads_upto(n, c + 1) == prev + cell);
    assert(quads_upto(n, c + 1)[prev.len() + j] == q);
    lemma_upto_prefix(n, c + 1, 32768);
    assert(all_quads(n)[prev.len() + j] == q);
}

/// Both side samples solid always gives full occlusion, whatever the
/// diagonal holds; no solid sample at all gives none.
pub proof fn lemma_ambient_occlusion_table(side0: bool, side1: bool, corner: bool)
    ensures
        side0 && side1 ==> ao_from_samples(side0, side1, corner) == 4,
        !side0 && !side1 && !corner ==> ao_from_samples(side0, side1, corner) == 0,
{
}

fn block_at(blocks: &Neighborhood<Blocks>, pos: [i32; 3]) -> (r: Block)
    requires
        blocks.wf(),
        blocks.contents_wf(),
        -(CHUNK_SIZE as i32) <= pos[0] < 2 * CHUNK_SIZE as i32,
        -(CHUNK_SIZE as i32) <= pos[1] < 2 * CHUNK_SIZE as i32,
        -(CHUNK_SIZE as i32) <= pos[2] < 2 * CHUNK_SIZE as i32,
    ensures
        r == spec_block_at(*blocks, pos[0] as int, pos[1] as int, pos[2] as int),
{
    match blocks.at_pos(&pos) {
        Some(b) => *b,
        None => Block::Air,
    }
}

fn solid_at(blocks: &Neighborhood<Blocks>, pos: [i32; 3]) -> (r: bool)
    requires
        blocks.wf(),
        blocks.contents_wf(),
        -(CHUNK_SIZE as i32) <= pos[0] < 2 * CHUNK_SIZE as i32,
        -(CHUNK_SIZE as i32) <= pos[1] < 2 * CHUNK_SIZE as i32,
        -(CHUNK_SIZE as i32) <= pos[2] < 2 * CHUNK_SIZE as i32,
    ensures
        r == spec_solid_at(*blocks, pos[0] as int, pos[1] as int, pos[2] as int),
{
    proof {
        reveal(spec_solid_at);
    }
    !block_at(blocks, pos).is_transparent()
}

/// The ambient-occlusion level of one corner (0-3) of the face of the voxel
/// at `pos` pointing in `normal`.
#[verifier::rlimit(100)]
pub fn get_ambient_occlusion_factor(
    blocks: &Neighborhood<Blocks>,
    pos: Vec3i,
    normal: &Normal,
    corner_index: u8,
) -> (r: u8)
    requires
        blocks.wf(),
        blocks.contents_wf(),
        0 <= pos.x < CHUNK_SIZE as i32,
        0 <= pos.y < CHUNK_SIZE as i32,
        0 <= pos.z < CHUNK_SIZE as i32,
        corner_index < 4,
    ensures
        r == spec_corner_ao(
            *blocks,
            pos.x as int,
            pos.y as int,
            pos.z as int,
            *normal,
            corner_index as int,
        ),
{
    let (axis_0, axis_1) = normal.perpendicular_axes();
    let d = normal.as_unit_direction();
    let up = Vec3i { x: pos.x + d.x, y: pos.y + d.y, z: pos.z + d.z };
    let sign_0: i32 = match corner_index {
        0 | 1 => -1,
        _ => 1,
    };
    let sign_1: i32 = match corner_index {
        0 | 2 => -1,
        _ => 1,
    };
    let a0 = axis_0.as_unit_direction();
    let a1 = axis_1.as_unit_direction();
    proof {
        assert((-1 <= a0.x * sign_0 <= 1) && (-1 <= a0.y * sign_0 <= 1) && (-1 <= a0.z * sign_0
            <= 1) && (-1 <= a1.x * sign_1 <= 1) && (-1 <= a1.y * sign_1 <= 1) && (-1 <= a1.z
            * sign_1 <= 1)) by (nonlinear_arith)
            requires
                -1 <= a0.x <= 1,
                -1 <= a0.y <= 1,
                -1 <= a0.z <= 1,
                -1 <= a1.x <= 1,
                -1 <= a1.y <= 1,
                -1 <= a1.z <= 1,
                sign_0 == -1 || sign_0 == 1,
                sign_1 == -1 || sign_1 == 1,
        ;
    }
    let offset_0 = Vec3i { x: a0.x * sign_0, y: a0.y * sign_0, z: a0.z * sign_0 };
    let offset_1 = Vec3i { x: a1.x * sign_1, y: a1.y * sign_1, z: a1.z * sign_1 };
    let left = solid_at(blocks, [up.x + offset_0.x, up.y + offset_0.y, up.z + offset_0.z]);
    let right = solid_at(blocks, [up.x + offset_1.x, up.y + offset_1.y, up.z + offset_1.z]);
    let corner = solid_at(
        blocks,
        [
            up.x + offset_0.x + offset_1.x,
            up.y + offset_0.y + offset_1.y,
            up.z + offset_0.z + offset_1.z,
        ],
    );
    if left && right {
        return 4;
    }
    if left || right {
        if corner {
            return 3;
        } else {
            return 2;
        }
    }
    if corner {
        return 1;
    }
    return 0;
}

/// The quad of the face of the voxel at `pos` pointing in `normal`, when
/// that face is visible.
pub fn get_quad_on_face(blocks: &Neighborhood<Blocks>, pos: [i32; 3], normal: &Normal) -> (r:
    Option<Quad>)
    requires
        blocks.wf(),
        blocks.contents_wf(),
        0 <= pos[0] < CHUNK_SIZE as i32,
        0 <= pos[1] < CHUNK_SIZE as i32,
        0 <= pos[2] < CHUNK_SIZE as i32,
    ensures
        r is Some <==> face_visible(*blocks, pos[0] as int, pos[1] as int, pos[2] as int, *normal),
        r matches Some(q) ==> q == quad_for(
            *blocks,
            pos[0] as int,
            pos[1] as int,
            pos[2] as int,
            *normal,
        ),
{
    let block = block_at(blocks, pos);
    if let Block::Air = block {
        return None;
    }
    let d = normal.as_unit_direction();
    let other_pos = [pos[0] + d.x, pos[1] + d.y, pos[2] + d.z];
    let other_block = block_at(blocks, other_pos);
    if !other_block.is_transparent() {
        return None;
    }
    let p = Vec3i { x: pos[0], y: pos[1], z: pos[2] };
    let quad = Quad {
        block,
        normal: *normal,
        width: 1,
        height: 1,
        pos: p,
        ambient_occlusion: [
            get_ambient_occlusion_factor(blocks, p, normal, 0),
            get_ambient_occlusion_factor(blocks, p, normal, 1),
            get_ambient_occlusion_factor(blocks, p, normal, 2),
            get_ambient_occlusion_factor(blocks, p, normal, 3),
        ],
    };
    return Some(quad);
}

/// All quads of one voxel: its six faces probed in a fixed order.
#[verifier::rlimit(100)]
pub fn get_quads_around_block(blocks: &Neighborhood<Blocks>, pos: [i32; 3]) -> (r: Vec<Quad>)
    requires
        blocks.wf(),
        blocks.contents_wf(),
        0 <= pos[0] < CHUNK_SIZE as i32,
        0 <= pos[1] < CHUNK_SIZE as i32,
        0 <= pos[2] < CHUNK_SIZE as i32,
    ensures
        r@ == cell_quads(*blocks, pos[0] as int, pos[1] as int, pos[2] as int),
{
    let ghost x = pos[0] as int;
    let ghost y = pos[1] as int;
    let ghost z = pos[2] as int;
    let mut r: Vec<Quad> = Vec::new();
    if let Some(q) = get_quad_on_face(blocks, pos, &Normal::PosX) {
        r.push(q);
    }
    proof {
        assert(r@ =~= face_quads(*blocks, x, y, z, Normal::PosX));
    }
    if let Some(q) = get_quad_on_face(blocks, pos, &Normal::NegX) {
        r.push(q);
    }
    proof {
        assert(r@ =~= face_quads(*blocks, x, y, z, Normal::PosX) + face_quads(
            *blocks,
            x,
            y,
            z,
            Normal::NegX,
        ));
    }
    if let Some(q) = get_quad_on_face(blocks, pos, &Normal::PosY) {
        r.push(q);
    }
    proof {
        assert(r@ =~= face_quads(*blocks, x, y, z, Normal::PosX) + face_quads(
            *blocks,
            x,
            y,
            z,
            Normal::NegX,
        ) + face_quads(*blocks, x, y, z, Normal::PosY));
    }
    if let Some(q) = get_quad_on_face(blocks, pos, &Normal::NegY) {
        r.push(q);
    }
    proof {
        assert(r@ =~= face_quads(*blocks, x, y, z, Normal::PosX) + face_quads(
            *blocks,
            x,
            y,
            z,
            Normal::NegX,
        ) + face_quads(*blocks, x, y, z, Normal::PosY) + face_quads(
            *blocks,
            x,
            y,
            z,
            Normal::NegY,
        ));
    }
    if let Some(q) = get_quad_on_face(blocks, pos, &Normal::PosZ) {
        r.push(q);
    }
    proof {
        assert(r@ =~= face_quads(*blocks, x, y, z, Normal::PosX) + face_quads(
            *blocks,
            x,
            y,
            z,
            Normal::NegX,
        ) + face_quads(*blocks, x, y, z, Normal::PosY) + face_quads(
            *blocks,
            x,
            y,
            z,
            Normal::NegY,
        ) + face_quads(*blocks, x, y, z, Normal::PosZ));
    }
    if let Some(q) = get_quad_on_face(blocks, pos, &Normal::NegZ) {
        r.push(q);
    }
    proof {
        reveal(cell_quads);
        assert(r@ =~= cell_quads(*blocks, x, y, z));
    }
    r
}

/// Scan the whole 32^3 subject volume and emit every visible face.
#[verifier::rlimit(100)]
pub fn get_quads_naive(blocks: &Neighborhood<Blocks>) -> (r: Vec<Quad>)
    requires
        blocks.wf(),
        blocks.contents_wf(),
    ensures
        r@ == all_quads(*blocks),
{
    let mut r: Vec<Quad> = Vec::new();
    let mut c: usize = 0;
    while c < 32768
        invariant
            c <= 32768,
            blocks.wf(),
            blocks.contents_wf(),
            r@ == quads_upto(*blocks, c as int),
        decreases 32768 - c,
    {
        let x = (c / 1024) as i32;
        let y = ((c / 32) % 32) as i32;
        let z = (c % 32) as i32;
        let mut cell = get_quads_around_block(blocks, [x, y, z]);
        proof {
            assert(x == cell_x(c as int) && y == cell_y(c as int) && z == cell_z(c as int));
            assert(quads_upto(*blocks, c as int + 1) == quads_upto(*blocks, c as int) + cell_quads(
                *blocks,
                cell_x(c as int),
                cell_y(c as int),
                cell_z(c as int),
            ));
        }
        r.append(&mut cell);
        c = c + 1;
    }
    r
}

/// Derive a chunk's mesh from a snapshot of its block neighborhood.
pub fn get_quads(blocks: Neighborhood<Blocks>, meshing_type: MeshingType) -> (r: Quads)
    requires
        blocks.wf(),
        blocks.contents_wf(),
    ensures
        r.0@ == all_quads(blocks),
{
    let quads = match meshing_type {
        MeshingType::Naive => get_quads_naive(&blocks),
    };
    Quads(quads)
}

} // verus!
