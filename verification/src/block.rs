//! Voxel block kinds and their rendering attributes.

use vstd::prelude::*;

verus! {

/// The kind of voxel stored in one cell of a chunk volume.
#[derive(Clone, Copy, Debug, PartialEq, Eq, Structural)]
pub enum Block {
    Air,
    Stone,
    Dirt,
}

impl Default for Block {
    /// The default block kind, used for voxels outside any published volume.
    fn default() -> (r: Self)
        ensures
            r == Block::Air,
    {
        Block::Air
    }
}

/// Which texture a solid block kind is drawn with.
pub struct TextureIndex {
    pub index: usize,
    pub asset_path: &'static str,
}

impl Block {
    /// True for block kinds that do not hide the face of an adjacent voxel.
    pub open spec fn spec_transparent(self) -> bool {
        self is Air
    }

    pub fn is_transparent(&self) -> (r: bool)
        ensures
            r == self.spec_transparent(),
    {
        match self {
            Block::Air => true,
            _ => false,
        }
    }

    pub fn get_texture_index(&self) -> (r: Option<TextureIndex>)
        ensures
            *self is Stone ==> (r matches Some(t) && t.index == 0 && t.asset_path@ == "stone.png"@),
            *self is Dirt ==> (r matches Some(t) && t.index == 1 && t.asset_path@ == "dirt.png"@),
            *self is Air ==> r is None,
    {
        let result = match self {
            Self::Stone => TextureIndex { index: 0, asset_path: "stone.png" },
            Self::Dirt => TextureIndex { index: 1, asset_path: "dirt.png" },
            _ => {
                return None;
            },
        };
        return Some(result);
    }
}

} // verus!
