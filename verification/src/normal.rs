//! Axis-aligned face directions of a voxel.

use vstd::prelude::*;

use crate::coords::Vec3i;

verus! {

/// One of the six axis-aligned unit directions a voxel face can point in.
#[derive(Clone, Copy, Debug, PartialEq, Eq, Structural)]
pub enum Normal {
    PosX,
    NegX,
    PosY,
    NegY,
    PosZ,
    NegZ,
}

impl Normal {
    /// The unit vector this direction stands for.
    pub open spec fn spec_unit_direction(self) -> Vec3i {
        match self {
            Normal::PosX => Vec3i { x: 1, y: 0, z: 0 },
            Normal::NegX => Vec3i { x: -1i32, y: 0, z: 0 },
            Normal::PosY => Vec3i { x: 0, y: 1, z: 0 },
            Normal::NegY => Vec3i { x: 0, y: -1i32, z: 0 },
            Normal::PosZ => Vec3i { x: 0, y: 0, z: 1 },
            Normal::NegZ => Vec3i { x: 0, y: 0, z: -1i32 },
        }
    }

    pub fn as_unit_direction(&self) -> (r: Vec3i)
        ensures
            r == self.spec_unit_direction(),
    {
        match self {
            Self::PosX => Vec3i { x: 1, y: 0, z: 0 },
            Self::NegX => Vec3i { x: -1, y: 0, z: 0 },
            Self::PosY => Vec3i { x: 0, y: 1, z: 0 },
            Self::NegY => Vec3i { x: 0, y: -1, z: 0 },
            Self::PosZ => Vec3i { x: 0, y: 0, z: 1 },
            Self::NegZ => Vec3i { x: 0, y: 0, z: -1 },
        }
    }

    /// The two directions spanning the plane of a face that points in `self`,
    /// in the order the ambient-occlusion corners are sampled.
    pub open spec fn spec_perpendicular_axes(self) -> (Normal, Normal) {
        match self {
            Normal::PosX => (Normal::NegZ, Normal::NegY),
            Normal::PosY => (Normal::NegZ, Normal::PosX),
            Normal::PosZ => (Normal::PosX, Normal::NegY),
            Normal::NegX => (Normal::PosZ, Normal::NegY),
            Normal::NegY => (Normal::NegZ, Normal::NegX),
            Normal::NegZ => (Normal::NegX, Normal::NegY),
        }
    }

    pub fn perpendicular_axes(&self) -> (r: (Normal, Normal))
        ensures
            r == self.spec_perpendicular_axes(),
    {
        match self {
            Normal::PosX => (Normal::NegZ, Normal::NegY),
            Normal::PosY => (Normal::NegZ, Normal::PosX),
            Normal::PosZ => (Normal::PosX, Normal::NegY),
            Normal::NegX => (Normal::PosZ, Normal::NegY),
            Normal::NegY => (Normal::NegZ, Normal::NegX),
            Normal::NegZ => (Normal::NegX, Normal::NegY),
        }
    }
}

} // verus!
