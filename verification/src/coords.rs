//! Integer world coordinates: 3-component vectors and chunk positions.

use vstd::prelude::*;

verus! {

/// A 3-component integer vector.
#[derive(Clone, Copy, Debug, PartialEq, Eq, Structural)]
pub struct Vec3i {
    pub x: i32,
    pub y: i32,
    pub z: i32,
}

impl Vec3i {
    pub fn new(x: i32, y: i32, z: i32) -> (r: Vec3i)
        ensures
            r == (Vec3i { x, y, z }),
    {
        Vec3i { x, y, z }
    }

    /// Component-wise sum.
    pub fn plus(self, other: Vec3i) -> (r: Vec3i)
        requires
            i32::MIN <= self.x + other.x <= i32::MAX,
            i32::MIN <= self.y + other.y <= i32::MAX,
            i32::MIN <= self.z + other.z <= i32::MAX,
        ensures
            r == (Vec3i { x: (self.x + other.x) as i32, y: (self.y + other.y) as i32, z: (self.z
                + other.z) as i32 }),
    {
        Vec3i { x: self.x + other.x, y: self.y + other.y, z: self.z + other.z }
    }

    /// Component-wise negation.
    pub fn flipped(self) -> (r: Vec3i)
        requires
            self.x > i32::MIN,
            self.y > i32::MIN,
            self.z > i32::MIN,
        ensures
            r == (Vec3i { x: (-self.x) as i32, y: (-self.y) as i32, z: (-self.z) as i32 }),
    {
        Vec3i { x: -self.x, y: -self.y, z: -self.z }
    }
}

/// The integer coordinate of a chunk in the world grid.
#[derive(Clone, Copy, Debug, PartialEq, Eq, Structural)]
pub struct ChunkPosition(pub Vec3i);

/// The stable identity of one chunk entity, assigned by the host runtime.
#[derive(Clone, Copy, Debug, PartialEq, Eq, Structural)]
pub struct ChunkId(pub u64);

} // verus!
