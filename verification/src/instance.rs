//! Packing of an emitted face into the 32-bit GPU instance word.

use vstd::prelude::*;

use crate::normal::Normal;

verus! {

/// One face instance before packing: a chunk-local position, a width and
/// height in 1..=32, and a face direction.
pub struct Instance {
    pub position: [u32; 3],
    pub dimensions: [u32; 2],
    pub normal: Normal,
}

/// The numeric tag of a face direction in the packed instance word.
pub open spec fn spec_normal_id(n: Normal) -> u32 {
    match n {
        Normal::PosX => 0u32,
        Normal::NegX => 1u32,
        Normal::PosY => 2u32,
        Normal::NegY => 3u32,
        Normal::PosZ => 4u32,
        Normal::NegZ => 5u32,
    }
}

fn normal_id(n: &Normal) -> (r: u32)
    ensures
        r == spec_normal_id(*n),
{
    match n {
        Normal::PosX => 0,
        Normal::NegX => 1,
        Normal::PosY => 2,
        Normal::NegY => 3,
        Normal::PosZ => 4,
        Normal::NegZ => 5,
    }
}

/// A width or height in 1..=32 stored in the bits as 0..=31; the impossible
/// value zero is clamped.
pub open spec fn spec_extent_code(d: u32) -> u32 {
    if d >= 1 {
        (d - 1) as u32
    } else {
        0u32
    }
}

/// The packed instance word: bits 0-4 width, 5-9 height, 10-15 x, 16-21 y,
/// 22-27 z, 28-31 the face direction's tag.
pub open spec fn spec_pack_instance(i: Instance) -> u32 {
    spec_extent_code(i.dimensions[0]) | (spec_extent_code(i.dimensions[1]) << 5) | (i.position[0]
        << 10) | (i.position[1] << 16) | (i.position[2] << 22) | (spec_normal_id(i.normal) << 28)
}

/// All block face data of one instance packed into four bytes.
#[derive(Clone, Copy, Debug, PartialEq, Eq, Structural)]
pub struct InstanceRaw {
    pub data: u32,
}

impl From<Instance> for InstanceRaw {
    fn from(value: Instance) -> (r: Self) {
        let mut data: u32 = 0;
        let w = value.dimensions[0];
        let h = value.dimensions[1];
        let p0 = value.position[0];
        let p1 = value.position[1];
        let p2 = value.position[2];
        let nid = normal_id(&value.normal);
        let wc = if w >= 1 {
            w - 1
        } else {
            0
        };
        let hc = if h >= 1 {
            h - 1
        } else {
            0
        };
        data = data | wc;
        data = data | (hc << 5u32);
        data = data | (p0 << 10u32);
        data = data | (p1 << 16u32);
        data = data | (p2 << 22u32);
        data = data | (nid << 28u32);
        proof {
            assert(data == wc | (hc << 5u32) | (p0 << 10u32) | (p1 << 16u32) | (p2 << 22u32) | (nid
                << 28u32)) by (bit_vector)
                requires
                    data == (((((0u32 | wc) | (hc << 5u32)) | (p0 << 10u32)) | (p1 << 16u32)) | (p2
                        << 22u32)) | (nid << 28u32),
            ;
        }
        Self { data }
    }
}

impl vstd::std_specs::convert::FromSpecImpl<Instance> for InstanceRaw {
    open spec fn obeys_from_spec() -> bool {
        true
    }

    open spec fn from_spec(v: Instance) -> InstanceRaw {
        InstanceRaw { data: spec_pack_instance(v) }
    }
}

} // verus!
