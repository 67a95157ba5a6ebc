//! The base component every server-side mob carries: its identity, type
//! tag, and placement.

use crate::physics::QuatBits;
use crate::physics::UNIT_LANE_BITS;
use crate::physics::Vec3Bits;
use crate::replication::Id;
use crate::replication::MobType;
use vstd::prelude::*;

verus! {

/// Base state of a server-side mob.  The mob type is handled by the server
/// directly and is not replicated; the placement lanes hold 32-bit wire
/// words.
#[derive(Clone, Copy, PartialEq, Eq, Structural, Debug)]
pub struct MobComponent {
    pub id: Id,
    pub mob_type: MobType,
    pub position: Vec3Bits,
    pub rotation: QuatBits,
}

impl MobComponent {
    /// A mob component at the origin with the identity rotation.
    pub fn new(id: Id, mob_type: MobType) -> (r: MobComponent)
        ensures
            r.id == id,
            r.mob_type == mob_type,
            r.position == (Vec3Bits { x: 0u32, y: 0u32, z: 0u32 }),
            r.rotation == (QuatBits { x: 0u32, y: 0u32, z: 0u32, w: UNIT_LANE_BITS }),
    {
        MobComponent {
            id,
            mob_type,
            position: Vec3Bits::zero(),
            rotation: QuatBits::identity(),
        }
    }
}

} // verus!
