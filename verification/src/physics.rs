//! Spatial state carried by replicated components.
//!
//! Vector and quaternion components travel on the wire as four-byte words,
//! one per lane, so peers interoperate independently of any in-process math
//! library layout.  In this crate each lane is held as its 32-bit wire word
//! (the IEEE-754 bit pattern of the lane); the embedding application
//! converts to and from its own floating-point vector types.

use crate::codec::push_u32_le;
use crate::codec::read_u32_le;
use crate::codec::spec_dec_u32;
use vstd::bytes::spec_u32_to_le_bytes;
use vstd::prelude::*;

pub mod proxy;

verus! {

/// A three-lane vector; each lane is the 32-bit wire word of one coordinate.
#[derive(Clone, Copy, PartialEq, Eq, Structural, Debug)]
pub struct Vec3Bits {
    pub x: u32,
    pub y: u32,
    pub z: u32,
}

/// A four-lane quaternion; each lane is the 32-bit wire word of one
/// coordinate.
#[derive(Clone, Copy, PartialEq, Eq, Structural, Debug)]
pub struct QuatBits {
    pub x: u32,
    pub y: u32,
    pub z: u32,
    pub w: u32,
}

/// Wire word of the floating-point value one; the `w` lane of the identity
/// rotation.
pub const UNIT_LANE_BITS: u32 = 0x3F80_0000;

/// A rigid placement: a translation and a rotation.
#[derive(Clone, Copy, PartialEq, Eq, Structural, Debug)]
pub struct Transform {
    pub translation: Vec3Bits,
    pub rotation: QuatBits,
}

impl Vec3Bits {
    /// The zero vector.
    pub fn zero() -> (r: Vec3Bits)
        ensures
            r == (Vec3Bits { x: 0u32, y: 0u32, z: 0u32 }),
    {
        Vec3Bits { x: 0, y: 0, z: 0 }
    }
}

impl QuatBits {
    /// The identity rotation.
    pub fn identity() -> (r: QuatBits)
        ensures
            r == (QuatBits { x: 0u32, y: 0u32, z: 0u32, w: UNIT_LANE_BITS }),
    {
        QuatBits { x: 0, y: 0, z: 0, w: UNIT_LANE_BITS }
    }
}

pub open spec fn spec_vec3_enc(v: Vec3Bits) -> Seq<u8> {
    spec_u32_to_le_bytes(v.x) + spec_u32_to_le_bytes(v.y) + spec_u32_to_le_bytes(v.z)
}

pub open spec fn spec_quat_enc(q: QuatBits) -> Seq<u8> {
    spec_u32_to_le_bytes(q.x) + spec_u32_to_le_bytes(q.y) + spec_u32_to_le_bytes(q.z)
        + spec_u32_to_le_bytes(q.w)
}

/// A transform on the wire: translation lanes, then rotation lanes.
pub open spec fn spec_transform_enc(t: Transform) -> Seq<u8> {
    spec_vec3_enc(t.translation) + spec_quat_enc(t.rotation)
}

/// The transform read from seven consecutive words at `pos`, if that many
/// bytes are available.
pub open spec fn spec_dec_transform(d: Seq<u8>, pos: int) -> Option<Transform> {
    if 0 <= pos && pos + 28 <= d.len() {
        Some(
            Transform {
                translation: Vec3Bits {
                    x: spec_dec_u32(d, pos)->Some_0,
                    y: spec_dec_u32(d, pos + 4)->Some_0,
                    z: spec_dec_u32(d, pos + 8)->Some_0,
                },
                rotation: QuatBits {
                    x: spec_dec_u32(d, pos + 12)->Some_0,
                    y: spec_dec_u32(d, pos + 16)->Some_0,
                    z: spec_dec_u32(d, pos + 20)->Some_0,
                    w: spec_dec_u32(d, pos + 24)->Some_0,
                },
            },
        )
    } else {
        None
    }
}

/// Zero translation and the identity rotation.
pub open spec fn spec_default_transform() -> Transform {
    Transform {
        translation: Vec3Bits { x: 0u32, y: 0u32, z: 0u32 },
        rotation: QuatBits { x: 0u32, y: 0u32, z: 0u32, w: UNIT_LANE_BITS },
    }
}

impl Default for Transform {
    /// Zero translation and the identity rotation.
    fn default() -> (r: Transform)
        ensures
            r == spec_default_transform(),
    {
        Transform { translation: Vec3Bits::zero(), rotation: QuatBits::identity() }
    }
}

/// Appends the wire encoding of `t` to `out`.
pub fn push_transform(out: &mut Vec<u8>, t: &Transform)
    ensures
        final(out)@ == old(out)@ + spec_transform_enc(*t),
{
    push_u32_le(out, t.translation.x);
    push_u32_le(out, t.translation.y);
    push_u32_le(out, t.translation.z);
    push_u32_le(out, t.rotation.x);
    push_u32_le(out, t.rotation.y);
    push_u32_le(out, t.rotation.z);
    push_u32_le(out, t.rotation.w);
    proof {
        assert(out@ =~= old(out)@ + spec_transform_enc(*t));
    }
}

/// Reads a transform stored at `pos`.
pub fn read_transform(data: &Vec<u8>, pos: usize) -> (r: Option<Transform>)
    requires
        pos <= data@.len(),
    ensures
        r == spec_dec_transform(data@, pos as int),
{
    if data.len() - pos < 28 {
        return None;
    }
    let t = Transform {
        translation: Vec3Bits {
            x: read_u32_le(data, pos),
            y: read_u32_le(data, pos + 4),
            z: read_u32_le(data, pos + 8),
        },
        rotation: QuatBits {
            x: read_u32_le(data, pos + 12),
            y: read_u32_le(data, pos + 16),
            z: read_u32_le(data, pos + 20),
            w: read_u32_le(data, pos + 24),
        },
    };
    Some(t)
}

/// Round trip of the transform codec: the encoding of `t`, with any bytes
/// following it, decodes back to `t`.
pub proof fn lemma_transform_enc_dec(t: Transform, tail: Seq<u8>)
    ensures
        spec_transform_enc(t).len() == 28,
        spec_dec_transform(spec_transform_enc(t) + tail, 0) == Some(t),
{
    vstd::bytes::lemma_auto_spec_u32_to_from_le_bytes();
    let e = spec_transform_enc(t);
    let d = e + tail;
    assert(d.subrange(0, 4) =~= spec_u32_to_le_bytes(t.translation.x));
    assert(d.subrange(4, 8) =~= spec_u32_to_le_bytes(t.translation.y));
    assert(d.subrange(8, 12) =~= spec_u32_to_le_bytes(t.translation.z));
    assert(d.subrange(12, 16) =~= spec_u32_to_le_bytes(t.rotation.x));
    assert(d.subrange(16, 20) =~= spec_u32_to_le_bytes(t.rotation.y));
    assert(d.subrange(20, 24) =~= spec_u32_to_le_bytes(t.rotation.z));
    assert(d.subrange(24, 28) =~= spec_u32_to_le_bytes(t.rotation.w));
}

} // verus!
