//! Byte-level primitives of the wire format: fixed-width little-endian
//! integers and length-prefixed byte strings.

use vstd::bytes::lemma_auto_spec_u32_to_from_le_bytes;
use vstd::bytes::spec_u32_from_le_bytes;
use vstd::bytes::spec_u32_to_le_bytes;
use vstd::bytes::u32_from_le_bytes;
use vstd::bytes::u32_to_le_bytes;
use vstd::prelude::*;
use vstd::slice::slice_subrange;

verus! {

/// A byte string on the wire: a 32-bit little-endian length, then the bytes.
pub open spec fn spec_len_prefixed(data: Seq<u8>) -> Seq<u8>
    recommends
        data.len() <= u32::MAX,
{
    spec_u32_to_le_bytes(data.len() as u32) + data
}

/// The 32-bit word read little-endian from `data` at `pos`, if four bytes
/// are available there.
pub open spec fn spec_dec_u32(data: Seq<u8>, pos: int) -> Option<u32> {
    if 0 <= pos && pos + 4 <= data.len() {
        Some(spec_u32_from_le_bytes(data.subrange(pos, pos + 4)))
    } else {
        None
    }
}

/// The byte string read at `pos` as a length prefix followed by that many
/// bytes; the second component is the position just past it.
pub open spec fn spec_dec_bytes(data: Seq<u8>, pos: int) -> Option<(Seq<u8>, int)> {
    match spec_dec_u32(data, pos) {
        Some(n) => if pos + 4 + n <= data.len() {
            Some((data.subrange(pos + 4, pos + 4 + n), pos + 4 + n))
        } else {
            None
        },
        None => None,
    }
}

/// Appends the four little-endian bytes of `x` to `out`.
pub fn push_u32_le(out: &mut Vec<u8>, x: u32)
    ensures
        final(out)@ == old(out)@ + spec_u32_to_le_bytes(x),
{
    proof {
        lemma_auto_spec_u32_to_from_le_bytes();
    }
    let bs = u32_to_le_bytes(x);
    out.push(bs[0]);
    out.push(bs[1]);
    out.push(bs[2]);
    out.push(bs[3]);
    proof {
        assert(out@ =~= old(out)@ + spec_u32_to_le_bytes(x));
    }
}

/// Appends all of `data` to `out`.
pub fn push_bytes(out: &mut Vec<u8>, data: &Vec<u8>)
    ensures
        final(out)@ == old(out)@ + data@,
{
    let mut i: usize = 0;
    while i < data.len()
        invariant
            i <= data@.len(),
            out@ == old(out)@ + data@.subrange(0, i as int),
        decreases data@.len() - i,
    {
        out.push(data[i]);
        proof {
            assert(old(out)@ + data@.subrange(0, i as int) + seq![data@[i as int]] =~= old(out)@
                + data@.subrange(0, i as int + 1));
        }
        i = i + 1;
    }
    proof {
        assert(data@.subrange(0, data@.len() as int) =~= data@);
    }
}

/// Appends `data` to `out` as a length-prefixed byte string.
pub fn push_len_prefixed(out: &mut Vec<u8>, data: &Vec<u8>)
    requires
        data@.len() <= u32::MAX,
    ensures
        final(out)@ == old(out)@ + spec_len_prefixed(data@),
{
    push_u32_le(out, data.len() as u32);
    push_bytes(out, data);
    proof {
        assert(out@ =~= old(out)@ + spec_len_prefixed(data@));
    }
}

/// Reads the 32-bit word stored little-endian at `pos`.
pub fn read_u32_le(data: &Vec<u8>, pos: usize) -> (x: u32)
    requires
        pos + 4 <= data@.len(),
    ensures
        Some(x) == spec_dec_u32(data@, pos as int),
{
    let _len = data.len();
    let s = slice_subrange(data.as_slice(), pos, pos + 4);
    u32_from_le_bytes(s)
}

/// Reads a length-prefixed byte string at `pos`; returns the bytes and the
/// position just past them, or `None` where the input is too short.
pub fn read_len_prefixed(data: &Vec<u8>, pos: usize) -> (r: Option<(Vec<u8>, usize)>)
    requires
        pos <= data@.len(),
    ensures
        match r {
            Some((bytes, end)) => spec_dec_bytes(data@, pos as int) == Some(
                (bytes@, end as int),
            ),
            None => spec_dec_bytes(data@, pos as int) is None,
        },
{
    if data.len() - pos < 4 {
        return None;
    }
    let n = read_u32_le(data, pos) as usize;
    let body = pos + 4;
    if data.len() - body < n {
        return None;
    }
    let mut bytes: Vec<u8> = Vec::new();
    let mut i: usize = 0;
    while i < n
        invariant
            i <= n,
            body + n <= data@.len(),
            data@.len() <= usize::MAX,
            bytes@ == data@.subrange(body as int, body as int + i as int),
        decreases n - i,
    {
        bytes.push(data[body + i]);
        proof {
            assert(data@.subrange(body as int, body as int + i as int) + seq![
                data@[body as int + i as int],
            ] =~= data@.subrange(body as int, body as int + i as int + 1));
        }
        i = i + 1;
    }
    Some((bytes, body + n))
}

/// Overwrites the front of the fixed-size buffer `buf` with `bytes`, leaving
/// the rest of the buffer unchanged; fails without touching `buf` where
/// `bytes` does not fit.
pub fn write_into(buf: &mut Vec<u8>, bytes: &Vec<u8>) -> (r: Option<usize>)
    ensures
        match r {
            Some(n) => n == bytes@.len() && bytes@.len() <= old(buf)@.len() && final(buf)@
                == bytes@ + old(buf)@.skip(bytes@.len() as int),
            None => final(buf)@ == old(buf)@ && bytes@.len() > old(buf)@.len(),
        },
{
    if bytes.len() > buf.len() {
        return None;
    }
    let n = bytes.len();
    let mut fresh: Vec<u8> = Vec::new();
    push_bytes(&mut fresh, bytes);
    let mut i: usize = n;
    while i < buf.len()
        invariant
            n <= i <= buf@.len(),
            buf@ == old(buf)@,
            fresh@ == bytes@ + buf@.subrange(n as int, i as int),
        decreases buf@.len() - i,
    {
        fresh.push(buf[i]);
        proof {
            assert(bytes@ + buf@.subrange(n as int, i as int) + seq![buf@[i as int]] =~= bytes@
                + buf@.subrange(n as int, i as int + 1));
        }
        i = i + 1;
    }
    *buf = fresh;
    proof {
        assert(buf@ =~= bytes@ + old(buf)@.skip(n as int));
    }
    Some(n)
}

} // verus!
