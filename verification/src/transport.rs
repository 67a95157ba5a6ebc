//! Transport abstractions: what a message must provide to travel, how a
//! factory rebuilds one from bytes, and the channel capabilities the
//! embedding application implements over its own I/O.

use crate::codec::push_len_prefixed;
use crate::codec::read_len_prefixed;
use crate::codec::spec_dec_bytes;
use crate::codec::spec_len_prefixed;
use crate::codec::write_into;
use crate::replication::MessageFactoryNew;
use crate::replication::ReplicationError;
use crate::replication::lemma_message_dec_enc;
use crate::replication::spec_message_enc;
use crate::replication::spec_message_wf;
use vstd::bytes::lemma_auto_spec_u32_to_from_le_bytes;
use vstd::bytes::spec_u32_to_le_bytes;
use vstd::prelude::*;
use vstd::string::StrSliceExecFns;
use vstd::string::StringSliceAdditionalSpecFns;
use vstd::utf8::decode_utf8;
use vstd::utf8::encode_utf8;
use vstd::utf8::valid_utf8;

verus! {

/// What a message must provide to travel: a canonical wire encoding.
/// `serialize` writes it into the front of a fixed-size buffer and returns
/// the bytes written; an encoding that does not fit, or a message too large
/// to encode, is an error that leaves the buffer untouched.
pub trait Message {
    /// The bytes this message puts on the wire.
    spec fn wire(&self) -> Seq<u8>;

    /// Whether the message can be encoded at all.
    spec fn wire_wf(&self) -> bool;

    fn serialize(&self, data: &mut Vec<u8>) -> (r: Result<usize, ReplicationError>)
        ensures
            match r {
                Ok(n) => self.wire_wf() && n == self.wire().len() && n <= old(data)@.len()
                    && final(data)@ == self.wire() + old(data)@.skip(n as int),
                Err(e) => final(data)@ == old(data)@ && e == ReplicationError::Encoding && (
                !self.wire_wf() || self.wire().len() > old(data)@.len()),
            },
    ;
}

/// Rebuilds messages from received bytes.  Whatever a factory accepts is
/// the canonical encoding of the message it returns, accounting exactly for
/// the bytes consumed.
pub trait MessageFactory<Context> {
    type Message: Message;

    fn deserialize(&self, context: &Context, data: &Vec<u8>) -> (r: Result<
        (Self::Message, usize),
        ReplicationError,
    >)
        ensures
            match r {
                Ok((m, n)) => n <= data@.len() && m.wire_wf() && m.wire() == data@.subrange(
                    0,
                    n as int,
                ),
                Err(_) => true,
            },
    ;
}

/// Best-effort channel for messages of type `M`; delivery may drop or
/// reorder.  The embedding application implements it over its own I/O.
pub trait Unreliable<M: Message> {
    fn send(&mut self, message: &M) -> Result<(), ReplicationError>;

    fn try_receive(&mut self) -> Result<Option<M>, ReplicationError>;
}

/// Ordered, lossless channel for messages of type `M`.
pub trait Reliable<M: Message>: Unreliable<M> {

}

impl Message for crate::replication::Message {
    open spec fn wire(&self) -> Seq<u8> {
        spec_message_enc(self@)
    }

    open spec fn wire_wf(&self) -> bool {
        spec_message_wf(self@)
    }

    fn serialize(&self, data: &mut Vec<u8>) -> (r: Result<usize, ReplicationError>) {
        match self.encode() {
            Ok(v) => match write_into(data, &v) {
                Some(n) => Ok(n),
                None => Err(ReplicationError::Encoding),
            },
            Err(e) => Err(e),
        }
    }
}

impl MessageFactory<()> for MessageFactoryNew {
    type Message = crate::replication::Message;

    fn deserialize(&self, context: &(), data: &Vec<u8>) -> (r: Result<
        (crate::replication::Message, usize),
        ReplicationError,
    >) {
        let r = MessageFactoryNew::deserialize(self, context, data);
        proof {
            lemma_message_dec_enc(data@);
        }
        r
    }
}

/// A message paired with the address it came from or goes to.
pub struct Addressed<A, M> {
    pub address: A,
    pub message: M,
}

impl<A, M> Addressed<A, M> {
    pub fn new(address: A, message: M) -> (r: Addressed<A, M>)
        ensures
            r.address == address,
            r.message == message,
    {
        Addressed { address, message }
    }
}

impl<A, M: Message> Message for Addressed<A, M> {
    open spec fn wire(&self) -> Seq<u8> {
        self.message.wire()
    }

    open spec fn wire_wf(&self) -> bool {
        self.message.wire_wf()
    }

    fn serialize(&self, data: &mut Vec<u8>) -> (r: Result<usize, ReplicationError>) {
        self.message.serialize(data)
    }
}

/// Wraps a message factory so that every decoded message carries the
/// address it was received from.
pub struct AddressedFactory<A, F> {
    pub factory: F,
    _marker: core::marker::PhantomData<A>,
}

impl<A, F> AddressedFactory<A, F> {
    pub fn new(factory: F) -> AddressedFactory<A, F> {
        AddressedFactory { factory, _marker: core::marker::PhantomData }
    }
}

impl<A: Copy, F: MessageFactory<()>> MessageFactory<A> for AddressedFactory<A, F> {
    type Message = Addressed<A, F::Message>;

    fn deserialize(&self, context: &A, data: &Vec<u8>) -> (r: Result<
        (Addressed<A, F::Message>, usize),
        ReplicationError,
    >) {
        match self.factory.deserialize(&(), data) {
            Ok((message, n)) => Ok((Addressed { address: *context, message }, n)),
            Err(e) => Err(e),
        }
    }
}

impl Message for String {
    /// A string travels as its length-prefixed UTF-8 bytes.
    open spec fn wire(&self) -> Seq<u8> {
        spec_len_prefixed(encode_utf8(self@))
    }

    open spec fn wire_wf(&self) -> bool {
        encode_utf8(self@).len() <= u32::MAX
    }

    fn serialize(&self, data: &mut Vec<u8>) -> (r: Result<usize, ReplicationError>) {
        let bytes = self.as_str().as_bytes_vec();
        if bytes.len() as u64 > u32::MAX as u64 {
            return Err(ReplicationError::Encoding);
        }
        let mut enc: Vec<u8> = Vec::new();
        push_len_prefixed(&mut enc, &bytes);
        match write_into(data, &enc) {
            Some(n) => Ok(n),
            None => Err(ReplicationError::Encoding),
        }
    }
}

/// Relies on `String::from_utf8`: it succeeds exactly on valid UTF-8 input
/// and returns the string those bytes spell.
#[verifier::external_body]
fn string_from_utf8(v: Vec<u8>) -> (r: Result<String, ReplicationError>)
    ensures
        match r {
            Ok(s) => valid_utf8(v@) && s@ == decode_utf8(v@),
            Err(e) => e == ReplicationError::Encoding && !valid_utf8(v@),
        },
{
    match String::from_utf8(v) {
        Ok(s) => Ok(s),
        Err(_) => Err(ReplicationError::Encoding),
    }
}

/// String decoder that builds a fresh string from every input.
pub struct StringFactoryNew;

impl StringFactoryNew {
    /// Parses a length-prefixed UTF-8 string at the front of `data`; input
    /// too short for its prefix, or bytes that are not UTF-8, are an error.
    pub fn deserialize(&self, _context: &(), data: &Vec<u8>) -> (r: Result<
        (String, usize),
        ReplicationError,
    >)
        ensures
            match spec_dec_bytes(data@, 0) {
                Some((bytes, end)) => match r {
                    Ok((s, n)) => n == end && valid_utf8(bytes) && s@ == decode_utf8(bytes),
                    Err(e) => e == ReplicationError::Encoding && !valid_utf8(bytes),
                },
                None => r == Err::<(String, usize), ReplicationError>(
                    ReplicationError::Encoding,
                ),
            },
    {
        match read_len_prefixed(data, 0) {
            Some((bytes, end)) => match string_from_utf8(bytes) {
                Ok(s) => Ok((s, end)),
                Err(e) => Err(e),
            },
            None => Err(ReplicationError::Encoding),
        }
    }
}

impl MessageFactory<()> for StringFactoryNew {
    type Message = String;

    fn deserialize(&self, context: &(), data: &Vec<u8>) -> (r: Result<
        (String, usize),
        ReplicationError,
    >) {
        let r = StringFactoryNew::deserialize(self, context, data);
        proof {
            lemma_auto_spec_u32_to_from_le_bytes();
            if let Ok((s, n)) = &r {
                let bytes = spec_dec_bytes(data@, 0)->Some_0.0;
                let end = spec_dec_bytes(data@, 0)->Some_0.1;
                vstd::utf8::decode_utf8_encode_utf8(bytes);
                assert(encode_utf8(s@) == bytes);
                assert(data@.subrange(0, 4) =~= spec_u32_to_le_bytes(bytes.len() as u32));
                assert(s.wire() =~= data@.subrange(0, n as int));
            }
        }
        r
    }
}

impl Message for Vec<u8> {
    /// A byte vector travels as its length-prefixed contents.
    open spec fn wire(&self) -> Seq<u8> {
        spec_len_prefixed(self@)
    }

    open spec fn wire_wf(&self) -> bool {
        self@.len() <= u32::MAX
    }

    fn serialize(&self, data: &mut Vec<u8>) -> (r: Result<usize, ReplicationError>) {
        if self.len() as u64 > u32::MAX as u64 {
            return Err(ReplicationError::Encoding);
        }
        let mut enc: Vec<u8> = Vec::new();
        push_len_prefixed(&mut enc, self);
        match write_into(data, &enc) {
            Some(n) => Ok(n),
            None => Err(ReplicationError::Encoding),
        }
    }
}

/// Byte-vector decoder that builds a fresh vector from every input.
pub struct VecU8FactoryNew;

impl VecU8FactoryNew {
    /// Parses a length-prefixed byte string at the front of `data`; input
    /// too short for its prefix is an error.
    pub fn deserialize(&self, _context: &(), data: &Vec<u8>) -> (r: Result<
        (Vec<u8>, usize),
        ReplicationError,
    >)
        ensures
            match spec_dec_bytes(data@, 0) {
                Some((bytes, end)) => match r {
                    Ok((v, n)) => n == end && v@ == bytes,
                    Err(_) => false,
                },
                None => r == Err::<(Vec<u8>, usize), ReplicationError>(
                    ReplicationError::Encoding,
                ),
            },
    {
        match read_len_prefixed(data, 0) {
            Some((bytes, end)) => Ok((bytes, end)),
            None => Err(ReplicationError::Encoding),
        }
    }
}

impl MessageFactory<()> for VecU8FactoryNew {
    type Message = Vec<u8>;

    fn deserialize(&self, context: &(), data: &Vec<u8>) -> (r: Result<
        (Vec<u8>, usize),
        ReplicationError,
    >) {
        let r = VecU8FactoryNew::deserialize(self, context, data);
        proof {
            lemma_auto_spec_u32_to_from_le_bytes();
            if let Ok((v, n)) = &r {
                let bytes = spec_dec_bytes(data@, 0)->Some_0.0;
                assert(data@.subrange(0, 4) =~= spec_u32_to_le_bytes(bytes.len() as u32));
                assert(v.wire() =~= data@.subrange(0, n as int));
            }
        }
        r
    }
}

} // verus!
