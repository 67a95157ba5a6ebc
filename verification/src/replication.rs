//! The replication wire protocol: identifier newtypes, the tagged wire
//! message with its fixed binary codec, the error taxonomy, and the contract
//! every replicated component implements.
//!
//! A message is encoded as a 32-bit little-endian discriminant followed by
//! the variant's payload; integers are fixed-width little-endian and byte
//! strings are length-prefixed, so any conformant peer interoperates
//! byte-for-byte.

use crate::codec::push_len_prefixed;
use crate::codec::push_u32_le;
use crate::codec::read_len_prefixed;
use crate::codec::read_u32_le;
use crate::codec::spec_dec_bytes;
use crate::codec::spec_dec_u32;
use crate::codec::spec_len_prefixed;
use crate::codec::write_into;
use vstd::bytes::lemma_auto_spec_u32_to_from_le_bytes;
use vstd::bytes::spec_u32_to_le_bytes;
use vstd::prelude::*;

pub mod client;
pub mod component_factory;
pub mod mob_factory;
pub mod server;

verus! {

/// What can go wrong inside the replication core.  None of these is fatal to
/// a tick: the affected message or component is dropped and work continues.
#[derive(Clone, Copy, PartialEq, Eq, Structural, Hash, Debug)]
pub enum ReplicationError {
    /// A message referenced a type tag with no registered factory entry.
    Configuration,
    /// A buffer was too small, or bytes were malformed, during serialize or
    /// replicate.
    Encoding,
    /// A send or receive failed; the channel is retained.
    Transport,
    /// A message referenced a spawn id or component id that cannot be
    /// resolved locally; a sign of protocol desync.
    Consistency,
}

/// Stable identity of one replicated component instance; assigned once and
/// never reused while referenced remotely.
#[derive(Clone, Copy, PartialEq, Eq, Structural, Hash, Debug)]
pub struct Id(pub u32);

/// Tag selecting which factory constructor builds a base object.
#[derive(Clone, Copy, PartialEq, Eq, Structural, Hash, Debug)]
pub struct MobType(pub u32);

/// Tag selecting which factory constructor attaches a component's data.
#[derive(Clone, Copy, PartialEq, Eq, Structural, Hash, Debug)]
pub struct ComponentType(pub u32);

/// Stable identity of one logical spawned object, assigned by the server at
/// registration, monotonically increasing.
#[derive(Clone, Copy, PartialEq, Eq, Structural, Hash, Debug)]
pub struct SpawnId(pub u32);

/// Payload of an `Update` message: a full-value snapshot of one component.
#[derive(Debug, PartialEq, Eq)]
pub struct UpdateData {
    pub id: Id,
    pub data: Vec<u8>,
}

pub struct UpdateDataView {
    pub id: u32,
    pub data: Seq<u8>,
}

impl View for UpdateData {
    type V = UpdateDataView;

    open spec fn view(&self) -> UpdateDataView {
        UpdateDataView { id: self.id.0, data: self.data@ }
    }
}

/// Payload of a `Spawn` message: which object to build and its network-wide
/// identity.
#[derive(Debug, PartialEq, Eq)]
pub struct SpawnData {
    pub mob_type: MobType,
    pub spawn_id: SpawnId,
}

pub struct SpawnDataView {
    pub mob_type: u32,
    pub spawn_id: u32,
}

impl View for SpawnData {
    type V = SpawnDataView;

    open spec fn view(&self) -> SpawnDataView {
        SpawnDataView { mob_type: self.mob_type.0, spawn_id: self.spawn_id.0 }
    }
}

/// Payload of an `AddComponent` message: attaches one component, identified
/// network-wide, to the object with the given spawn id.
#[derive(Debug, PartialEq, Eq)]
pub struct AddedComponentData {
    pub spawn_id: SpawnId,
    pub component_type: ComponentType,
    pub replicated_id: Id,
    pub data: Vec<u8>,
}

pub struct AddedComponentDataView {
    pub spawn_id: u32,
    pub component_type: u32,
    pub replicated_id: u32,
    pub data: Seq<u8>,
}

impl View for AddedComponentData {
    type V = AddedComponentDataView;

    open spec fn view(&self) -> AddedComponentDataView {
        AddedComponentDataView {
            spawn_id: self.spawn_id.0,
            component_type: self.component_type.0,
            replicated_id: self.replicated_id.0,
            data: self.data@,
        }
    }
}

/// One wire message.  A `Spawn` for a spawn id always precedes any
/// `AddComponent` referencing it, and an `AddComponent` always precedes any
/// `Update` referencing its replicated id.
#[derive(Debug, PartialEq, Eq)]
pub enum Message {
    Spawn(SpawnData),
    Update(UpdateData),
    AddComponent(AddedComponentData),
}

pub enum MessageView {
    Spawn(SpawnDataView),
    Update(UpdateDataView),
    AddComponent(AddedComponentDataView),
}

impl View for Message {
    type V = MessageView;

    open spec fn view(&self) -> MessageView {
        match self {
            Message::Spawn(s) => MessageView::Spawn(s@),
            Message::Update(u) => MessageView::Update(u@),
            Message::AddComponent(a) => MessageView::AddComponent(a@),
        }
    }
}

/// Wire discriminant of a `Spawn` message.
pub const SPAWN_TAG: u32 = 0;

/// Wire discriminant of an `Update` message.
pub const UPDATE_TAG: u32 = 1;

/// Wire discriminant of an `AddComponent` message.
pub const ADD_COMPONENT_TAG: u32 = 2;

pub open spec fn spec_spawn_enc(s: SpawnDataView) -> Seq<u8> {
    spec_u32_to_le_bytes(s.mob_type) + spec_u32_to_le_bytes(s.spawn_id)
}

pub open spec fn spec_update_enc(u: UpdateDataView) -> Seq<u8> {
    spec_u32_to_le_bytes(u.id) + spec_len_prefixed(u.data)
}

pub open spec fn spec_add_component_enc(a: AddedComponentDataView) -> Seq<u8> {
    spec_u32_to_le_bytes(a.spawn_id) + spec_u32_to_le_bytes(a.component_type)
        + spec_u32_to_le_bytes(a.replicated_id) + spec_len_prefixed(a.data)
}

/// A message is encodable when its variable-length payload fits the 32-bit
/// length prefix.
pub open spec fn spec_message_wf(m: MessageView) -> bool {
    match m {
        MessageView::Spawn(_) => true,
        MessageView::Update(u) => u.data.len() <= u32::MAX,
        MessageView::AddComponent(a) => a.data.len() <= u32::MAX,
    }
}

/// The canonical encoding of a message: discriminant, then payload.
pub open spec fn spec_message_enc(m: MessageView) -> Seq<u8> {
    match m {
        MessageView::Spawn(s) => spec_u32_to_le_bytes(SPAWN_TAG) + spec_spawn_enc(s),
        MessageView::Update(u) => spec_u32_to_le_bytes(UPDATE_TAG) + spec_update_enc(u),
        MessageView::AddComponent(a) => spec_u32_to_le_bytes(ADD_COMPONENT_TAG)
            + spec_add_component_enc(a),
    }
}

/// The unique message encoded at the front of `d`, with the position just
/// past it, if any.
pub open spec fn spec_message_dec(d: Seq<u8>) -> Option<(MessageView, int)> {
    match spec_dec_u32(d, 0) {
        Some(tag) => if tag == SPAWN_TAG {
            match spec_dec_u32(d, 4) {
                Some(mt) => match spec_dec_u32(d, 8) {
                    Some(sid) => Some(
                        (MessageView::Spawn(SpawnDataView { mob_type: mt, spawn_id: sid }), 12int),
                    ),
                    None => None,
                },
                None => None,
            }
        } else if tag == UPDATE_TAG {
            match spec_dec_u32(d, 4) {
                Some(id) => match spec_dec_bytes(d, 8) {
                    Some((data, end)) => Some((MessageView::Update(UpdateDataView { id, data }), end)),
                    None => None,
                },
                None => None,
            }
        } else if tag == ADD_COMPONENT_TAG {
            match spec_dec_u32(d, 4) {
                Some(sid) => match spec_dec_u32(d, 8) {
                    Some(ct) => match spec_dec_u32(d, 12) {
                        Some(rid) => match spec_dec_bytes(d, 16) {
                            Some((data, end)) => Some(
                                (
                                    MessageView::AddComponent(
                                        AddedComponentDataView {
                                            spawn_id: sid,
                                            component_type: ct,
                                            replicated_id: rid,
                                            data,
                                        },
                                    ),
                                    end,
                                ),
                            ),
                            None => None,
                        },
                        None => None,
                    },
                    None => None,
                },
                None => None,
            }
        } else {
            None
        },
        None => None,
    }
}

impl Message {
    /// Builds the canonical encoding of this message as a fresh byte vector.
    pub fn encode(&self) -> (r: Result<Vec<u8>, ReplicationError>)
        ensures
            match r {
                Ok(v) => spec_message_wf(self@) && v@ == spec_message_enc(self@),
                Err(e) => e == ReplicationError::Encoding && !spec_message_wf(self@),
            },
    {
        match self {
            Message::Spawn(s) => {
                let mut out: Vec<u8> = Vec::new();
                push_u32_le(&mut out, SPAWN_TAG);
                push_u32_le(&mut out, s.mob_type.0);
                push_u32_le(&mut out, s.spawn_id.0);
                proof {
                    assert(out@ =~= spec_message_enc(self@));
                }
                Ok(out)
            },
            Message::Update(u) => {
                if u.data.len() as u64 > u32::MAX as u64 {
                    return Err(ReplicationError::Encoding);
                }
                let mut out: Vec<u8> = Vec::new();
                push_u32_le(&mut out, UPDATE_TAG);
                push_u32_le(&mut out, u.id.0);
                push_len_prefixed(&mut out, &u.data);
                proof {
                    assert(out@ =~= spec_message_enc(self@));
                }
                Ok(out)
            },
            Message::AddComponent(a) => {
                if a.data.len() as u64 > u32::MAX as u64 {
                    return Err(ReplicationError::Encoding);
                }
                let mut out: Vec<u8> = Vec::new();
                push_u32_le(&mut out, ADD_COMPONENT_TAG);
                push_u32_le(&mut out, a.spawn_id.0);
                push_u32_le(&mut out, a.component_type.0);
                push_u32_le(&mut out, a.replicated_id.0);
                push_len_prefixed(&mut out, &a.data);
                proof {
                    assert(out@ =~= spec_message_enc(self@));
                }
                Ok(out)
            },
        }
    }

    /// Writes the encoding into the front of the fixed-size buffer `data`
    /// and returns the number of bytes written; an encoding that does not
    /// fit is an error and leaves the buffer untouched.
    pub fn serialize(&self, data: &mut Vec<u8>) -> (r: Result<usize, ReplicationError>)
        ensures
            match r {
                Ok(n) => spec_message_wf(self@) && n == spec_message_enc(self@).len() && n <= old(
                    data,
                )@.len() && final(data)@ == spec_message_enc(self@) + old(data)@.skip(n as int),
                Err(e) => final(data)@ == old(data)@ && e == ReplicationError::Encoding && (
                !spec_message_wf(self@) || spec_message_enc(self@).len() > old(data)@.len()),
            },
    {
        match self.encode() {
            Ok(v) => match write_into(data, &v) {
                Some(n) => Ok(n),
                None => Err(ReplicationError::Encoding),
            },
            Err(e) => Err(e),
        }
    }
}

/// Decoder of wire messages; builds a fresh message from every input.
pub struct MessageFactoryNew;

impl MessageFactoryNew {
    /// Parses the message encoded at the front of `data`, returning it with
    /// the number of bytes consumed; bytes that encode no message are an
    /// error.
    pub fn deserialize(&self, _context: &(), data: &Vec<u8>) -> (r: Result<
        (Message, usize),
        ReplicationError,
    >)
        ensures
            match r {
                Ok((m, n)) => spec_message_dec(data@) == Some((m@, n as int)),
                Err(e) => e == ReplicationError::Encoding && spec_message_dec(data@) is None,
            },
    {
        if data.len() < 4 {
            return Err(ReplicationError::Encoding);
        }
        let tag = read_u32_le(data, 0);
        if tag == SPAWN_TAG {
            if data.len() < 12 {
                return Err(ReplicationError::Encoding);
            }
            let mt = read_u32_le(data, 4);
            let sid = read_u32_le(data, 8);
            Ok(
                (
                    Message::Spawn(SpawnData { mob_type: MobType(mt), spawn_id: SpawnId(sid) }),
                    12,
                ),
            )
        } else if tag == UPDATE_TAG {
            if data.len() < 8 {
                return Err(ReplicationError::Encoding);
            }
            let id = read_u32_le(data, 4);
            match read_len_prefixed(data, 8) {
                Some((bytes, end)) => Ok(
                    (Message::Update(UpdateData { id: Id(id), data: bytes }), end),
                ),
                None => Err(ReplicationError::Encoding),
            }
        } else if tag == ADD_COMPONENT_TAG {
            if data.len() < 16 {
                return Err(ReplicationError::Encoding);
            }
            let sid = read_u32_le(data, 4);
            let ct = read_u32_le(data, 8);
            let rid = read_u32_le(data, 12);
            match read_len_prefixed(data, 16) {
                Some((bytes, end)) => Ok(
                    (
                        Message::AddComponent(
                            AddedComponentData {
                                spawn_id: SpawnId(sid),
                                component_type: ComponentType(ct),
                                replicated_id: Id(rid),
                                data: bytes,
                            },
                        ),
                        end,
                    ),
                ),
                None => Err(ReplicationError::Encoding),
            }
        } else {
            Err(ReplicationError::Encoding)
        }
    }
}

/// The contract every synchronized component implements: a stable numeric
/// identity, a type tag, and symmetric encode/decode of only its replicated
/// fields.
///
/// `serialize` writes the replicated fields in declared order and returns
/// the bytes written; `replicate` reads the same fields in the same order
/// and returns the bytes consumed.  Every implementation proves the round
/// trip: replicating a serialization reproduces the replicated fields
/// exactly.
pub trait Replicated: Sized {
    /// The component's stable identity.
    spec fn repl_id(&self) -> u32;

    /// The component's type tag.
    spec fn repl_type(&self) -> u32;

    /// Canonical encoding of the replicated fields.
    spec fn repl_enc(&self) -> Seq<u8>;

    /// The component after reading replicated fields from the front of
    /// `data`, with the number of bytes consumed; `None` where `data` is too
    /// short.
    spec fn repl_dec(&self, data: Seq<u8>) -> Option<(Self, int)>;

    /// A component's encoding always fits a 32-bit length prefix.
    proof fn lemma_enc_len(&self)
        ensures
            self.repl_enc().len() <= u32::MAX,
    ;

    /// Round trip: decoding an encoding, whatever follows it, yields back
    /// the component and consumes exactly the encoding.
    proof fn lemma_round_trip(&self, tail: Seq<u8>)
        ensures
            self.repl_dec(self.repl_enc() + tail) == Some(
                (*self, self.repl_enc().len() as int),
            ),
    ;

    /// Decoding never changes the component's identity or type tag, and
    /// consumes no more than it is given.
    proof fn lemma_dec_id(&self, data: Seq<u8>)
        ensures
            match self.repl_dec(data) {
                Some((c, n)) => c.repl_id() == self.repl_id() && c.repl_type() == self.repl_type()
                    && 0 <= n <= data.len(),
                None => true,
            },
    ;

    fn id(&self) -> (r: Id)
        ensures
            r.0 == self.repl_id(),
    ;

    fn replicated_component_type(&self) -> (r: ComponentType)
        ensures
            r.0 == self.repl_type(),
    ;

    fn component_type(&self) -> (r: ComponentType)
        ensures
            r.0 == self.repl_type(),
    ;

    /// Writes the replicated fields into the front of the fixed-size buffer
    /// `data`; an encoding that does not fit is an error and leaves the
    /// buffer untouched.
    fn serialize(&self, data: &mut Vec<u8>) -> (r: Result<usize, ReplicationError>)
        ensures
            match r {
                Ok(n) => n == self.repl_enc().len() && n <= old(data)@.len() && final(data)@
                    == self.repl_enc() + old(data)@.skip(n as int),
                Err(e) => final(data)@ == old(data)@ && e == ReplicationError::Encoding
                    && self.repl_enc().len() > old(data)@.len(),
            },
    ;

    /// Reads the replicated fields from the front of `data`; input too short
    /// to hold them is an error and leaves the component untouched.
    fn replicate(&mut self, data: &Vec<u8>) -> (r: Result<usize, ReplicationError>)
        ensures
            match r {
                Ok(n) => old(self).repl_dec(data@) == Some((*final(self), n as int)),
                Err(e) => *final(self) == *old(self) && e == ReplicationError::Encoding && old(
                    self,
                ).repl_dec(data@) is None,
            },
    ;
}

/// Helper: a four-byte little-endian word sitting at `pos` of `d` decodes to
/// itself.
proof fn lemma_dec_u32_prefix(d: Seq<u8>, pos: int, x: u32)
    requires
        0 <= pos,
        pos + 4 <= d.len(),
        d.subrange(pos, pos + 4) == spec_u32_to_le_bytes(x),
    ensures
        spec_dec_u32(d, pos) == Some(x),
{
    lemma_auto_spec_u32_to_from_le_bytes();
    assert(spec_u32_to_le_bytes(x).len() == 4);
    assert(vstd::bytes::spec_u32_from_le_bytes(spec_u32_to_le_bytes(x)) == x);
}

/// Round trip of the message codec: decoding an encoding, with any bytes
/// following it, yields the original message and consumes exactly the
/// encoding.
pub proof fn lemma_message_enc_dec(m: MessageView, tail: Seq<u8>)
    requires
        spec_message_wf(m),
    ensures
        spec_message_dec(spec_message_enc(m) + tail) == Some(
            (m, spec_message_enc(m).len() as int),
        ),
{
    lemma_auto_spec_u32_to_from_le_bytes();
    let e = spec_message_enc(m);
    let d = e + tail;
    match m {
        MessageView::Spawn(s) => {
            assert(e.len() == 12);
            assert(d.subrange(0, 4) =~= spec_u32_to_le_bytes(SPAWN_TAG));
            assert(d.subrange(4, 8) =~= spec_u32_to_le_bytes(s.mob_type));
            assert(d.subrange(8, 12) =~= spec_u32_to_le_bytes(s.spawn_id));
            lemma_dec_u32_prefix(d, 0, SPAWN_TAG);
            lemma_dec_u32_prefix(d, 4, s.mob_type);
            lemma_dec_u32_prefix(d, 8, s.spawn_id);
        },
        MessageView::Update(u) => {
            let n = u.data.len() as int;
            assert(e.len() == 12 + n);
            assert(d.subrange(0, 4) =~= spec_u32_to_le_bytes(UPDATE_TAG));
            assert(d.subrange(4, 8) =~= spec_u32_to_le_bytes(u.id));
            assert(d.subrange(8, 12) =~= spec_u32_to_le_bytes(u.data.len() as u32));
            lemma_dec_u32_prefix(d, 0, UPDATE_TAG);
            lemma_dec_u32_prefix(d, 4, u.id);
            lemma_dec_u32_prefix(d, 8, u.data.len() as u32);
            assert(d.subrange(12, 12 + n) =~= u.data);
        },
        MessageView::AddComponent(a) => {
            let n = a.data.len() as int;
            assert(e.len() == 20 + n);
            assert(d.subrange(0, 4) =~= spec_u32_to_le_bytes(ADD_COMPONENT_TAG));
            assert(d.subrange(4, 8) =~= spec_u32_to_le_bytes(a.spawn_id));
            assert(d.subrange(8, 12) =~= spec_u32_to_le_bytes(a.component_type));
            assert(d.subrange(12, 16) =~= spec_u32_to_le_bytes(a.replicated_id));
            assert(d.subrange(16, 20) =~= spec_u32_to_le_bytes(a.data.len() as u32));
            lemma_dec_u32_prefix(d, 0, ADD_COMPONENT_TAG);
            lemma_dec_u32_prefix(d, 4, a.spawn_id);
            lemma_dec_u32_prefix(d, 8, a.component_type);
            lemma_dec_u32_prefix(d, 12, a.replicated_id);
            lemma_dec_u32_prefix(d, 16, a.data.len() as u32);
            assert(d.subrange(20, 20 + n) =~= a.data);
        },
    }
}

/// Soundness of the message decoder: whatever it accepts is the canonical
/// encoding of the message it returns.
pub proof fn lemma_message_dec_enc(d: Seq<u8>)
    ensures
        match spec_message_dec(d) {
            Some((m, n)) => 0 <= n <= d.len() && spec_message_wf(m) && spec_message_enc(m)
                == d.subrange(0, n),
            None => true,
        },
{
    lemma_auto_spec_u32_to_from_le_bytes();
    if let Some((m, n)) = spec_message_dec(d) {
        match m {
            MessageView::Spawn(s) => {
                assert(spec_message_enc(m) =~= d.subrange(0, n));
            },
            MessageView::Update(u) => {
                assert(spec_message_enc(m) =~= d.subrange(0, n));
            },
            MessageView::AddComponent(a) => {
                assert(spec_message_enc(m) =~= d.subrange(0, n));
            },
        }
    }
}

} // verus!
