//! Proxy types for physics components.
//!
//! Clients may not run a physics simulation of their own, yet they still
//! need to represent physics actors.  These proxies hold only the
//! replicated placement of a remote actor.

use crate::codec::write_into;
use crate::physics::Transform;
use crate::physics::spec_default_transform;
use crate::physics::read_transform;
use crate::physics::spec_dec_transform;
use crate::physics::spec_transform_enc;
use crate::physics::push_transform;
use crate::physics::lemma_transform_enc_dec;
use crate::replication::ComponentType;
use crate::replication::Id;
use crate::replication::Replicated;
use crate::replication::ReplicationError;
use vstd::prelude::*;

verus! {

/// Type tag of the dynamic actor proxy component.
pub const DYNAMIC_ACTOR_PROXY_COMPONENT_TYPE: u32 = 7;

/// Type tag of the static actor proxy component.
pub const STATIC_ACTOR_PROXY_COMPONENT_TYPE: u32 = 8;

/// Client-side stand-in for a dynamic physics actor: replicates only the
/// actor's placement.
#[derive(Clone, Copy, PartialEq, Eq, Structural, Debug)]
pub struct DynamicActorComponentProxy {
    pub id: Id,
    pub transform: Transform,
}

impl DynamicActorComponentProxy {
    pub fn new(id: Id) -> (r: DynamicActorComponentProxy)
        ensures
            r.id == id,
            r.transform == spec_default_transform(),
    {
        DynamicActorComponentProxy { id, transform: Transform::default() }
    }
}

impl Replicated for DynamicActorComponentProxy {
    open spec fn repl_id(&self) -> u32 {
        self.id.0
    }

    open spec fn repl_type(&self) -> u32 {
        DYNAMIC_ACTOR_PROXY_COMPONENT_TYPE
    }

    open spec fn repl_enc(&self) -> Seq<u8> {
        spec_transform_enc(self.transform)
    }

    open spec fn repl_dec(&self, data: Seq<u8>) -> Option<(Self, int)> {
        match spec_dec_transform(data, 0) {
            Some(t) => Some((DynamicActorComponentProxy { id: self.id, transform: t }, 28int)),
            None => None,
        }
    }

    proof fn lemma_enc_len(&self) {
        lemma_transform_enc_dec(self.transform, Seq::empty());
    }

    proof fn lemma_round_trip(&self, tail: Seq<u8>) {
        lemma_transform_enc_dec(self.transform, tail);
    }

    proof fn lemma_dec_id(&self, data: Seq<u8>) {
    }

    fn id(&self) -> (r: Id) {
        self.id
    }

    fn replicated_component_type(&self) -> (r: ComponentType) {
        ComponentType(DYNAMIC_ACTOR_PROXY_COMPONENT_TYPE)
    }

    fn component_type(&self) -> (r: ComponentType) {
        ComponentType(DYNAMIC_ACTOR_PROXY_COMPONENT_TYPE)
    }

    fn serialize(&self, data: &mut Vec<u8>) -> (r: Result<usize, ReplicationError>) {
        let mut enc: Vec<u8> = Vec::new();
        push_transform(&mut enc, &self.transform);
        match write_into(data, &enc) {
            Some(n) => Ok(n),
            None => Err(ReplicationError::Encoding),
        }
    }

    fn replicate(&mut self, data: &Vec<u8>) -> (r: Result<usize, ReplicationError>) {
        match read_transform(data, 0) {
            Some(t) => {
                self.transform = t;
                Ok(28)
            },
            None => Err(ReplicationError::Encoding),
        }
    }
}

/// Client-side stand-in for a static physics actor: replicates only the
/// actor's placement.
#[derive(Clone, Copy, PartialEq, Eq, Structural, Debug)]
pub struct StaticActorComponentProxy {
    pub id: Id,
    pub transform: Transform,
}

impl StaticActorComponentProxy {
    pub fn new(id: Id) -> (r: StaticActorComponentProxy)
        ensures
            r.id == id,
            r.transform == spec_default_transform(),
    {
        StaticActorComponentProxy { id, transform: Transform::default() }
    }
}

impl Replicated for StaticActorComponentProxy {
    open spec fn repl_id(&self) -> u32 {
        self.id.0
    }

    open spec fn repl_type(&self) -> u32 {
        STATIC_ACTOR_PROXY_COMPONENT_TYPE
    }

    open spec fn repl_enc(&self) -> Seq<u8> {
        spec_transform_enc(self.transform)
    }

    open spec fn repl_dec(&self, data: Seq<u8>) -> Option<(Self, int)> {
        match spec_dec_transform(data, 0) {
            Some(t) => Some((StaticActorComponentProxy { id: self.id, transform: t }, 28int)),
            None => None,
        }
    }

    proof fn lemma_enc_len(&self) {
        lemma_transform_enc_dec(self.transform, Seq::empty());
    }

    proof fn lemma_round_trip(&self, tail: Seq<u8>) {
        lemma_transform_enc_dec(self.transform, tail);
    }

    proof fn lemma_dec_id(&self, data: Seq<u8>) {
    }

    fn id(&self) -> (r: Id) {
        self.id
    }

    fn replicated_component_type(&self) -> (r: ComponentType) {
        ComponentType(STATIC_ACTOR_PROXY_COMPONENT_TYPE)
    }

    fn component_type(&self) -> (r: ComponentType) {
        ComponentType(STATIC_ACTOR_PROXY_COMPONENT_TYPE)
    }

    fn serialize(&self, data: &mut Vec<u8>) -> (r: Result<usize, ReplicationError>) {
        let mut enc: Vec<u8> = Vec::new();
        push_transform(&mut enc, &self.transform);
        match write_into(data, &enc) {
            Some(n) => Ok(n),
            None => Err(ReplicationError::Encoding),
        }
    }

    fn replicate(&mut self, data: &Vec<u8>) -> (r: Result<usize, ReplicationError>) {
        match read_transform(data, 0) {
            Some(t) => {
                self.transform = t;
                Ok(28)
            },
            None => Err(ReplicationError::Encoding),
        }
    }
}

/// What the dynamic actor proxy constructor yields for a replication id and
/// a wire payload: a proxy whose placement is read from the payload.
pub open spec fn spec_build_dynamic_proxy(id: u32, data: Seq<u8>) -> Option<
    DynamicActorComponentProxy,
> {
    match spec_dec_transform(data, 0) {
        Some(t) => Some(DynamicActorComponentProxy { id: Id(id), transform: t }),
        None => None,
    }
}

/// Factory entry that attaches a `DynamicActorComponentProxy` built from a
/// wire payload.
pub struct DynamicActorComponentProxyFactory;

impl DynamicActorComponentProxyFactory {
    /// Builds the proxy for `replication_id` from `data`; a payload too
    /// short for a placement is an error.
    pub fn build(&self, replication_id: Id, data: &Vec<u8>) -> (r: Result<
        DynamicActorComponentProxy,
        ReplicationError,
    >)
        ensures
            match r {
                Ok(c) => spec_build_dynamic_proxy(replication_id.0, data@) == Some(c),
                Err(e) => e == ReplicationError::Encoding && spec_build_dynamic_proxy(
                    replication_id.0,
                    data@,
                ) is None,
            },
    {
        let mut component = DynamicActorComponentProxy::new(replication_id);
        match component.replicate(data) {
            Ok(_) => Ok(component),
            Err(e) => Err(e),
        }
    }
}

} // verus!
