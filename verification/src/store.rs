//! The local object store: a plain model of the entity/component engine the
//! replication core drives.
//!
//! A store holds mobs — one entity handle plus the replicated components
//! attached to it.  The replication managers only ever create entities,
//! attach components, and walk what is there, so the store exposes exactly
//! those operations, each with an exact contract.

use crate::physics::proxy::DynamicActorComponentProxy;
use crate::physics::proxy::StaticActorComponentProxy;
use crate::render::RenderComponent;
use crate::replication::ComponentType;
use crate::replication::Id;
use crate::replication::Replicated;
use crate::replication::ReplicationError;
use vstd::prelude::*;

pub mod mob;

verus! {

/// Handle of one entity in the store.
#[derive(Clone, Copy, PartialEq, Eq, Structural, Hash, Debug)]
pub struct Entity(pub u32);

/// One replicated component instance, dispatched by variant.
///
/// Heterogeneous components are held as a tagged union rather than behind
/// runtime trait queries: every variant implements the `Replicated`
/// contract, and the union dispatches to it.
#[derive(Clone, Copy, PartialEq, Eq, Debug)]
pub enum ReplicatedComponent {
    DynamicActorProxy(DynamicActorComponentProxy),
    StaticActorProxy(StaticActorComponentProxy),
    Render(RenderComponent),
}

impl Replicated for ReplicatedComponent {
    open spec fn repl_id(&self) -> u32 {
        match self {
            ReplicatedComponent::DynamicActorProxy(c) => c.repl_id(),
            ReplicatedComponent::StaticActorProxy(c) => c.repl_id(),
            ReplicatedComponent::Render(c) => c.repl_id(),
        }
    }

    open spec fn repl_type(&self) -> u32 {
        match self {
            ReplicatedComponent::DynamicActorProxy(c) => c.repl_type(),
            ReplicatedComponent::StaticActorProxy(c) => c.repl_type(),
            ReplicatedComponent::Render(c) => c.repl_type(),
        }
    }

    open spec fn repl_enc(&self) -> Seq<u8> {
        match self {
            ReplicatedComponent::DynamicActorProxy(c) => c.repl_enc(),
            ReplicatedComponent::StaticActorProxy(c) => c.repl_enc(),
            ReplicatedComponent::Render(c) => c.repl_enc(),
        }
    }

    open spec fn repl_dec(&self, data: Seq<u8>) -> Option<(Self, int)> {
        match self {
            ReplicatedComponent::DynamicActorProxy(c) => match c.repl_dec(data) {
                Some((c2, n)) => Some((ReplicatedComponent::DynamicActorProxy(c2), n)),
                None => None,
            },
            ReplicatedComponent::StaticActorProxy(c) => match c.repl_dec(data) {
                Some((c2, n)) => Some((ReplicatedComponent::StaticActorProxy(c2), n)),
                None => None,
            },
            ReplicatedComponent::Render(c) => match c.repl_dec(data) {
                Some((c2, n)) => Some((ReplicatedComponent::Render(c2), n)),
                None => None,
            },
        }
    }

    proof fn lemma_enc_len(&self) {
        match self {
            ReplicatedComponent::DynamicActorProxy(c) => c.lemma_enc_len(),
            ReplicatedComponent::StaticActorProxy(c) => c.lemma_enc_len(),
            ReplicatedComponent::Render(c) => c.lemma_enc_len(),
        }
    }

    proof fn lemma_round_trip(&self, tail: Seq<u8>) {
        match self {
            ReplicatedComponent::DynamicActorProxy(c) => c.lemma_round_trip(tail),
            ReplicatedComponent::StaticActorProxy(c) => c.lemma_round_trip(tail),
            ReplicatedComponent::Render(c) => c.lemma_round_trip(tail),
        }
    }

    proof fn lemma_dec_id(&self, data: Seq<u8>) {
        match self {
            ReplicatedComponent::DynamicActorProxy(c) => c.lemma_dec_id(data),
            ReplicatedComponent::StaticActorProxy(c) => c.lemma_dec_id(data),
            ReplicatedComponent::Render(c) => c.lemma_dec_id(data),
        }
    }

    fn id(&self) -> (r: Id) {
        match self {
            ReplicatedComponent::DynamicActorProxy(c) => c.id(),
            ReplicatedComponent::StaticActorProxy(c) => c.id(),
            ReplicatedComponent::Render(c) => c.id(),
        }
    }

    fn replicated_component_type(&self) -> (r: ComponentType) {
        match self {
            ReplicatedComponent::DynamicActorProxy(c) => c.replicated_component_type(),
            ReplicatedComponent::StaticActorProxy(c) => c.replicated_component_type(),
            ReplicatedComponent::Render(c) => c.replicated_component_type(),
        }
    }

    fn component_type(&self) -> (r: ComponentType) {
        match self {
            ReplicatedComponent::DynamicActorProxy(c) => c.component_type(),
            ReplicatedComponent::StaticActorProxy(c) => c.component_type(),
            ReplicatedComponent::Render(c) => c.component_type(),
        }
    }

    fn serialize(&self, data: &mut Vec<u8>) -> (r: Result<usize, ReplicationError>) {
        match self {
            ReplicatedComponent::DynamicActorProxy(c) => c.serialize(data),
            ReplicatedComponent::StaticActorProxy(c) => c.serialize(data),
            ReplicatedComponent::Render(c) => c.serialize(data),
        }
    }

    fn replicate(&mut self, data: &Vec<u8>) -> (r: Result<usize, ReplicationError>) {
        let r = match self {
            ReplicatedComponent::DynamicActorProxy(c) => match c.replicate(data) {
                Ok(n) => Ok(n),
                Err(e) => Err(e),
            },
            ReplicatedComponent::StaticActorProxy(c) => match c.replicate(data) {
                Ok(n) => Ok(n),
                Err(e) => Err(e),
            },
            ReplicatedComponent::Render(c) => match c.replicate(data) {
                Ok(n) => Ok(n),
                Err(e) => Err(e),
            },
        };
        r
    }
}

/// One mob: an entity handle, its mob type tag, and its replicated
/// components in attachment order.
pub struct Mob {
    pub entity: Entity,
    pub mob_type: crate::replication::MobType,
    pub components: Vec<ReplicatedComponent>,
}

#[verifier::ext_equal]
pub struct MobView {
    pub entity: u32,
    pub mob_type: u32,
    pub components: Seq<ReplicatedComponent>,
}

impl View for Mob {
    type V = MobView;

    open spec fn view(&self) -> MobView {
        MobView {
            entity: self.entity.0,
            mob_type: self.mob_type.0,
            components: self.components@,
        }
    }
}

/// Index of the first mob of `mobs` whose entity handle is `e`.
pub open spec fn spec_find_mob(mobs: Seq<MobView>, e: u32) -> Option<int>
    decreases mobs.len(),
{
    if mobs.len() == 0 {
        None
    } else if mobs[0].entity == e {
        Some(0int)
    } else {
        match spec_find_mob(mobs.drop_first(), e) {
            Some(i) => Some(i + 1),
            None => None,
        }
    }
}

pub proof fn lemma_find_mob_characterization(mobs: Seq<MobView>, e: u32)
    ensures
        match spec_find_mob(mobs, e) {
            Some(i) => 0 <= i < mobs.len() && mobs[i].entity == e && (forall|j: int|
                0 <= j < i ==> mobs[j].entity != e),
            None => forall|j: int| 0 <= j < mobs.len() ==> mobs[j].entity != e,
        },
    decreases mobs.len(),
{
    if mobs.len() > 0 && mobs[0].entity != e {
        let t = mobs.drop_first();
        lemma_find_mob_characterization(t, e);
        assert(forall|j: int| 0 <= j < t.len() ==> t[j] == mobs[j + 1]);
        match spec_find_mob(t, e) {
            Some(i) => {
                assert forall|j: int| 0 <= j < i + 1 implies mobs[j].entity != e by {
                    if j > 0 {
                        assert(t[j - 1].entity != e);
                    }
                }
            },
            None => {
                assert forall|j: int| 0 <= j < mobs.len() implies mobs[j].entity != e by {
                    if j > 0 {
                        assert(t[j - 1].entity != e);
                    }
                }
            },
        }
    }
}

pub proof fn lemma_find_mob_first(mobs: Seq<MobView>, e: u32, i: int)
    requires
        0 <= i < mobs.len(),
        mobs[i].entity == e,
        forall|j: int| 0 <= j < i ==> mobs[j].entity != e,
    ensures
        spec_find_mob(mobs, e) == Some(i),
    decreases mobs.len(),
{
    if i > 0 {
        lemma_find_mob_first(mobs.drop_first(), e, i - 1);
    }
}

/// The store: every mob, and the next fresh entity handle.
pub struct World {
    pub mobs: Vec<Mob>,
    pub next_entity: u32,
}

#[verifier::ext_equal]
pub struct WorldView {
    pub mobs: Seq<MobView>,
    pub next_entity: u32,
}

impl View for World {
    type V = WorldView;

    open spec fn view(&self) -> WorldView {
        WorldView {
            mobs: self.mobs@.map_values(|m: Mob| m@),
            next_entity: self.next_entity,
        }
    }
}

impl WorldView {
    /// Entity handles are pairwise distinct and below the next fresh handle.
    pub open spec fn wf(&self) -> bool {
        &&& forall|i: int, j: int|
            0 <= i < j < self.mobs.len() ==> self.mobs[i].entity != self.mobs[j].entity
        &&& forall|i: int| 0 <= i < self.mobs.len() ==> self.mobs[i].entity < self.next_entity
    }
}

impl World {
    pub fn new() -> (r: World)
        ensures
            r@.mobs == Seq::<MobView>::empty(),
            r@.next_entity == 0,
            r@.wf(),
    {
        World { mobs: Vec::new(), next_entity: 0 }
    }

    pub fn num_mobs(&self) -> (r: usize)
        ensures
            r == self@.mobs.len(),
    {
        self.mobs.len()
    }

    pub fn mob_at(&self, i: usize) -> (r: &Mob)
        requires
            i < self@.mobs.len(),
        ensures
            r@ == self@.mobs[i as int],
    {
        &self.mobs[i]
    }

    /// Creates a fresh entity carrying the mob type tag and no components.
    pub fn spawn(&mut self, mob_type: crate::replication::MobType) -> (e: Entity)
        requires
            old(self)@.wf(),
            old(self)@.next_entity < u32::MAX,
        ensures
            final(self)@.wf(),
            e.0 == old(self)@.next_entity,
            final(self)@.next_entity == old(self)@.next_entity + 1,
            final(self)@.mobs == old(self)@.mobs.push(
                MobView {
                    entity: old(self)@.next_entity,
                    mob_type: mob_type.0,
                    components: Seq::empty(),
                },
            ),
    {
        let e = Entity(self.next_entity);
        let m = Mob { entity: e, mob_type, components: Vec::new() };
        self.mobs.push(m);
        self.next_entity = self.next_entity + 1;
        proof {
            assert(self@.mobs =~= old(self)@.mobs.push(
                MobView {
                    entity: old(self)@.next_entity,
                    mob_type: mob_type.0,
                    components: Seq::empty(),
                },
            ));
        }
        e
    }

    /// Index of the mob owning `entity`, if it exists.
    pub fn find_mob(&self, entity: Entity) -> (r: Option<usize>)
        ensures
            match r {
                Some(i) => spec_find_mob(self@.mobs, entity.0) == Some(i as int),
                None => spec_find_mob(self@.mobs, entity.0) is None,
            },
    {
        let mut i: usize = 0;
        while i < self.mobs.len()
            invariant
                i <= self@.mobs.len(),
                forall|j: int| 0 <= j < i ==> self@.mobs[j].entity != entity.0,
            decreases self@.mobs.len() - i,
        {
            if self.mobs[i].entity.0 == entity.0 {
                proof {
                    lemma_find_mob_first(self@.mobs, entity.0, i as int);
                }
                return Some(i);
            }
            i = i + 1;
        }
        proof {
            lemma_find_mob_characterization(self@.mobs, entity.0);
        }
        None
    }

    /// Applies a full-value snapshot to the component at position `cj` of
    /// the mob at position `mi`: its replicated fields are read from the
    /// front of `data`.  Input too short for the component is an error and
    /// changes nothing.
    pub fn replicate_component_at(&mut self, mi: usize, cj: usize, data: &Vec<u8>) -> (r: Result<
        usize,
        ReplicationError,
    >)
        requires
            old(self)@.wf(),
            mi < old(self)@.mobs.len(),
            cj < old(self)@.mobs[mi as int].components.len(),
        ensures
            final(self)@.wf(),
            final(self)@.next_entity == old(self)@.next_entity,
            match old(self)@.mobs[mi as int].components[cj as int].repl_dec(data@) {
                Some((c2, n)) => r == Ok::<usize, ReplicationError>(n as usize)
                    && final(self)@.mobs == old(self)@.mobs.update(
                    mi as int,
                    MobView {
                        entity: old(self)@.mobs[mi as int].entity,
                        mob_type: old(self)@.mobs[mi as int].mob_type,
                        components: old(self)@.mobs[mi as int].components.update(cj as int, c2),
                    },
                ),
                None => r == Err::<usize, ReplicationError>(ReplicationError::Encoding)
                    && final(self)@.mobs == old(self)@.mobs,
            },
    {
        let r = self.mobs[mi].components[cj].replicate(data);
        proof {
            match old(self)@.mobs[mi as int].components[cj as int].repl_dec(data@) {
                Some((c2, n)) => {
                    assert(self@.mobs =~~= old(self)@.mobs.update(
                        mi as int,
                        MobView {
                            entity: old(self)@.mobs[mi as int].entity,
                            mob_type: old(self)@.mobs[mi as int].mob_type,
                            components: old(self)@.mobs[mi as int].components.update(
                                cj as int,
                                c2,
                            ),
                        },
                    ));
                },
                None => {
                    assert(self@.mobs =~~= old(self)@.mobs);
                },
            }
        }
        r
    }

    /// Attaches `component` to the mob owning `entity`; an unknown entity is
    /// a consistency error and changes nothing.
    pub fn attach_component(&mut self, entity: Entity, component: ReplicatedComponent) -> (r:
        Result<(), ReplicationError>)
        requires
            old(self)@.wf(),
        ensures
            final(self)@.wf(),
            final(self)@.next_entity == old(self)@.next_entity,
            match spec_find_mob(old(self)@.mobs, entity.0) {
                Some(i) => r is Ok && final(self)@.mobs == old(self)@.mobs.update(
                    i,
                    MobView {
                        entity: old(self)@.mobs[i].entity,
                        mob_type: old(self)@.mobs[i].mob_type,
                        components: old(self)@.mobs[i].components.push(component),
                    },
                ),
                None => r == Err::<(), ReplicationError>(ReplicationError::Consistency)
                    && final(self)@.mobs == old(self)@.mobs,
            },
    {
        proof {
            lemma_find_mob_characterization(self@.mobs, entity.0);
        }
        match self.find_mob(entity) {
            Some(i) => {
                self.mobs[i].components.push(component);
                proof {
                    let gi = i as int;
                    assert(self@.mobs =~= old(self)@.mobs.update(
                        gi,
                        MobView {
                            entity: old(self)@.mobs[gi].entity,
                            mob_type: old(self)@.mobs[gi].mob_type,
                            components: old(self)@.mobs[gi].components.push(component),
                        },
                    ));
                }
                Ok(())
            },
            None => Err(ReplicationError::Consistency),
        }
    }
}

} // verus!
