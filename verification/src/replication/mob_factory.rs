//! The mob factory: an open registry, keyed by mob type tag, of constructor
//! capabilities that build a bare local object for a `Spawn` message.
//! Registration must happen before any message referencing the type
//! arrives; an unregistered type is a configuration error and the message
//! is dropped.

use crate::id_map::IdMap;
use crate::id_map::spec_get;
use crate::id_map::spec_unique_keys;
use crate::render::SquareClient;
use crate::render::SQUARE_TYPE;
use crate::replication::MobType;
use crate::replication::ReplicationError;
use crate::store::Entity;
use crate::store::MobView;
use crate::store::World;
use vstd::prelude::*;

verus! {

/// A registered constructor capability.  Constructors are dispatched by
/// variant; every one builds a bare mob and leaves components to later
/// `AddComponent` messages.
pub enum MobConstructor {
    /// Builds a bare square object.
    Square(SquareClient),
}

/// The mob type tag the constructed mob carries.
pub open spec fn spec_constructed_tag(c: MobConstructor) -> u32 {
    match c {
        MobConstructor::Square(_) => SQUARE_TYPE,
    }
}

/// Registry of mob constructors keyed by mob type tag.
pub struct Factory {
    entries: IdMap<MobConstructor>,
}

impl View for Factory {
    type V = Seq<(u32, MobConstructor)>;

    closed spec fn view(&self) -> Seq<(u32, MobConstructor)> {
        self.entries@
    }
}

impl Factory {
    pub open spec fn wf(&self) -> bool {
        spec_unique_keys(self@)
    }

    pub fn new() -> (r: Factory)
        ensures
            r@ == Seq::<(u32, MobConstructor)>::empty(),
            r.wf(),
    {
        Factory { entries: IdMap::new() }
    }

    /// Registers `constructor` for `mob_type`, replacing any earlier entry.
    pub fn register_mob(&mut self, mob_type: MobType, constructor: MobConstructor)
        requires
            old(self).wf(),
        ensures
            final(self).wf(),
            spec_get(final(self)@, mob_type.0) == Some(constructor),
            forall|t: u32|
                t != mob_type.0 ==> #[trigger] spec_get(final(self)@, t) == spec_get(
                    old(self)@,
                    t,
                ),
    {
        proof {
            crate::id_map::lemma_find_characterization(self@, mob_type.0);
        }
        self.entries.insert(mob_type.0, constructor);
        proof {
            crate::id_map::lemma_get_after_insert(old(self)@, self@, mob_type.0, constructor);
        }
    }

    /// Builds the local object for `mob_type`: a bare mob with a fresh
    /// entity handle.  An unregistered type is a configuration error and
    /// changes nothing.
    pub fn construct(&self, world: &mut World, mob_type: MobType) -> (r: Result<
        Entity,
        ReplicationError,
    >)
        requires
            old(world)@.wf(),
            old(world)@.next_entity < u32::MAX,
        ensures
            final(world)@.wf(),
            match spec_get(self@, mob_type.0) {
                Some(c) => r == Ok::<Entity, ReplicationError>(Entity(old(world)@.next_entity))
                    && final(world)@.next_entity == old(world)@.next_entity + 1
                    && final(world)@.mobs == old(world)@.mobs.push(
                    MobView {
                        entity: old(world)@.next_entity,
                        mob_type: spec_constructed_tag(c),
                        components: Seq::empty(),
                    },
                ),
                None => r == Err::<Entity, ReplicationError>(ReplicationError::Configuration)
                    && final(world)@ == old(world)@,
            },
    {
        match self.entries.get(mob_type.0) {
            Some(constructor) => match constructor {
                MobConstructor::Square(square) => Ok(square.construct(world)),
            },
            None => Err(ReplicationError::Configuration),
        }
    }
}

} // verus!
