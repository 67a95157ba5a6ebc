//! The component factory: an open registry, keyed by component type tag, of
//! constructor capabilities that build and attach a local component from an
//! `AddComponent` payload.  Registration must happen before any message
//! referencing the type arrives; an unregistered type is a configuration
//! error and the message is dropped.

use crate::id_map::IdMap;
use crate::id_map::spec_get;
use crate::id_map::spec_unique_keys;
use crate::physics::proxy::DYNAMIC_ACTOR_PROXY_COMPONENT_TYPE;
use crate::physics::proxy::DynamicActorComponentProxyFactory;
use crate::physics::proxy::spec_build_dynamic_proxy;
use crate::render::RenderComponentFactory;
use crate::render::spec_build_render;
use crate::replication::ComponentType;
use crate::replication::Id;
use crate::replication::ReplicationError;
use crate::store::Entity;
use crate::store::MobView;
use crate::store::ReplicatedComponent;
use crate::store::World;
use crate::store::spec_find_mob;
use vstd::prelude::*;

verus! {

/// A registered constructor capability, dispatched by variant.
pub enum ComponentConstructor {
    /// Attaches a dynamic actor proxy read from the payload.
    DynamicActorProxy(DynamicActorComponentProxyFactory),
    /// Attaches a render component read from the payload.
    Render(RenderComponentFactory),
}

/// The component a constructor yields for a replication id and a wire
/// payload; `None` where the payload is malformed.
pub open spec fn spec_construct_component(
    c: ComponentConstructor,
    id: u32,
    data: Seq<u8>,
) -> Option<ReplicatedComponent> {
    match c {
        ComponentConstructor::DynamicActorProxy(_) => match spec_build_dynamic_proxy(id, data) {
            Some(p) => Some(ReplicatedComponent::DynamicActorProxy(p)),
            None => None,
        },
        ComponentConstructor::Render(_) => match spec_build_render(id, data) {
            Some(p) => Some(ReplicatedComponent::Render(p)),
            None => None,
        },
    }
}

/// Registry of component constructors keyed by component type tag.
pub struct Factory {
    entries: IdMap<ComponentConstructor>,
}

impl View for Factory {
    type V = Seq<(u32, ComponentConstructor)>;

    closed spec fn view(&self) -> Seq<(u32, ComponentConstructor)> {
        self.entries@
    }
}

impl Factory {
    pub open spec fn wf(&self) -> bool {
        spec_unique_keys(self@)
    }

    pub fn new() -> (r: Factory)
        ensures
            r@ == Seq::<(u32, ComponentConstructor)>::empty(),
            r.wf(),
    {
        Factory { entries: IdMap::new() }
    }

    /// Registers `constructor` for `component_type`, replacing any earlier
    /// entry.
    pub fn register_component(&mut self, component_type: ComponentType, constructor: ComponentConstructor)
        requires
            old(self).wf(),
        ensures
            final(self).wf(),
            spec_get(final(self)@, component_type.0) == Some(constructor),
            forall|t: u32|
                t != component_type.0 ==> #[trigger] spec_get(final(self)@, t) == spec_get(
                    old(self)@,
                    t,
                ),
    {
        self.entries.insert(component_type.0, constructor);
        proof {
            crate::id_map::lemma_get_after_insert(
                old(self)@,
                self@,
                component_type.0,
                constructor,
            );
        }
    }

    /// Builds the component of type `component_type` from `data` and
    /// attaches it to the mob owning `entity`.  An unregistered type is a
    /// configuration error, a malformed payload an encoding error, and an
    /// unknown entity a consistency error; each changes nothing.
    pub fn add_component(
        &self,
        world: &mut World,
        entity: Entity,
        component_type: ComponentType,
        replication_id: Id,
        data: &Vec<u8>,
    ) -> (r: Result<(), ReplicationError>)
        requires
            old(world)@.wf(),
        ensures
            final(world)@.wf(),
            final(world)@.next_entity == old(world)@.next_entity,
            match spec_get(self@, component_type.0) {
                None => r == Err::<(), ReplicationError>(ReplicationError::Configuration)
                    && final(world)@ == old(world)@,
                Some(c) => match spec_construct_component(c, replication_id.0, data@) {
                    None => r == Err::<(), ReplicationError>(ReplicationError::Encoding)
                        && final(world)@ == old(world)@,
                    Some(comp) => match spec_find_mob(old(world)@.mobs, entity.0) {
                        Some(i) => r is Ok && final(world)@.mobs == old(world)@.mobs.update(
                            i,
                            MobView {
                                entity: old(world)@.mobs[i].entity,
                                mob_type: old(world)@.mobs[i].mob_type,
                                components: old(world)@.mobs[i].components.push(comp),
                            },
                        ),
                        None => r == Err::<(), ReplicationError>(ReplicationError::Consistency)
                            && final(world)@ == old(world)@,
                    },
                },
            },
    {
        let constructor = match self.entries.get(component_type.0) {
            Some(c) => c,
            None => {
                return Err(ReplicationError::Configuration);
            },
        };
        let component = match constructor {
            ComponentConstructor::DynamicActorProxy(f) => {
                match f.build(replication_id, data) {
                    Ok(p) => ReplicatedComponent::DynamicActorProxy(p),
                    Err(e) => {
                        return Err(e);
                    },
                }
            },
            ComponentConstructor::Render(f) => {
                match f.build(replication_id, data) {
                    Ok(p) => ReplicatedComponent::Render(p),
                    Err(e) => {
                        return Err(e);
                    },
                }
            },
        };
        world.attach_component(entity, component)
    }
}

/// Registers the constructors this crate ships by default: the dynamic
/// actor proxy.
pub fn register_default_factory_components(factory: &mut Factory)
    requires
        old(factory).wf(),
    ensures
        final(factory).wf(),
        spec_get(final(factory)@, DYNAMIC_ACTOR_PROXY_COMPONENT_TYPE) == Some(
            ComponentConstructor::DynamicActorProxy(DynamicActorComponentProxyFactory),
        ),
        forall|t: u32|
            t != DYNAMIC_ACTOR_PROXY_COMPONENT_TYPE ==> #[trigger] spec_get(final(factory)@, t)
                == spec_get(old(factory)@, t),
{
    factory.register_component(
        ComponentType(DYNAMIC_ACTOR_PROXY_COMPONENT_TYPE),
        ComponentConstructor::DynamicActorProxy(DynamicActorComponentProxyFactory),
    );
}

} // verus!
