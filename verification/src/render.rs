//! A renderable square object: its replicated color component, the factory
//! entries that rebuild it on a client, and the server-side constructor
//! that assembles one.

use crate::codec::write_into;
use crate::physics::Transform;
use crate::physics::proxy::DynamicActorComponentProxy;
use crate::replication::ComponentType;
use crate::replication::Id;
use crate::replication::MobType;
use crate::replication::Replicated;
use crate::replication::ReplicationError;
use crate::replication::component_factory;
use crate::replication::component_factory::ComponentConstructor;
use crate::store::Entity;
use crate::store::MobView;
use crate::store::ReplicatedComponent;
use crate::store::World;
use vstd::prelude::*;

verus! {

/// Type tag of the render component.
pub const RENDER_COMPONENT_TYPE: u32 = 100;

/// Mob type tag of the square object.
pub const SQUARE_TYPE: u32 = 5;

/// A replicated color, one byte per channel.
#[derive(Clone, Copy, PartialEq, Eq, Debug)]
pub struct RenderComponent {
    pub id: Id,
    pub color: (u8, u8, u8),
}

impl RenderComponent {
    /// A black render component.
    pub fn new(id: Id) -> (r: RenderComponent)
        ensures
            r.id == id,
            r.color == (0u8, 0u8, 0u8),
    {
        RenderComponent { id, color: (0, 0, 0) }
    }
}

impl Replicated for RenderComponent {
    open spec fn repl_id(&self) -> u32 {
        self.id.0
    }

    open spec fn repl_type(&self) -> u32 {
        RENDER_COMPONENT_TYPE
    }

    open spec fn repl_enc(&self) -> Seq<u8> {
        seq![self.color.0, self.color.1, self.color.2]
    }

    open spec fn repl_dec(&self, data: Seq<u8>) -> Option<(Self, int)> {
        if data.len() >= 3 {
            Some(
                (RenderComponent { id: self.id, color: (data[0], data[1], data[2]) }, 3int),
            )
        } else {
            None
        }
    }

    proof fn lemma_enc_len(&self) {
    }

    proof fn lemma_round_trip(&self, tail: Seq<u8>) {
        let d = self.repl_enc() + tail;
        assert(d[0] == self.color.0);
        assert(d[1] == self.color.1);
        assert(d[2] == self.color.2);
    }

    proof fn lemma_dec_id(&self, data: Seq<u8>) {
    }

    fn id(&self) -> (r: Id) {
        self.id
    }

    fn replicated_component_type(&self) -> (r: ComponentType) {
        ComponentType(RENDER_COMPONENT_TYPE)
    }

    fn component_type(&self) -> (r: ComponentType) {
        ComponentType(RENDER_COMPONENT_TYPE)
    }

    fn serialize(&self, data: &mut Vec<u8>) -> (r: Result<usize, ReplicationError>) {
        let mut enc: Vec<u8> = Vec::new();
        enc.push(self.color.0);
        enc.push(self.color.1);
        enc.push(self.color.2);
        proof {
            assert(enc@ =~= self.repl_enc());
        }
        match write_into(data, &enc) {
            Some(n) => Ok(n),
            None => Err(ReplicationError::Encoding),
        }
    }

    fn replicate(&mut self, data: &Vec<u8>) -> (r: Result<usize, ReplicationError>) {
        if data.len() < 3 {
            return Err(ReplicationError::Encoding);
        }
        self.color = (data[0], data[1], data[2]);
        Ok(3)
    }
}

/// What the render constructor yields for a replication id and a wire
/// payload: a render component whose color is read from the payload.
pub open spec fn spec_build_render(id: u32, data: Seq<u8>) -> Option<RenderComponent> {
    if data.len() >= 3 {
        Some(RenderComponent { id: Id(id), color: (data[0], data[1], data[2]) })
    } else {
        None
    }
}

/// Factory entry that attaches a `RenderComponent` built from a wire
/// payload.
pub struct RenderComponentFactory;

impl RenderComponentFactory {
    /// Builds the render component for `replication_id` from `data`; a
    /// payload too short for a color is an error.
    pub fn build(&self, replication_id: Id, data: &Vec<u8>) -> (r: Result<
        RenderComponent,
        ReplicationError,
    >)
        ensures
            match r {
                Ok(c) => spec_build_render(replication_id.0, data@) == Some(c),
                Err(e) => e == ReplicationError::Encoding && spec_build_render(
                    replication_id.0,
                    data@,
                ) is None,
            },
    {
        let mut component = RenderComponent::new(replication_id);
        match component.replicate(data) {
            Ok(_) => Ok(component),
            Err(e) => Err(e),
        }
    }
}

/// Client-side constructor of the square object: builds a bare mob carrying
/// the square mob type; its components arrive through `AddComponent`
/// messages.
pub struct SquareClient;

impl SquareClient {
    pub fn construct(&self, world: &mut World) -> (e: Entity)
        requires
            old(world)@.wf(),
            old(world)@.next_entity < u32::MAX,
        ensures
            final(world)@.wf(),
            e.0 == old(world)@.next_entity,
            final(world)@.next_entity == old(world)@.next_entity + 1,
            final(world)@.mobs == old(world)@.mobs.push(
                MobView {
                    entity: old(world)@.next_entity,
                    mob_type: SQUARE_TYPE,
                    components: Seq::empty(),
                },
            ),
    {
        world.spawn(MobType(SQUARE_TYPE))
    }
}

/// Registers the render component's constructor with a component factory.
pub fn register_factory_components(factory: &mut component_factory::Factory)
    requires
        old(factory).wf(),
    ensures
        final(factory).wf(),
        crate::id_map::spec_get(final(factory)@, RENDER_COMPONENT_TYPE) == Some(
            ComponentConstructor::Render(RenderComponentFactory),
        ),
        forall|t: u32|
            t != RENDER_COMPONENT_TYPE ==> #[trigger] crate::id_map::spec_get(final(factory)@, t)
                == crate::id_map::spec_get(old(factory)@, t),
{
    factory.register_component(
        ComponentType(RENDER_COMPONENT_TYPE),
        ComponentConstructor::Render(RenderComponentFactory),
    );
}

/// Builds one square object on the server without a physics engine: a mob
/// carrying a dynamic actor proxy at the given placement and a render
/// component with the given color.
pub fn square_server_no_physics(
    world: &mut World,
    replicated_data: (Id, Transform),
    render_data: (Id, (u8, u8, u8)),
) -> (r: Result<Entity, ReplicationError>)
    requires
        old(world)@.wf(),
        old(world)@.next_entity < u32::MAX,
    ensures
        final(world)@.wf(),
        final(world)@.next_entity == old(world)@.next_entity + 1,
        r == Ok::<Entity, ReplicationError>(Entity(old(world)@.next_entity)),
        final(world)@.mobs == old(world)@.mobs.push(
            MobView {
                entity: old(world)@.next_entity,
                mob_type: SQUARE_TYPE,
                components: seq![
                    ReplicatedComponent::DynamicActorProxy(
                        DynamicActorComponentProxy {
                            id: replicated_data.0,
                            transform: replicated_data.1,
                        },
                    ),
                    ReplicatedComponent::Render(
                        RenderComponent { id: render_data.0, color: render_data.1 },
                    ),
                ],
            },
        ),
{
    let entity = world.spawn(MobType(SQUARE_TYPE));
    let mut dynamic_actor_component = DynamicActorComponentProxy::new(replicated_data.0);
    dynamic_actor_component.transform = replicated_data.1;

    let mut render_component = RenderComponent::new(render_data.0);
    render_component.color = render_data.1;

    proof {
        crate::store::lemma_find_mob_first(
            world@.mobs,
            entity.0,
            world@.mobs.len() - 1,
        );
    }
    let _ = world.attach_component(
        entity,
        ReplicatedComponent::DynamicActorProxy(dynamic_actor_component),
    );
    proof {
        crate::store::lemma_find_mob_first(
            world@.mobs,
            entity.0,
            world@.mobs.len() - 1,
        );
    }
    let _ = world.attach_component(
        entity,
        ReplicatedComponent::Render(render_component),
    );
    proof {
        assert(world@.mobs =~~= old(world)@.mobs.push(
            MobView {
                entity: old(world)@.next_entity,
                mob_type: SQUARE_TYPE,
                components: seq![
                    ReplicatedComponent::DynamicActorProxy(
                        DynamicActorComponentProxy {
                            id: replicated_data.0,
                            transform: replicated_data.1,
                        },
                    ),
                    ReplicatedComponent::Render(
                        RenderComponent { id: render_data.0, color: render_data.1 },
                    ),
                ],
            },
        ));
    }
    Ok(entity)
}

} // verus!
