//! Client replication manager tests: causal ordering, orphan safety,
//! last-write-wins updates, and factory configuration errors.

use mmoss::physics::proxy::DYNAMIC_ACTOR_PROXY_COMPONENT_TYPE;
use mmoss::physics::proxy::DynamicActorComponentProxy;
use mmoss::render::SQUARE_TYPE;
use mmoss::render::SquareClient;
use mmoss::replication::AddedComponentData;
use mmoss::replication::ComponentType;
use mmoss::replication::Id;
use mmoss::replication::Message;
use mmoss::replication::MobType;
use mmoss::replication::Replicated;
use mmoss::replication::SpawnData;
use mmoss::replication::SpawnId;
use mmoss::replication::UpdateData;
use mmoss::replication::client::CallbackEvent;
use mmoss::replication::client::Manager;
use mmoss::replication::client::NoopUpdateCallbacks;
use mmoss::replication::component_factory;
use mmoss::replication::component_factory::register_default_factory_components;
use mmoss::replication::mob_factory;
use mmoss::replication::mob_factory::MobConstructor;
use mmoss::store::ReplicatedComponent;
use mmoss::store::World;

fn factories() -> (mob_factory::Factory, component_factory::Factory) {
    let mut mobs = mob_factory::Factory::new();
    mobs.register_mob(MobType(SQUARE_TYPE), MobConstructor::Square(SquareClient));
    let mut components = component_factory::Factory::new();
    register_default_factory_components(&mut components);
    (mobs, components)
}

fn transform_payload(x: f32, y: f32) -> Vec<u8> {
    let mut proxy = DynamicActorComponentProxy::new(Id(0));
    proxy.transform.translation.x = x.to_bits();
    proxy.transform.translation.y = y.to_bits();
    let mut buf = vec![0u8; 512];
    let n = proxy.serialize(&mut buf).unwrap();
    buf.truncate(n);
    buf
}

fn spawn_message(spawn_id: u32) -> Message {
    Message::Spawn(SpawnData { mob_type: MobType(SQUARE_TYPE), spawn_id: SpawnId(spawn_id) })
}

fn add_message(spawn_id: u32, replicated_id: u32, data: Vec<u8>) -> Message {
    Message::AddComponent(AddedComponentData {
        spawn_id: SpawnId(spawn_id),
        component_type: ComponentType(DYNAMIC_ACTOR_PROXY_COMPONENT_TYPE),
        replicated_id: Id(replicated_id),
        data,
    })
}

fn update_message(replicated_id: u32, data: Vec<u8>) -> Message {
    Message::Update(UpdateData { id: Id(replicated_id), data })
}

#[test]
fn causal_ordering_applies_last_update() {
    // Spawn, then an addition, then updates for the same object: after one
    // apply pass the local component equals the last applied update.
    let (mobs, components) = factories();
    let (mut manager, mut pending) = Manager::new(mobs, components);
    let mut world = World::new();

    pending.process_incoming(spawn_message(0));
    pending.process_incoming(add_message(0, 10, transform_payload(1.0, 1.0)));
    pending.process_incoming(update_message(10, transform_payload(2.0, 2.0)));
    pending.process_incoming(update_message(10, transform_payload(3.0, 4.0)));

    let events = manager.update_world(&mut pending, &mut world, &mut NoopUpdateCallbacks);

    assert_eq!(world.num_mobs(), 1);
    let mob = world.mob_at(0);
    assert_eq!(mob.components.len(), 1);
    match &mob.components[0] {
        ReplicatedComponent::DynamicActorProxy(p) => {
            assert_eq!(f32::from_bits(p.transform.translation.x), 3.0);
            assert_eq!(f32::from_bits(p.transform.translation.y), 4.0);
        },
        _ => panic!("wrong component"),
    }
    assert_eq!(events.len(), 3);
    assert!(matches!(events[0], CallbackEvent::Spawned { .. }));
    assert!(matches!(events[1], CallbackEvent::ComponentAdded { .. }));
    assert!(matches!(events[2], CallbackEvent::ComponentUpdated { .. }));
}

#[test]
fn orphan_add_component_is_dropped() {
    // An addition whose spawn id never had a successfully applied spawn
    // creates no object and corrupts nothing; the next tick still works.
    let (mobs, components) = factories();
    let (mut manager, mut pending) = Manager::new(mobs, components);
    let mut world = World::new();

    pending.process_incoming(add_message(5, 10, transform_payload(1.0, 1.0)));
    let events = manager.update_world(&mut pending, &mut world, &mut NoopUpdateCallbacks);
    assert_eq!(world.num_mobs(), 0);
    assert!(events.is_empty());

    // Processing continues on a later tick.
    pending.process_incoming(spawn_message(5));
    let events = manager.update_world(&mut pending, &mut world, &mut NoopUpdateCallbacks);
    assert_eq!(world.num_mobs(), 1);
    assert_eq!(events.len(), 1);
    // The orphaned addition was dropped, not retained: the object has no
    // components.
    assert!(world.mob_at(0).components.is_empty());
}

#[test]
fn add_component_queued_behind_spawn_in_same_tick() {
    // An addition received before its spawn, but applied in the same tick,
    // resolves: spawns are drained first.
    let (mobs, components) = factories();
    let (mut manager, mut pending) = Manager::new(mobs, components);
    let mut world = World::new();

    pending.process_incoming(add_message(0, 10, transform_payload(1.0, 2.0)));
    pending.process_incoming(spawn_message(0));
    let events = manager.update_world(&mut pending, &mut world, &mut NoopUpdateCallbacks);
    assert_eq!(world.num_mobs(), 1);
    assert_eq!(world.mob_at(0).components.len(), 1);
    assert_eq!(events.len(), 2);
}

#[test]
fn update_for_unknown_component_is_retained_until_matched() {
    let (mobs, components) = factories();
    let (mut manager, mut pending) = Manager::new(mobs, components);
    let mut world = World::new();

    pending.process_incoming(update_message(10, transform_payload(9.0, 9.0)));
    let events = manager.update_world(&mut pending, &mut world, &mut NoopUpdateCallbacks);
    assert!(events.is_empty());
    assert_eq!(world.num_mobs(), 0);
}

#[test]
fn unregistered_mob_type_drops_spawn() {
    let mobs = mob_factory::Factory::new();
    let mut components = component_factory::Factory::new();
    register_default_factory_components(&mut components);
    let (mut manager, mut pending) = Manager::new(mobs, components);
    let mut world = World::new();

    pending.process_incoming(spawn_message(0));
    let events = manager.update_world(&mut pending, &mut world, &mut NoopUpdateCallbacks);
    assert_eq!(world.num_mobs(), 0);
    assert!(events.is_empty());
}

#[test]
fn unregistered_component_type_drops_addition() {
    let (mobs, _) = factories();
    let components = component_factory::Factory::new();
    let (mut manager, mut pending) = Manager::new(mobs, components);
    let mut world = World::new();

    pending.process_incoming(spawn_message(0));
    pending.process_incoming(add_message(0, 10, transform_payload(1.0, 1.0)));
    let events = manager.update_world(&mut pending, &mut world, &mut NoopUpdateCallbacks);
    assert_eq!(world.num_mobs(), 1);
    assert!(world.mob_at(0).components.is_empty());
    assert_eq!(events.len(), 1);
}

#[test]
fn malformed_addition_payload_is_dropped() {
    let (mobs, components) = factories();
    let (mut manager, mut pending) = Manager::new(mobs, components);
    let mut world = World::new();

    pending.process_incoming(spawn_message(0));
    pending.process_incoming(add_message(0, 10, vec![1, 2, 3]));
    let events = manager.update_world(&mut pending, &mut world, &mut NoopUpdateCallbacks);
    assert_eq!(world.num_mobs(), 1);
    assert!(world.mob_at(0).components.is_empty());
    assert_eq!(events.len(), 1);
}

#[test]
fn spawn_id_registry_is_bidirectional() {
    let (mobs, components) = factories();
    let (mut manager, mut pending) = Manager::new(mobs, components);
    let mut world = World::new();

    pending.process_incoming(spawn_message(17));
    let events = manager.update_world(&mut pending, &mut world, &mut NoopUpdateCallbacks);
    let entity = match events[0] {
        CallbackEvent::Spawned { entity, .. } => entity,
        _ => panic!("expected a spawn"),
    };
    assert_eq!(manager.spawn_id_of(entity), Some(SpawnId(17)));
    assert_eq!(manager.entity_of(SpawnId(17)), Some(entity));
    assert_eq!(manager.entity_of(SpawnId(18)), None);
}

#[test]
fn updates_collapse_to_latest() {
    // Only one update per component id survives in the buffer: a newer one
    // replaces an unapplied older one.
    let (mobs, components) = factories();
    let (mut manager, mut pending) = Manager::new(mobs, components);
    let mut world = World::new();

    pending.process_incoming(spawn_message(0));
    pending.process_incoming(add_message(0, 10, transform_payload(0.0, 0.0)));
    let _ = manager.update_world(&mut pending, &mut world, &mut NoopUpdateCallbacks);

    pending.process_incoming(update_message(10, transform_payload(5.0, 5.0)));
    pending.process_incoming(update_message(10, transform_payload(6.0, 7.0)));
    let events = manager.update_world(&mut pending, &mut world, &mut NoopUpdateCallbacks);
    // Exactly one updated callback, for the collapsed update.
    assert_eq!(events.len(), 1);
    match &world.mob_at(0).components[0] {
        ReplicatedComponent::DynamicActorProxy(p) => {
            assert_eq!(f32::from_bits(p.transform.translation.x), 6.0);
            assert_eq!(f32::from_bits(p.transform.translation.y), 7.0);
        },
        _ => panic!("wrong component"),
    }
}
