//! End-to-end scenario: a server with one registered object converges a
//! freshly connected client through the wire codec, plus transport message
//! tests.

use mmoss::physics::Vec3Bits;
use mmoss::physics::proxy::DynamicActorComponentProxy;
use mmoss::render::SQUARE_TYPE;
use mmoss::render::SquareClient;
use mmoss::render::square_server_no_physics;
use mmoss::replication::ComponentType;
use mmoss::replication::Id;
use mmoss::replication::MessageFactoryNew;
use mmoss::replication::MobType;
use mmoss::replication::ReplicationError;
use mmoss::replication::SpawnId;
use mmoss::replication::client;
use mmoss::replication::client::CallbackEvent;
use mmoss::replication::client::UpdateCallbacks;
use mmoss::replication::component_factory;
use mmoss::replication::component_factory::register_default_factory_components;
use mmoss::replication::mob_factory;
use mmoss::replication::mob_factory::MobConstructor;
use mmoss::replication::server;
use mmoss::replication::server::ClientId;
use mmoss::store::Entity;
use mmoss::store::ReplicatedComponent;
use mmoss::store::World;
use mmoss::transport::Addressed;
use mmoss::transport::AddressedFactory;
use mmoss::transport::Message;
use mmoss::transport::MessageFactory;
use mmoss::transport::StringFactoryNew;
use mmoss::transport::VecU8FactoryNew;

#[derive(Default)]
struct CountingCallbacks {
    spawns: u32,
    added: u32,
    updated: u32,
}

impl UpdateCallbacks for CountingCallbacks {
    fn on_component_updated(&mut self, _entity: Entity, _spawn_id: SpawnId, _replicated_id: Id) {
        self.updated += 1;
    }

    fn on_spawn(&mut self, _entity: Entity, _spawn_id: SpawnId, _mob_type: MobType) {
        self.spawns += 1;
    }

    fn on_component_added(
        &mut self,
        _entity: Entity,
        _spawn_id: SpawnId,
        _component_type: ComponentType,
        _replicated_id: Id,
    ) {
        self.added += 1;
    }
}

#[test]
fn full_pipeline_replicates_position() {
    // The server registers one object of mob type five with one component,
    // id ten, at position (3, 4).  One client is pending its first full
    // sync when the tick runs.  After the client's pump and apply, it holds
    // a local object whose decoded position equals (3, 4); the spawn and
    // added callbacks fired exactly once each and no update callback fired.
    let mut server_world = World::new();
    let entity = server_world.spawn(MobType(SQUARE_TYPE));
    let mut proxy = DynamicActorComponentProxy::new(Id(10));
    proxy.transform.translation = Vec3Bits {
        x: 3.0f32.to_bits(),
        y: 4.0f32.to_bits(),
        z: 0.0f32.to_bits(),
    };
    server_world
        .attach_component(entity, ReplicatedComponent::DynamicActorProxy(proxy))
        .unwrap();

    let mut server_manager = server::Manager::new();
    server_manager.register_new_entity(entity);
    assert_eq!(server_manager.spawn_id_of(entity), Some(SpawnId(0)));
    server_manager.add_client(ClientId(1));

    let out = server_manager.serialize(&server_world);
    assert_eq!(out.full_sync.len(), 1);

    // Client side: registered factories, then pump and apply.
    let mut mobs = mob_factory::Factory::new();
    mobs.register_mob(MobType(SQUARE_TYPE), MobConstructor::Square(SquareClient));
    let mut components = component_factory::Factory::new();
    register_default_factory_components(&mut components);
    let (mut client_manager, mut pending) = client::Manager::new(mobs, components);
    let mut client_world = World::new();

    // The pump: each message travels through the wire codec.
    for sync in out.full_sync {
        for message in sync.messages {
            let mut wire = vec![0u8; 512];
            let n = message.serialize(&mut wire).unwrap();
            wire.truncate(n);
            let (received, _) = MessageFactoryNew.deserialize(&(), &wire).unwrap();
            pending.process_incoming(received);
        }
    }

    let mut callbacks = CountingCallbacks::default();
    let events = client_manager.update_world(&mut pending, &mut client_world, &mut callbacks);

    assert_eq!(client_world.num_mobs(), 1);
    let mob = client_world.mob_at(0);
    assert_eq!(mob.mob_type, MobType(SQUARE_TYPE));
    assert_eq!(mob.components.len(), 1);
    match &mob.components[0] {
        ReplicatedComponent::DynamicActorProxy(p) => {
            assert_eq!(p.id, Id(10));
            assert_eq!(f32::from_bits(p.transform.translation.x), 3.0);
            assert_eq!(f32::from_bits(p.transform.translation.y), 4.0);
        },
        _ => panic!("wrong component"),
    }
    assert_eq!(callbacks.spawns, 1);
    assert_eq!(callbacks.added, 1);
    assert_eq!(callbacks.updated, 0);
    assert_eq!(events.len(), 2);
    assert!(matches!(events[0], CallbackEvent::Spawned { .. }));
    assert!(matches!(events[1], CallbackEvent::ComponentAdded { .. }));
}

#[test]
fn square_server_builds_one_mob() {
    let mut world = World::new();
    let mut transform = mmoss::physics::Transform::default();
    transform.translation.x = 2.0f32.to_bits();
    let entity =
        square_server_no_physics(&mut world, (Id(1), transform), (Id(2), (9, 9, 9))).unwrap();
    assert_eq!(world.num_mobs(), 1);
    let mob = world.mob_at(0);
    assert_eq!(mob.entity, entity);
    assert_eq!(mob.mob_type, MobType(SQUARE_TYPE));
    assert_eq!(mob.components.len(), 2);
    assert!(matches!(
        mob.components[0],
        ReplicatedComponent::DynamicActorProxy(_)
    ));
    match &mob.components[1] {
        ReplicatedComponent::Render(r) => assert_eq!(r.color, (9, 9, 9)),
        _ => panic!("expected the render component"),
    }
}

#[test]
fn string_message_round_trip() {
    let original = String::from("hello replication");
    let mut wire = vec![0u8; 512];
    let n = original.serialize(&mut wire).unwrap();
    assert_eq!(n, 4 + original.len());
    let (decoded, used) = MessageFactory::deserialize(&StringFactoryNew, &(), &wire).unwrap();
    assert_eq!(used, n);
    assert_eq!(decoded, original);
}

#[test]
fn string_message_rejects_invalid_utf8() {
    // A length prefix followed by bytes that are not UTF-8.
    let mut wire = vec![2, 0, 0, 0, 0xFF, 0xFE];
    wire.resize(16, 0);
    assert_eq!(
        StringFactoryNew.deserialize(&(), &wire),
        Err(ReplicationError::Encoding)
    );
}

#[test]
fn vec_u8_message_round_trip() {
    let original: Vec<u8> = vec![1, 2, 3, 255];
    let mut wire = vec![0u8; 512];
    let n = original.serialize(&mut wire).unwrap();
    assert_eq!(&wire[..n], &[4, 0, 0, 0, 1, 2, 3, 255]);
    let (decoded, used) = MessageFactory::deserialize(&VecU8FactoryNew, &(), &wire).unwrap();
    assert_eq!(used, n);
    assert_eq!(decoded, original);
}

#[test]
fn addressed_message_carries_its_address() {
    let inner: Vec<u8> = vec![10, 20];
    let addressed = Addressed::new(77u32, inner);
    let mut wire = vec![0u8; 512];
    let n = addressed.serialize(&mut wire).unwrap();

    let factory: AddressedFactory<u32, VecU8FactoryNew> = AddressedFactory::new(VecU8FactoryNew);
    let (decoded, used) = factory.deserialize(&77u32, &wire).unwrap();
    assert_eq!(used, n);
    assert_eq!(decoded.address, 77);
    assert_eq!(decoded.message, vec![10, 20]);
}
