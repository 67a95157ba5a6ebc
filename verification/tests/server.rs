//! Server replication manager tests: full-sync completeness, dirty
//! idempotence, emission order and the spawn-id counter.

use mmoss::physics::proxy::DynamicActorComponentProxy;
use mmoss::render::RenderComponent;
use mmoss::replication::Id;
use mmoss::replication::Message;
use mmoss::replication::MobType;
use mmoss::replication::SpawnId;
use mmoss::replication::server::ClientId;
use mmoss::replication::server::Manager;
use mmoss::store::Entity;
use mmoss::store::ReplicatedComponent;
use mmoss::store::World;

fn world_with_mobs(n: u32, components_each: u32) -> (World, Vec<Entity>) {
    let mut world = World::new();
    let mut entities = Vec::new();
    let mut next_id = 0u32;
    for _ in 0..n {
        let entity = world.spawn(MobType(5));
        for _ in 0..components_each {
            let proxy = DynamicActorComponentProxy::new(Id(next_id));
            next_id += 1;
            world
                .attach_component(entity, ReplicatedComponent::DynamicActorProxy(proxy))
                .unwrap();
        }
        entities.push(entity);
    }
    (world, entities)
}

fn count_kinds(messages: &[Message]) -> (usize, usize, usize) {
    let mut spawns = 0;
    let mut adds = 0;
    let mut updates = 0;
    for m in messages {
        match m {
            Message::Spawn(_) => spawns += 1,
            Message::AddComponent(_) => adds += 1,
            Message::Update(_) => updates += 1,
        }
    }
    (spawns, adds, updates)
}

#[test]
fn full_sync_completeness() {
    // Two objects with two components each exist when a client connects:
    // its sync holds exactly two spawns and four component additions,
    // and no update at all.
    let (world, entities) = world_with_mobs(2, 2);
    let mut manager = Manager::new();
    for e in &entities {
        manager.register_new_entity(*e);
    }
    // A first tick without clients clears the newly-spawned set.
    let _ = manager.serialize(&world);

    manager.add_client(ClientId(1));
    let out = manager.serialize(&world);
    assert!(out.broadcast.is_empty());
    assert_eq!(out.full_sync.len(), 1);
    assert_eq!(out.full_sync[0].client, ClientId(1));
    let (spawns, adds, updates) = count_kinds(&out.full_sync[0].messages);
    assert_eq!(spawns, 2);
    assert_eq!(adds, 4);
    assert_eq!(updates, 0);
}

#[test]
fn full_sync_spawn_precedes_its_additions() {
    let (world, entities) = world_with_mobs(1, 2);
    let mut manager = Manager::new();
    manager.register_new_entity(entities[0]);
    let _ = manager.serialize(&world);
    manager.add_client(ClientId(9));
    let out = manager.serialize(&world);
    let messages = &out.full_sync[0].messages;
    assert_eq!(messages.len(), 3);
    assert!(matches!(messages[0], Message::Spawn(_)));
    assert!(matches!(messages[1], Message::AddComponent(_)));
    assert!(matches!(messages[2], Message::AddComponent(_)));
    match (&messages[0], &messages[1]) {
        (Message::Spawn(s), Message::AddComponent(a)) => {
            assert_eq!(s.spawn_id, a.spawn_id);
        },
        _ => panic!("unexpected message order"),
    }
}

#[test]
fn dirty_idempotence() {
    // Marking the same object dirty many times in one tick flushes at most
    // one update per component.
    let (world, entities) = world_with_mobs(1, 2);
    let mut manager = Manager::new();
    manager.register_new_entity(entities[0]);
    manager.add_client(ClientId(1));
    let _ = manager.serialize(&world);  // promote the client

    manager.mark_dirty(entities[0]);
    manager.mark_dirty(entities[0]);
    manager.mark_dirty(entities[0]);
    let out = manager.serialize(&world);
    let (spawns, adds, updates) = count_kinds(&out.broadcast);
    assert_eq!(spawns, 0);
    assert_eq!(adds, 0);
    assert_eq!(updates, 2);
    // One update per component id, each exactly once.
    let mut ids = Vec::new();
    for m in &out.broadcast {
        if let Message::Update(u) = m {
            assert!(!ids.contains(&u.id));
            ids.push(u.id);
        }
    }
}

#[test]
fn dirty_set_clears_after_flush() {
    let (world, entities) = world_with_mobs(1, 1);
    let mut manager = Manager::new();
    manager.register_new_entity(entities[0]);
    let _ = manager.serialize(&world);
    manager.mark_dirty(entities[0]);
    let first = manager.serialize(&world);
    let second = manager.serialize(&world);
    assert!(!first.broadcast.is_empty());
    assert!(second.broadcast.is_empty());
}

#[test]
fn mark_dirty_on_unregistered_entity_is_noop() {
    let (world, _) = world_with_mobs(1, 1);
    let mut manager = Manager::new();
    manager.mark_dirty(Entity(0));
    let out = manager.serialize(&world);
    assert!(out.broadcast.is_empty());
}

#[test]
fn spawn_ids_are_assigned_in_order() {
    let (_, entities) = world_with_mobs(3, 0);
    let mut manager = Manager::new();
    for e in &entities {
        manager.register_new_entity(*e);
    }
    assert_eq!(manager.spawn_id_of(entities[0]), Some(SpawnId(0)));
    assert_eq!(manager.spawn_id_of(entities[1]), Some(SpawnId(1)));
    assert_eq!(manager.spawn_id_of(entities[2]), Some(SpawnId(2)));
    assert_eq!(manager.spawn_id_of(Entity(99)), None);
}

#[test]
fn newly_spawned_objects_broadcast_once() {
    let (world, entities) = world_with_mobs(1, 1);
    let mut manager = Manager::new();
    manager.add_client(ClientId(1));
    let _ = manager.serialize(&world);  // promote before registration
    manager.register_new_entity(entities[0]);
    let out = manager.serialize(&world);
    let (spawns, adds, updates) = count_kinds(&out.broadcast);
    assert_eq!(spawns, 1);
    assert_eq!(adds, 1);
    assert_eq!(updates, 0);
    // The spawn block is not repeated on the next tick.
    let next = manager.serialize(&world);
    assert!(next.broadcast.is_empty());
}

#[test]
fn pending_client_promoted_after_sync() {
    let (world, _) = world_with_mobs(1, 1);
    let mut manager = Manager::new();
    manager.add_client(ClientId(4));
    assert!(manager.clients().is_empty());
    let _ = manager.serialize(&world);
    assert_eq!(manager.clients().as_slice(), &[ClientId(4)]);
    let again = manager.serialize(&world);
    assert!(again.full_sync.is_empty());
}

#[test]
fn update_payload_is_component_encoding() {
    let mut world = World::new();
    let entity = world.spawn(MobType(5));
    let mut render = RenderComponent::new(Id(10));
    render.color = (7, 8, 9);
    world
        .attach_component(entity, ReplicatedComponent::Render(render))
        .unwrap();

    let mut manager = Manager::new();
    manager.register_new_entity(entity);
    manager.add_client(ClientId(1));
    let _ = manager.serialize(&world);
    manager.mark_dirty(entity);
    let out = manager.serialize(&world);
    assert_eq!(out.broadcast.len(), 1);
    match &out.broadcast[0] {
        Message::Update(u) => {
            assert_eq!(u.id, Id(10));
            assert_eq!(u.data, vec![7, 8, 9]);
        },
        _ => panic!("expected an update"),
    }
}
