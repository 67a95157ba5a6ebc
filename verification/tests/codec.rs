//! Wire-format tests: exact bytes, round trips, and error cases of the
//! message codec.

use mmoss::replication::AddedComponentData;
use mmoss::replication::ComponentType;
use mmoss::replication::Id;
use mmoss::replication::Message;
use mmoss::replication::MessageFactoryNew;
use mmoss::replication::MobType;
use mmoss::replication::ReplicationError;
use mmoss::replication::SpawnData;
use mmoss::replication::SpawnId;
use mmoss::replication::UpdateData;

fn buffer() -> Vec<u8> {
    vec![0u8; 512]
}

#[test]
fn spawn_message_exact_bytes() {
    let message = Message::Spawn(SpawnData { mob_type: MobType(5), spawn_id: SpawnId(7) });
    let mut buf = buffer();
    let n = message.serialize(&mut buf).unwrap();
    assert_eq!(n, 12);
    assert_eq!(&buf[..12], &[0, 0, 0, 0, 5, 0, 0, 0, 7, 0, 0, 0]);
}

#[test]
fn update_message_exact_bytes() {
    let message = Message::Update(UpdateData { id: Id(0x0102_0304), data: vec![9, 8, 7] });
    let mut buf = buffer();
    let n = message.serialize(&mut buf).unwrap();
    assert_eq!(n, 15);
    assert_eq!(
        &buf[..15],
        &[1, 0, 0, 0, 0x04, 0x03, 0x02, 0x01, 3, 0, 0, 0, 9, 8, 7]
    );
}

#[test]
fn add_component_message_exact_bytes() {
    let message = Message::AddComponent(AddedComponentData {
        spawn_id: SpawnId(1),
        component_type: ComponentType(100),
        replicated_id: Id(2),
        data: vec![0xAA, 0xBB],
    });
    let mut buf = buffer();
    let n = message.serialize(&mut buf).unwrap();
    assert_eq!(n, 22);
    assert_eq!(
        &buf[..22],
        &[
            2, 0, 0, 0, 1, 0, 0, 0, 100, 0, 0, 0, 2, 0, 0, 0, 2, 0, 0, 0, 0xAA, 0xBB
        ]
    );
}

#[test]
fn spawn_message_round_trip() {
    let message = Message::Spawn(SpawnData { mob_type: MobType(42), spawn_id: SpawnId(3) });
    let mut buf = buffer();
    let n = message.serialize(&mut buf).unwrap();
    let (decoded, used) = MessageFactoryNew.deserialize(&(), &buf).unwrap();
    assert_eq!(used, n);
    match decoded {
        Message::Spawn(s) => {
            assert_eq!(s.mob_type, MobType(42));
            assert_eq!(s.spawn_id, SpawnId(3));
        },
        _ => panic!("wrong variant"),
    }
}

#[test]
fn update_message_round_trip() {
    let message = Message::Update(UpdateData { id: Id(10), data: vec![1, 2, 3, 4, 5] });
    let mut buf = buffer();
    let n = message.serialize(&mut buf).unwrap();
    let (decoded, used) = MessageFactoryNew.deserialize(&(), &buf[..n].to_vec()).unwrap();
    assert_eq!(used, n);
    match decoded {
        Message::Update(u) => {
            assert_eq!(u.id, Id(10));
            assert_eq!(u.data, vec![1, 2, 3, 4, 5]);
        },
        _ => panic!("wrong variant"),
    }
}

#[test]
fn add_component_message_round_trip() {
    let message = Message::AddComponent(AddedComponentData {
        spawn_id: SpawnId(9),
        component_type: ComponentType(7),
        replicated_id: Id(11),
        data: vec![],
    });
    let mut buf = buffer();
    let n = message.serialize(&mut buf).unwrap();
    let (decoded, used) = MessageFactoryNew.deserialize(&(), &buf).unwrap();
    assert_eq!(used, n);
    match decoded {
        Message::AddComponent(a) => {
            assert_eq!(a.spawn_id, SpawnId(9));
            assert_eq!(a.component_type, ComponentType(7));
            assert_eq!(a.replicated_id, Id(11));
            assert!(a.data.is_empty());
        },
        _ => panic!("wrong variant"),
    }
}

#[test]
fn serialize_buffer_too_small_is_error() {
    let message = Message::Spawn(SpawnData { mob_type: MobType(1), spawn_id: SpawnId(1) });
    let mut buf = vec![0u8; 4];
    assert_eq!(message.serialize(&mut buf), Err(ReplicationError::Encoding));
    // The buffer is untouched on failure.
    assert_eq!(buf, vec![0u8; 4]);
}

#[test]
fn deserialize_unknown_tag_is_error() {
    let data = vec![9, 0, 0, 0, 1, 2, 3, 4, 5, 6, 7, 8];
    assert_eq!(
        MessageFactoryNew.deserialize(&(), &data),
        Err(ReplicationError::Encoding)
    );
}

#[test]
fn deserialize_truncated_input_is_error() {
    let message = Message::Update(UpdateData { id: Id(1), data: vec![1, 2, 3] });
    let mut buf = buffer();
    let n = message.serialize(&mut buf).unwrap();
    // Every strict prefix of the encoding is rejected.
    for cut in 0..n {
        let prefix = buf[..cut].to_vec();
        assert_eq!(
            MessageFactoryNew.deserialize(&(), &prefix),
            Err(ReplicationError::Encoding)
        );
    }
}

#[test]
fn deserialize_ignores_trailing_bytes() {
    let message = Message::Spawn(SpawnData { mob_type: MobType(2), spawn_id: SpawnId(4) });
    let mut buf = buffer();
    let n = message.serialize(&mut buf).unwrap();
    let (_, used) = MessageFactoryNew.deserialize(&(), &buf).unwrap();
    assert_eq!(used, n);
    assert!(buf.len() > n);
}
