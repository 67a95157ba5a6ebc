//! Replicated-component tests: the round trip of every component type, the
//! bounded payload buffer, and malformed input.

use mmoss::physics::QuatBits;
use mmoss::physics::Transform;
use mmoss::physics::Vec3Bits;
use mmoss::physics::proxy::DynamicActorComponentProxy;
use mmoss::physics::proxy::StaticActorComponentProxy;
use mmoss::physics::proxy::DYNAMIC_ACTOR_PROXY_COMPONENT_TYPE;
use mmoss::physics::proxy::STATIC_ACTOR_PROXY_COMPONENT_TYPE;
use mmoss::render::RenderComponent;
use mmoss::render::RENDER_COMPONENT_TYPE;
use mmoss::replication::ComponentType;
use mmoss::replication::Id;
use mmoss::replication::MobType;
use mmoss::replication::Replicated;
use mmoss::replication::ReplicationError;
use mmoss::store::mob::MobComponent;

fn sample_transform() -> Transform {
    Transform {
        translation: Vec3Bits {
            x: 1.5f32.to_bits(),
            y: (-2.25f32).to_bits(),
            z: 3.0f32.to_bits(),
        },
        rotation: QuatBits {
            x: 0.0f32.to_bits(),
            y: 0.5f32.to_bits(),
            z: 0.0f32.to_bits(),
            w: 1.0f32.to_bits(),
        },
    }
}

#[test]
fn dynamic_proxy_round_trip() {
    let mut original = DynamicActorComponentProxy::new(Id(1));
    original.transform = sample_transform();

    let mut buf = vec![0u8; 512];
    let written = original.serialize(&mut buf).unwrap();
    assert_eq!(written, 28);

    let mut rebuilt = DynamicActorComponentProxy::new(Id(1));
    let consumed = rebuilt.replicate(&buf).unwrap();
    assert_eq!(consumed, 28);
    assert_eq!(rebuilt.transform, original.transform);
    assert_eq!(rebuilt.id, Id(1));
}

#[test]
fn static_proxy_round_trip() {
    let mut original = StaticActorComponentProxy::new(Id(2));
    original.transform = sample_transform();

    let mut buf = vec![0u8; 512];
    let written = original.serialize(&mut buf).unwrap();

    let mut rebuilt = StaticActorComponentProxy::new(Id(2));
    let consumed = rebuilt.replicate(&buf).unwrap();
    assert_eq!(consumed, written);
    assert_eq!(rebuilt.transform, original.transform);
}

#[test]
fn render_component_round_trip() {
    let mut original = RenderComponent::new(Id(3));
    original.color = (10, 20, 30);

    let mut buf = vec![0u8; 512];
    let written = original.serialize(&mut buf).unwrap();
    assert_eq!(written, 3);
    assert_eq!(&buf[..3], &[10, 20, 30]);

    let mut rebuilt = RenderComponent::new(Id(3));
    let consumed = rebuilt.replicate(&buf).unwrap();
    assert_eq!(consumed, 3);
    assert_eq!(rebuilt.color, (10, 20, 30));
}

#[test]
fn transform_wire_layout_is_little_endian_lanes() {
    let mut proxy = DynamicActorComponentProxy::new(Id(4));
    proxy.transform.translation = Vec3Bits {
        x: 3.0f32.to_bits(),
        y: 4.0f32.to_bits(),
        z: 0,
    };
    let mut buf = vec![0u8; 512];
    proxy.serialize(&mut buf).unwrap();
    assert_eq!(&buf[..4], &3.0f32.to_bits().to_le_bytes());
    assert_eq!(&buf[4..8], &4.0f32.to_bits().to_le_bytes());
    assert_eq!(&buf[8..12], &[0, 0, 0, 0]);
}

#[test]
fn replicate_with_short_input_is_error() {
    let mut proxy = DynamicActorComponentProxy::new(Id(5));
    let before = proxy.transform;
    let short = vec![0u8; 27];
    assert_eq!(proxy.replicate(&short), Err(ReplicationError::Encoding));
    assert_eq!(proxy.transform, before);

    let mut render = RenderComponent::new(Id(6));
    let short = vec![1, 2];
    assert_eq!(render.replicate(&short), Err(ReplicationError::Encoding));
    assert_eq!(render.color, (0, 0, 0));
}

#[test]
fn serialize_into_too_small_buffer_is_error() {
    let proxy = DynamicActorComponentProxy::new(Id(7));
    let mut small = vec![0u8; 27];
    assert_eq!(proxy.serialize(&mut small), Err(ReplicationError::Encoding));
    assert_eq!(small, vec![0u8; 27]);
}

#[test]
fn component_type_tags() {
    let proxy = DynamicActorComponentProxy::new(Id(8));
    assert_eq!(
        proxy.component_type(),
        ComponentType(DYNAMIC_ACTOR_PROXY_COMPONENT_TYPE)
    );
    assert_eq!(proxy.replicated_component_type().0, 7);
    assert_eq!(proxy.id(), Id(8));

    let fixed = StaticActorComponentProxy::new(Id(9));
    assert_eq!(
        fixed.component_type(),
        ComponentType(STATIC_ACTOR_PROXY_COMPONENT_TYPE)
    );

    let render = RenderComponent::new(Id(10));
    assert_eq!(render.component_type(), ComponentType(RENDER_COMPONENT_TYPE));
    assert_eq!(render.component_type().0, 100);
}

#[test]
fn mob_component_starts_at_origin() {
    let mob = MobComponent::new(Id(1), MobType(5));
    assert_eq!(mob.id, Id(1));
    assert_eq!(mob.mob_type, MobType(5));
    assert_eq!(f32::from_bits(mob.position.x), 0.0);
    assert_eq!(f32::from_bits(mob.rotation.w), 1.0);
}

#[test]
fn replicate_reads_only_its_prefix() {
    let mut original = RenderComponent::new(Id(11));
    original.color = (1, 2, 3);
    let mut buf = vec![0u8; 512];
    original.serialize(&mut buf).unwrap();

    // Trailing garbage after the replicated fields is ignored.
    let mut rebuilt = RenderComponent::new(Id(11));
    let consumed = rebuilt.replicate(&buf).unwrap();
    assert_eq!(consumed, 3);
    assert_eq!(rebuilt.color, (1, 2, 3));
}
