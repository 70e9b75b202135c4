use netsync::buffer::TimestampedRingBuffer;
use netsync::components::{
    MinimalNetworkTransform, MinimalNetworkTransformSnapshots, NetworkPlayer,
    NetworkTranslation2D, NetworkYaw, Owner, ServerNetworkPlayerInfo, Vec3Milli,
};
use netsync::config::{
    get_dev_client_id, get_dev_private_key, get_dev_protocol_id, get_dev_user_data,
    DEV_NETWORK_TICK_MILLIS, DEV_SERVER_TICK_MILLIS,
};
use netsync::events::NetworkMovement2DEvent;
use netsync::fixed::Vec2Milli;
use netsync::game::{capture_fire, compose_action, ActionEvent, InputCapture, PlayerPresentation};
use netsync::interp::{interp_factor, interpolate_translation, interpolate_yaw, apply_network_transform};

fn t2d(x: i64, y: i64) -> NetworkTranslation2D {
    NetworkTranslation2D(Vec2Milli { x, y })
}

#[test]
fn interpolation_factor_is_elapsed_over_interval_clamped() {
    assert_eq!(interp_factor(0, 100), 0);
    assert_eq!(interp_factor(50, 100), 500);
    assert_eq!(interp_factor(100, 100), 1000);
    assert_eq!(interp_factor(250, 100), 1000);
}

#[test]
fn translation_blends_between_the_two_latest_snapshots() {
    let mut buf: TimestampedRingBuffer<NetworkTranslation2D> = TimestampedRingBuffer::new(8);
    buf.insert(10, t2d(0, 0));
    buf.insert(20, t2d(1000, 2000));
    let mid = interpolate_translation(&buf, &t2d(0, 0), 50, 100);
    assert_eq!(mid, t2d(500, 1000));
    let done = interpolate_translation(&buf, &t2d(0, 0), 150, 100);
    assert_eq!(done, t2d(1000, 2000));
}

#[test]
fn a_single_snapshot_is_used_unmodified() {
    let mut buf: TimestampedRingBuffer<NetworkTranslation2D> = TimestampedRingBuffer::new(8);
    buf.insert(10, t2d(300, 400));
    let r = interpolate_translation(&buf, &t2d(0, 0), 50, 100);
    assert_eq!(r, t2d(300, 400));
}

#[test]
fn an_empty_history_keeps_the_current_value() {
    let buf: TimestampedRingBuffer<NetworkTranslation2D> = TimestampedRingBuffer::new(8);
    let r = interpolate_translation(&buf, &t2d(7, 8), 50, 100);
    assert_eq!(r, t2d(7, 8));
}

#[test]
fn yaw_interpolates_along_the_shortest_angular_path() {
    // 350 degrees to 10 degrees goes +20 degrees through zero, not -340
    let mut buf: TimestampedRingBuffer<NetworkYaw> = TimestampedRingBuffer::new(8);
    buf.insert(10, NetworkYaw(350_000));
    buf.insert(20, NetworkYaw(10_000));
    let mid = interpolate_yaw(&buf, &NetworkYaw(0), 50, 100);
    assert_eq!(mid.0, 0);
    let quarter = interpolate_yaw(&buf, &NetworkYaw(0), 25, 100);
    assert_eq!(quarter.0, 355_000);
}

#[test]
fn transform_pass_updates_both_components() {
    let mut snaps = MinimalNetworkTransformSnapshots::new(8);
    snaps.translation_snaps.insert(10, t2d(0, 0));
    snaps.translation_snaps.insert(20, t2d(1000, 0));
    snaps.rotation_snaps.insert(10, NetworkYaw(0));
    snaps.rotation_snaps.insert(20, NetworkYaw(90_000));
    let mut transform = MinimalNetworkTransform::default();
    apply_network_transform(&mut transform, &snaps, 50, 100);
    assert_eq!(transform.translation, t2d(500, 0));
    assert_eq!(transform.rotation.0, 45_000);
}

#[test]
fn held_keys_compose_into_one_action() {
    let a = compose_action(true, false, false, true, false);
    assert_eq!(a.movement_vec, Vec2Milli { x: 1000, y: 1000 });
    assert!(!a.is_fire);
    assert!(a.has_movement());
    assert!(a.has_action());
    // opposite keys cancel
    let b = compose_action(true, true, true, true, false);
    assert_eq!(b.movement_vec, Vec2Milli { x: 0, y: 0 });
    assert!(!b.has_movement());
    assert!(!b.has_action());
    let c = compose_action(false, false, false, false, true);
    assert!(!c.has_movement());
    assert!(c.has_action());
}

#[test]
fn captured_movements_get_increasing_sequence_numbers() {
    let mut capture = InputCapture::new();
    let a = ActionEvent { movement_vec: Vec2Milli { x: 1000, y: 0 }, is_fire: false };
    let m0 = capture.capture_movement(&a).unwrap();
    let m1 = capture.capture_movement(&a).unwrap();
    assert_eq!(m0.index, 0);
    assert_eq!(m1.index, 1);
    assert_eq!(m0.axis, a.movement_vec);
    // an action without movement emits nothing and consumes no number
    let idle = ActionEvent { movement_vec: Vec2Milli { x: 0, y: 0 }, is_fire: true };
    assert!(capture.capture_movement(&idle).is_none());
    assert_eq!(capture.capture_movement(&a).unwrap().index, 2);
}

#[test]
fn fire_messages_carry_the_latest_seen_ticks() {
    let firing = ActionEvent { movement_vec: Vec2Milli { x: 0, y: 0 }, is_fire: true };
    let f = capture_fire(&firing, 31, 29).unwrap();
    assert_eq!(f.network_translation_tick, 31);
    assert_eq!(f.network_yaw_tick, 29);
    let idle = ActionEvent { movement_vec: Vec2Milli { x: 0, y: 0 }, is_fire: false };
    assert!(capture_fire(&idle, 31, 29).is_none());
}

#[test]
fn movement_event_exposes_its_index_and_intent() {
    let m = NetworkMovement2DEvent { axis: Vec2Milli { x: 1000, y: 0 }, index: 5 };
    assert_eq!(m.index(), 5);
    let i = m.to_intent();
    assert_eq!(i.sequence, 5);
    assert_eq!(i.axis, m.axis);
}

#[test]
fn translation_component_converts_to_and_from_3d() {
    let v = Vec3Milli { x: 1000, y: 5000, z: 2000 };
    let t = NetworkTranslation2D::from_3d(v);
    assert_eq!(t, t2d(1000, 2000));
    let back = t.to_3d();
    assert_eq!(back, Vec3Milli { x: 1000, y: 0, z: 2000 });
}

#[test]
fn player_components_hold_their_identities() {
    let p = NetworkPlayer::new(42);
    assert_eq!(p.client_id(), 42);
    assert_eq!(p.get(), 42);
    let info = ServerNetworkPlayerInfo::new([7u8; 16]);
    assert_eq!(info.uuid(), [7u8; 16]);
    let owner = Owner::new(42);
    assert_eq!(owner.owner, 42);
}

#[test]
fn presentation_colors_are_drawn_at_random() {
    let a = PlayerPresentation::from_rand_color();
    let b = PlayerPresentation::from_rand_color();
    // nothing is promised of the values; the call must simply work
    let _ = (a.color.red, a.color.green, a.color.blue);
    let _ = (b.color.red, b.color.green, b.color.blue);
}

#[test]
fn dev_configuration_is_what_a_local_run_needs() {
    assert_eq!(get_dev_protocol_id(), 0x655ea1eecade99ad);
    let key = get_dev_private_key();
    assert_eq!(key.len(), 32);
    assert_eq!(key[0], 0x78);
    assert_eq!(key[31], 0xaf);
    assert_eq!(DEV_SERVER_TICK_MILLIS, 50);
    assert_eq!(DEV_NETWORK_TICK_MILLIS, 100);
    // a clock-derived identity: nothing to pin down beyond the call
    let _ = get_dev_client_id();
    let data = get_dev_user_data();
    for k in 16..256 {
        assert_eq!(data[k], 0);
    }
}

#[test]
fn remote_histories_are_seeded_with_floor_entries() {
    let mut snaps = MinimalNetworkTransformSnapshots::new(8);
    snaps.seed(t2d(100, 200), NetworkYaw(90_000), 7);
    assert_eq!(snaps.translation_snaps.len(), 2);
    // any tick at or after zero resolves, even ones far before the spawn
    assert_eq!(snaps.translation_snaps.find_at_or_before(3).unwrap().key, 0);
    assert_eq!(snaps.translation_snaps.find_at_or_before(9).unwrap().key, 7);
    assert_eq!(snaps.translation_snaps.find_at_or_before(9).unwrap().value, t2d(100, 200));
    assert_eq!(snaps.rotation_snaps.find_at_or_before(9).unwrap().value.0, 90_000);
}

#[test]
fn ownership_is_decided_by_matching_client_identity() {
    let client = netsync::predictor::Client::new(42);
    assert!(client.controls(&NetworkPlayer::new(42)));
    assert!(!client.controls(&NetworkPlayer::new(43)));
}
