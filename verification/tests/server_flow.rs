use netsync::buffer::InsertOutcome;
use netsync::error::NetstackError;
use netsync::fixed::Vec2Milli;
use netsync::server::ServerAuthority;
use netsync::sim::{Intent, PlayerMovementParams, StateVector};

fn params() -> PlayerMovementParams {
    PlayerMovementParams { base_speed: 1000, prediction_error_threshold: 1000 }
}

fn unit_x_intent(sequence: u64) -> Intent {
    Intent { axis: Vec2Milli { x: 1000, y: 0 }, sequence }
}

#[test]
fn connect_maps_the_client_and_seeds_its_snapshots() {
    let mut server = ServerAuthority::new(100, params());
    let handle = server.connect(42).unwrap();
    assert_eq!(server.registry.lookup(42), Some(handle));
    let rec = server.registry.record(handle).unwrap();
    assert_eq!(rec.client_id, 42);
    assert_eq!(rec.state, StateVector::origin());
    // the floor snapshot: any tick resolves to a defined value
    let floor = rec.snapshots.find_at_or_before(0).unwrap();
    assert_eq!(floor.key, 0);
    assert_eq!(floor.value, StateVector::origin());
    assert!(rec.snapshots.find_at_or_before(1_000_000).is_some());
}

#[test]
fn connecting_a_mapped_identity_is_a_duplicate() {
    let mut server = ServerAuthority::new(100, params());
    server.connect(42).unwrap();
    assert_eq!(server.connect(42), Err(NetstackError::DuplicateClient));
}

#[test]
fn intent_for_an_unmapped_client_is_dropped_with_an_error() {
    let mut server = ServerAuthority::new(100, params());
    assert_eq!(server.receive_intent(7, unit_x_intent(1)), Err(NetstackError::UnmappedClient));
}

#[test]
fn stale_sequence_numbers_are_rejected() {
    let mut server = ServerAuthority::new(100, params());
    let handle = server.connect(42).unwrap();
    assert_eq!(server.receive_intent(42, unit_x_intent(1)), Ok(InsertOutcome::Inserted));
    server.advance_tick();
    server.apply_client_intents(handle, 1000).unwrap();
    // sequence 1 was applied: a replay of it, or anything older, is stale
    assert_eq!(server.receive_intent(42, unit_x_intent(1)), Err(NetstackError::StaleInput));
    assert_eq!(server.receive_intent(42, unit_x_intent(0)), Err(NetstackError::StaleInput));
    assert_eq!(server.receive_intent(42, unit_x_intent(2)), Ok(InsertOutcome::Inserted));
}

#[test]
fn intents_apply_in_sequence_order_and_stamp_a_snapshot() {
    let mut server = ServerAuthority::new(100, params());
    let handle = server.connect(42).unwrap();
    // deliver out of network order; the tick boundary sorts before replay
    server.receive_intent(42, unit_x_intent(2)).unwrap();
    server.receive_intent(42, unit_x_intent(1)).unwrap();
    server.receive_intent(42, unit_x_intent(3)).unwrap();
    server.advance_tick();
    let state = server.apply_client_intents(handle, 1000).unwrap();
    assert_eq!(state.translation, Vec2Milli { x: 3000, y: 0 });
    let rec = server.registry.record(handle).unwrap();
    assert_eq!(rec.state, state);
    assert_eq!(rec.last_sequence, 3);
    let stamped = rec.snapshots.find_at_or_before(1).unwrap();
    assert_eq!(stamped.key, 1);
    assert_eq!(stamped.value, state);
}

#[test]
fn applying_with_no_new_intents_changes_nothing() {
    let mut server = ServerAuthority::new(100, params());
    let handle = server.connect(42).unwrap();
    let before = server.registry.record(handle).unwrap().state;
    let state = server.apply_client_intents(handle, 1000).unwrap();
    assert_eq!(state, before);
}

#[test]
fn applying_for_a_missing_handle_is_an_error() {
    let mut server = ServerAuthority::new(100, params());
    assert_eq!(server.apply_client_intents(3, 1000), Err(NetstackError::UnmappedClient));
}

#[test]
fn fire_resolves_against_the_snapshot_the_shooter_saw() {
    let mut server = ServerAuthority::new(100, params());
    let handle = server.connect(42).unwrap();
    server.receive_intent(42, unit_x_intent(1)).unwrap();
    server.advance_tick();
    server.apply_client_intents(handle, 1000).unwrap();
    // translation as of tick 1, yaw as of tick 0
    let (t_snap, y_snap) = server.resolve_fire(handle, 1, 0).unwrap();
    assert_eq!(t_snap.tick, 1);
    assert_eq!(t_snap.value.translation.x, 1000);
    assert_eq!(y_snap.tick, 0);
    assert_eq!(y_snap.value, StateVector::origin());
}

#[test]
fn fire_referencing_an_evicted_tick_starves() {
    // tiny buffers: the floor snapshot is evicted once newer ones land
    let mut server = ServerAuthority::new(2, params());
    let handle = server.connect(42).unwrap();
    for tick in 0..3u64 {
        server.receive_intent(42, unit_x_intent(tick + 1)).unwrap();
        server.advance_tick();
        server.apply_client_intents(handle, 1000).unwrap();
        let _ = tick;
    }
    // snapshots now hold ticks 2 and 3 only
    let starved = server.resolve_fire(handle, 1, 3);
    assert!(matches!(starved, Err(NetstackError::BufferStarvation)));
    assert!(server.resolve_fire(handle, 2, 3).is_ok());
}

#[test]
fn disconnect_tears_down_the_mapping_and_only_it() {
    let mut server = ServerAuthority::new(100, params());
    let h42 = server.connect(42).unwrap();
    let h43 = server.connect(43).unwrap();
    server.receive_intent(43, unit_x_intent(1)).unwrap();
    server.advance_tick();
    server.apply_client_intents(h43, 1000).unwrap();

    assert!(server.disconnect(42));
    // a later lookup finds nothing: no dangling buffers, no stale value
    assert_eq!(server.registry.lookup(42), None);
    assert!(server.registry.record(h42).is_none());
    assert_eq!(server.receive_intent(42, unit_x_intent(5)), Err(NetstackError::UnmappedClient));
    // the other client's entity and buffers are untouched
    let rec = server.registry.record(h43).unwrap();
    assert_eq!(rec.client_id, 43);
    assert_eq!(rec.state.translation.x, 1000);
    assert!(rec.snapshots.find_at_or_before(5).is_some());
    // disconnecting an unmapped identity reports that nothing existed
    assert!(!server.disconnect(42));
}

#[test]
fn freed_slots_are_reused_for_new_connections() {
    let mut server = ServerAuthority::new(100, params());
    let h42 = server.connect(42).unwrap();
    server.connect(43).unwrap();
    server.disconnect(42);
    let h44 = server.connect(44).unwrap();
    assert_eq!(h44, h42);
    assert_eq!(server.registry.lookup(44), Some(h44));
}
