use netsync::buffer::Snapshot;
use netsync::fixed::Vec2Milli;
use netsync::predictor::{Client, ClientPredictor, ReconcileOutcome};
use netsync::sim::{Intent, PlayerMovementParams, StateVector};

fn params() -> PlayerMovementParams {
    PlayerMovementParams { base_speed: 1000, prediction_error_threshold: 1000 }
}

fn unit_x_intent(sequence: u64) -> Intent {
    Intent { axis: Vec2Milli { x: 1000, y: 0 }, sequence }
}

fn state_at(x: i64, y: i64) -> StateVector {
    StateVector { translation: Vec2Milli { x, y }, yaw: 0 }
}

#[test]
fn client_prediction_and_server_replay_converge() {
    // client predicts (3, 0) from (0, 0) with three unit intents at
    // speed 1, dt 1; replaying the same intents over the authoritative
    // (0, 0) gives the same state: zero error, no correction
    let p = params();
    let mut predictor = ClientPredictor::new(16, StateVector::origin());
    for seq in 1..=3u64 {
        predictor.predict(unit_x_intent(seq), 1000, &p);
    }
    assert_eq!(predictor.current_state().translation.x, 3000);

    let snapshot = Snapshot { tick: 0, value: StateVector::origin() };
    let outcome = predictor.reconcile(&snapshot, 1000, &p);
    assert_eq!(outcome, ReconcileOutcome::Accepted);
    assert_eq!(predictor.current_state().translation.x, 3000);
    assert_eq!(predictor.current_state().translation.y, 0);
}

#[test]
fn large_divergence_snaps_to_the_server_corrected_state() {
    // server says (0, 0) while the client has advanced to (5, 0); with
    // threshold 1.0 the error 5.0 forces a hard correction
    let p = params();
    let mut predictor = ClientPredictor::new(16, state_at(5000, 0));
    let snapshot = Snapshot { tick: 10, value: StateVector::origin() };
    let outcome = predictor.reconcile(&snapshot, 1000, &p);
    assert_eq!(outcome, ReconcileOutcome::Corrected);
    assert_eq!(predictor.current_state(), StateVector::origin());
}

#[test]
fn divergence_at_exactly_the_threshold_is_accepted() {
    // correction triggers only when the error is strictly greater than
    // the threshold
    let p = params();
    let mut predictor = ClientPredictor::new(16, state_at(1000, 0));
    let snapshot = Snapshot { tick: 10, value: StateVector::origin() };
    let outcome = predictor.reconcile(&snapshot, 1000, &p);
    assert_eq!(outcome, ReconcileOutcome::Accepted);
    assert_eq!(predictor.current_state(), state_at(1000, 0));
}

#[test]
fn reconciling_twice_without_new_intents_changes_nothing_more() {
    let p = params();
    let mut predictor = ClientPredictor::new(16, state_at(5000, 0));
    let snapshot = Snapshot { tick: 10, value: StateVector::origin() };
    predictor.reconcile(&snapshot, 1000, &p);
    let after_first = predictor.current_state();
    let second = predictor.reconcile(&snapshot, 1000, &p);
    assert_eq!(second, ReconcileOutcome::Accepted);
    assert_eq!(predictor.current_state(), after_first);
}

#[test]
fn reconciliation_replays_only_intents_newer_than_the_snapshot_tick() {
    let p = params();
    let mut predictor = ClientPredictor::new(16, StateVector::origin());
    for seq in 1..=4u64 {
        predictor.predict(unit_x_intent(seq), 1000, &p);
    }
    // the server had already processed through sequence 2, and reports
    // (9, 0): replaying intents 3 and 4 on top gives (11, 0), far from
    // the client's (4, 0), so the correction wins
    let snapshot = Snapshot { tick: 2, value: state_at(9000, 0) };
    let outcome = predictor.reconcile(&snapshot, 1000, &p);
    assert_eq!(outcome, ReconcileOutcome::Corrected);
    assert_eq!(predictor.current_state(), state_at(11_000, 0));
}

#[test]
fn cold_start_uses_the_prediction_unmodified() {
    let p = params();
    let mut predictor = ClientPredictor::new(16, StateVector::origin());
    predictor.predict(unit_x_intent(1), 1000, &p);
    // no authoritative snapshot has ever arrived: the predicted state is
    // what the entity renders with
    assert_eq!(predictor.current_state(), state_at(1000, 0));
}

#[test]
fn client_keeps_only_its_own_identity() {
    let c = Client::new(77);
    assert_eq!(c.id(), 77);
}
