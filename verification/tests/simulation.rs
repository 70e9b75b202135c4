use netsync::fixed::{distance_sq, isqrt, Vec2Milli, MAX_COORD};
use netsync::game::move_2d;
use netsync::components::NetworkTranslation2D;
use netsync::events::NetworkMovement2DEvent;
use netsync::sim::{apply_step, Intent, PlayerMovementParams, StateVector};

fn params() -> PlayerMovementParams {
    PlayerMovementParams { base_speed: 1000, prediction_error_threshold: 1000 }
}

fn intent(x: i64, y: i64, sequence: u64) -> Intent {
    Intent { axis: Vec2Milli { x, y }, sequence }
}

#[test]
fn unit_axis_moves_one_unit_per_second() {
    // axis (1, 0), speed 1 unit/s, dt 1 s: one whole unit along x
    let s = StateVector::origin();
    let next = apply_step(&s, &intent(1000, 0, 1), 1000, &params());
    assert_eq!(next.translation.x, 1000);
    assert_eq!(next.translation.y, 0);
    assert_eq!(next.yaw, 0);
}

#[test]
fn same_triple_gives_bit_identical_output() {
    let s = StateVector { translation: Vec2Milli { x: 123, y: -456 }, yaw: 90_000 };
    let i = intent(700, -300, 9);
    let a = apply_step(&s, &i, 250, &params());
    let b = apply_step(&s, &i, 250, &params());
    assert_eq!(a, b);
}

#[test]
fn zero_axis_moves_nothing() {
    let s = StateVector { translation: Vec2Milli { x: 5000, y: 5000 }, yaw: 1234 };
    let next = apply_step(&s, &intent(0, 0, 2), 1000, &params());
    assert_eq!(next, s);
}

#[test]
fn upward_axis_is_sign_flipped_into_world_y() {
    // the world's coordinate convention flips the input's y axis
    let next = apply_step(&StateVector::origin(), &intent(0, 1000, 1), 1000, &params());
    assert_eq!(next.translation.x, 0);
    assert_eq!(next.translation.y, -1000);
}

#[test]
fn diagonal_axis_is_normalized_before_scaling() {
    // |(1000, 1000)| = isqrt(2_000_000) = 1414; each direction component
    // is 1000 * 1000 / 1414 = 707 milli-units
    let next = apply_step(&StateVector::origin(), &intent(1000, 1000, 1), 1000, &params());
    assert_eq!(next.translation.x, 707);
    assert_eq!(next.translation.y, -707);
}

#[test]
fn oversized_axis_normalizes_like_a_unit_axis() {
    let a = apply_step(&StateVector::origin(), &intent(900_000, 0, 1), 1000, &params());
    let b = apply_step(&StateVector::origin(), &intent(1000, 0, 1), 1000, &params());
    assert_eq!(a.translation, b.translation);
}

#[test]
fn isqrt_matches_exact_squares_and_their_neighbors() {
    assert_eq!(isqrt(0), 0);
    assert_eq!(isqrt(1), 1);
    assert_eq!(isqrt(3), 1);
    assert_eq!(isqrt(4), 2);
    assert_eq!(isqrt(2_000_000), 1414);
    assert_eq!(isqrt(u64::MAX), 4_294_967_295);
}

#[test]
fn distance_sq_is_the_sum_of_squared_differences() {
    let a = Vec2Milli { x: 3000, y: -4000 };
    let b = Vec2Milli { x: 0, y: 0 };
    assert_eq!(distance_sq(&a, &b), 25_000_000);
}

#[test]
fn move_2d_advances_the_networked_translation() {
    // speed 2 units/s over half a second: one whole unit
    let p = PlayerMovementParams { base_speed: 2000, prediction_error_threshold: 1000 };
    let mut t = NetworkTranslation2D(Vec2Milli { x: 0, y: 0 });
    let m = NetworkMovement2DEvent { axis: Vec2Milli { x: 1000, y: 0 }, index: 1 };
    move_2d(&mut t, &m, &p, 500);
    assert_eq!(t.0.x, 1000);
    assert_eq!(t.0.y, 0);
}

#[test]
fn positions_saturate_at_the_world_bound() {
    let s = StateVector { translation: Vec2Milli { x: MAX_COORD, y: 0 }, yaw: 0 };
    let next = apply_step(&s, &intent(1000, 0, 1), 1000, &params());
    assert_eq!(next.translation.x, MAX_COORD);
}
