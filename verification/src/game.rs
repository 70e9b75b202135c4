//! Game-side glue over the core: input capture and player presentation.
//!
//! Raw device polling is an edge concern; what arrives here is which
//! movement keys are held and whether the fire button was pressed, and
//! what leaves is a discrete action, then a sequenced network message.

use vstd::prelude::*;
use crate::fixed::{Vec2Milli, MILLI, MAX_DT};
use crate::sim::{Intent, StateVector, PlayerMovementParams, sim_step};
use crate::components::NetworkTranslation2D;
use crate::events::{NetworkMovement2DEvent, NetworkFireEvent};

verus! {

/// An RGB color with 8-bit channels, enough for a player's tint.
#[derive(Clone, Copy, Debug, PartialEq, Eq, Structural)]
pub struct PresentationColor {
    pub red: u8,
    pub green: u8,
    pub blue: u8,
}

/// How a player entity is shown.
#[derive(Clone, Copy, Debug, PartialEq, Eq, Structural)]
pub struct PlayerPresentation {
    pub color: PresentationColor,
}

/// Relies on rand::random::<u8>: a byte drawn from the thread-local RNG.
/// Nothing can be promised of a random value.
#[verifier::external_body]
pub(crate) fn random_channel() -> u8 {
    rand::random::<u8>()
}

impl PlayerPresentation {
    /// A presentation with a randomly drawn color.
    pub fn from_rand_color() -> Self {
        PlayerPresentation {
            color: PresentationColor {
                red: random_channel(),
                green: random_channel(),
                blue: random_channel(),
            },
        }
    }
}

/// One frame's sampled action: the summed movement axis and the fire flag.
#[derive(Clone, Copy, Debug, PartialEq, Eq, Structural)]
pub struct ActionEvent {
    pub movement_vec: Vec2Milli,
    pub is_fire: bool,
}

impl ActionEvent {
    pub fn has_movement(&self) -> (r: bool)
        ensures
            r == !self.movement_vec.is_zero(),
    {
        self.movement_vec.x != 0 || self.movement_vec.y != 0
    }

    pub fn has_action(&self) -> (r: bool)
        ensures
            r == (!self.movement_vec.is_zero() || self.is_fire),
    {
        self.has_movement() || self.is_fire
    }
}

/// Turn the held movement keys and the fire press into one action: each
/// held direction contributes one unit to the axis, opposite keys cancel.
pub fn compose_action(up: bool, down: bool, left: bool, right: bool, fire: bool)
    -> (r: ActionEvent)
    ensures
        r.movement_vec.x == (if right { MILLI as int } else { 0 }) - (if left { MILLI as int } else { 0 }),
        r.movement_vec.y == (if up { MILLI as int } else { 0 }) - (if down { MILLI as int } else { 0 }),
        r.is_fire == fire,
        r.movement_vec.valid_axis(),
{
    let mut x: i64 = 0;
    let mut y: i64 = 0;
    if up {
        y = y + MILLI;
    }
    if down {
        y = y - MILLI;
    }
    if right {
        x = x + MILLI;
    }
    if left {
        x = x - MILLI;
    }
    ActionEvent { movement_vec: Vec2Milli { x, y }, is_fire: fire }
}

/// Assigns each captured action its monotonic sequence number.
pub struct InputCapture {
    pub next_sequence: u64,
}

impl InputCapture {
    pub fn new() -> (r: Self)
        ensures
            r.next_sequence == 0,
    {
        InputCapture { next_sequence: 0 }
    }

    /// The movement message for an action, if it moves: tagged with the
    /// next sequence number, which is then consumed. An action without
    /// movement emits nothing and consumes no number.
    pub fn capture_movement(&mut self, action: &ActionEvent)
        -> (r: Option<NetworkMovement2DEvent>)
        requires
            old(self).next_sequence < u64::MAX,
        ensures
            match r {
                Some(m) => !action.movement_vec.is_zero()
                    && m.axis == action.movement_vec
                    && m.index == old(self).next_sequence
                    && final(self).next_sequence == old(self).next_sequence + 1,
                None => action.movement_vec.is_zero()
                    && final(self).next_sequence == old(self).next_sequence,
            },
    {
        if action.has_movement() {
            let m = NetworkMovement2DEvent {
                axis: action.movement_vec,
                index: self.next_sequence,
            };
            self.next_sequence = self.next_sequence + 1;
            Some(m)
        } else {
            None
        }
    }
}

/// The fire message for an action, if it fires: tagged with the latest
/// snapshot ticks the shooter has seen.
pub fn capture_fire(action: &ActionEvent, translation_tick: u64, yaw_tick: u64)
    -> (r: Option<NetworkFireEvent>)
    ensures
        match r {
            Some(f) => action.is_fire
                && f.network_translation_tick == translation_tick
                && f.network_yaw_tick == yaw_tick,
            None => !action.is_fire,
        },
{
    if action.is_fire {
        Some(NetworkFireEvent {
            network_translation_tick: translation_tick,
            network_yaw_tick: yaw_tick,
        })
    } else {
        None
    }
}

/// Advance a networked translation by one movement event: exactly the
/// translation the simulation step computes (yaw is untouched by
/// movement).
pub fn move_2d(
    translation: &mut NetworkTranslation2D,
    movement: &NetworkMovement2DEvent,
    params: &PlayerMovementParams,
    dt: i64,
)
    requires
        old(translation).valid(),
        movement.axis.valid_axis(),
        params.valid(),
        0 <= dt <= MAX_DT,
    ensures
        final(translation).0 == sim_step(
            (StateVector { translation: old(translation).0, yaw: 0 }),
            (Intent { axis: movement.axis, sequence: movement.index }),
            dt as int,
            *params,
        ).translation,
        final(translation).valid(),
{
    let state = StateVector { translation: translation.0, yaw: 0 };
    let intent = movement.to_intent();
    let next = crate::sim::apply_step(&state, &intent, dt, params);
    *translation = NetworkTranslation2D(next.translation);
}

} // verus!
