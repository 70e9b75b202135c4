//! The messages the core consumes and emits.
//!
//! Every message carries an explicit sequence number or tick: the core
//! never infers order from arrival time.

use vstd::prelude::*;
use crate::fixed::Vec2Milli;
use crate::sim::Intent;

verus! {

/// A client's movement input for one tick, tagged with the local sequence
/// number assigned at capture.
#[derive(Clone, Copy, Debug, PartialEq, Eq, Structural)]
pub struct NetworkMovement2DEvent {
    pub axis: Vec2Milli,
    pub index: u64,
}

impl NetworkMovement2DEvent {
    pub fn index(&self) -> (r: u64)
        ensures
            r == self.index,
    {
        self.index
    }

    /// The intent this message carries, as the simulation consumes it.
    pub fn to_intent(&self) -> (r: Intent)
        ensures
            r.axis == self.axis,
            r.sequence == self.index,
            self.axis.valid_axis() ==> r.valid(),
    {
        Intent { axis: self.axis, sequence: self.index }
    }
}

/// A fire action, tagged with the last snapshot ticks the shooter had
/// seen for translation and yaw, so the server can resolve the shot
/// against the transform the shooter was looking at.
#[derive(Clone, Copy, Debug, PartialEq, Eq, Structural)]
pub struct NetworkFireEvent {
    pub network_translation_tick: u64,
    pub network_yaw_tick: u64,
}

} // verus!
