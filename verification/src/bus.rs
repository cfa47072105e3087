//! The event bus: how many items each channel between the tasks holds.
//!
//! A sender in a task waits while its channel is full. The interrupt
//! handler never waits: what it offers to a full channel is dropped.

use vstd::prelude::*;

verus! {

/// Button presses on their way to the session.
pub const BTN_CHANNEL_SIZE: usize = 1;

/// Colour commands on their way to the indicator.
pub const LED_CHANNEL_SIZE: usize = 3;

/// Messages on their way to the screen.
pub const MSG_CHANNEL_SIZE: usize = 1;

/// "Link up" and "link down" on their way to the screen.
pub const IP_UP_CHANNEL_SIZE: usize = 1;

/// "Broker up" and "broker down" on their way to the screen.
pub const MQTT_UP_CHANNEL_SIZE: usize = 1;

} // verus!
