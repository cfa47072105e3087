//! Control core of a small networked display appliance: the broker session
//! state machine, the screen with its word wrap, the shared address cells
//! and the button bridge. Every function states what it returns or changes,
//! and Verus proves that it does.

pub mod bus;
pub mod cells;
pub mod eink;
pub mod frame;
pub mod input;
pub mod layout;
pub mod led;
pub mod mqtt;
pub mod net;
pub mod text;
