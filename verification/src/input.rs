//! The button bridge: what a hardware edge puts on the bus.

use vstd::prelude::*;

verus! {

/// Number of the pin that the button sits on. It also names the button in
/// the event that a press puts on the bus.
pub const BUTTON_GPIO: u8 = 9;

/// What the interrupt handler offers to the button channel for one
/// interrupt: the button's identifier where the button's own flag was set,
/// and nothing where the interrupt came from elsewhere.
///
/// The handler offers the value without waiting and forgets it if the
/// channel is full; it clears the flag in either case.
pub fn gpio_int_handler(interrupt_set: bool) -> (offer: Option<u8>)
    ensures
        offer == if interrupt_set {
            Some(BUTTON_GPIO)
        } else {
            None::<u8>
        },
{
    if interrupt_set {
        Some(BUTTON_GPIO)
    } else {
        None
    }
}

} // verus!
