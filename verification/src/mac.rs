//! Joining a network.

pub mod join;
pub mod laws;
pub mod otaa;
pub mod session;

use vstd::prelude::*;

verus! {

/// MAC state that a join accept sets.
#[derive(Debug, Clone, Copy, PartialEq, Eq, Structural)]
pub struct Configuration {
    /// Delay in milliseconds between the end of an uplink and the first receive window.
    pub rx1_delay: u32,
}

/// What a step of the MAC reports to the device.
#[derive(Debug, Clone, Copy, PartialEq, Eq, Structural)]
pub enum Response {
    /// Both receive windows passed without a join accept.
    NoJoinAccept,
}

/// Delay in milliseconds that a delay field stands for: seconds, with 0 for one second too.
pub open spec fn delay_ms(del: u8) -> u32 {
    if 2 <= del <= 15 {
        (1000 * del) as u32
    } else {
        1000
    }
}

/// Delay in milliseconds that a delay field of the air interface stands for.
pub fn del_to_delay_ms(del: u8) -> (ms: u32)
    ensures
        ms == delay_ms(del),
{
    if 2 <= del && del <= 15 {
        1000 * (del as u32)
    } else {
        1000
    }
}

} // verus!
