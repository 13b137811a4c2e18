//! Payloads that the bus itself knows.

use vstd::prelude::*;

verus! {

/// A ping as plain values.
pub struct PingView {
    /// How often the ping has been relayed.
    pub relay_count: u32,
    /// How often the ping is to be relayed in all.
    pub total_relays: u32,
    /// The pause before each relay, in milliseconds.
    pub delay_ms: u32,
}

/// A ping that is relayed a number of times, with a pause before each
/// relay.
#[derive(Debug, PartialEq, Eq)]
pub struct Ping {
    relay_count: u32,
    total_relays: u32,
    delay_ms: u32,
}

impl View for Ping {
    type V = PingView;

    closed spec fn view(&self) -> PingView {
        PingView {
            relay_count: self.relay_count,
            total_relays: self.total_relays,
            delay_ms: self.delay_ms,
        }
    }
}

impl Ping {
    /// A ping that is not relayed.
    pub fn new() -> (ping: Ping)
        ensures
            ping@ == (PingView { relay_count: 0, total_relays: 0, delay_ms: 0 }),
    {
        Ping { relay_count: 0, total_relays: 0, delay_ms: 0 }
    }

    /// A ping that is to be relayed `total_relays` times, `delay_ms`
    /// milliseconds apart, and has not been relayed yet.
    pub fn with_relay(total_relays: u32, delay_ms: u32) -> (ping: Ping)
        ensures
            ping@ == (PingView { relay_count: 0, total_relays, delay_ms }),
    {
        Ping { relay_count: 0, total_relays: total_relays, delay_ms: delay_ms }
    }

    /// How often the ping has been relayed.
    pub fn relay_count(&self) -> (count: u32)
        ensures
            count == self@.relay_count,
    {
        self.relay_count
    }

    /// How often the ping is to be relayed in all.
    pub fn total_relays(&self) -> (count: u32)
        ensures
            count == self@.total_relays,
    {
        self.total_relays
    }

    /// The pause before each relay, in milliseconds.
    pub fn delay_ms(&self) -> (delay: u32)
        ensures
            delay == self@.delay_ms,
    {
        self.delay_ms
    }
}

} // verus!
