//! The bare ping: a payload that only counts its relays.

use vstd::prelude::*;

verus! {

/// A ping that counts how often it has been relayed.
pub struct Ping {
    relay_count: u32,
}

} // verus!
