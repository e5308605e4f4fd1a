//! The mitigation a user picks at startup: shut the interface down, move
//! the host onto another network, or do nothing.

use vstd::prelude::*;

verus! {

/// What to do when an anomaly fires on a packet that involves this host.
#[derive(PartialEq, Eq, Structural, Clone, Copy, Debug)]
pub enum Action {
    INTERFACE,
    NETWORK,
    NOTHING,
}

} // verus!
