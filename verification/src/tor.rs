//! Events about the local Tor client and onion service.
use vstd::prelude::*;

verus! {

/// A change in the local Tor client or onion service.
#[derive(Clone, Debug)]
pub enum TorEvent {
    /// A human-readable status line.
    Status(String),
    /// The onion address of the local service.
    OnionAddress(String),
}

} // verus!
