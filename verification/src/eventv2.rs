//! Events delivered to the network service.
use vstd::prelude::*;

verus! {

/// An event for the network service.
#[derive(Debug, Clone)]
pub enum Event {
    /// An event of the p2p service.
    P2p(crate::event::Event),
}

} // verus!
