//! Identifiers shared with the oracle's clients.
use vstd::prelude::*;

verus! {

/// Which view of the oracle's data a client asks for, numbered from zero in
/// the order listed.
#[derive(Clone, Copy, Debug, PartialEq, Eq, Structural, PartialOrd, Ord)]
pub enum DataProviderId {
    /// The combined value of a key.
    Combined,
    /// The value reported by the operator's own feeder.
    PolkaFoundry,
    /// The value reported by one named feeder.
    Concrete,
    /// Every combined value.
    All,
}

} // verus!
