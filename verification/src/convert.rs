//! Conversion of events and snapshot states from and to bytes.

use vstd::prelude::*;

verus! {

/// Collection of conversion functions from and to bytes for events and
/// snapshot states. The stores call them; the runtime only hands them on.
pub struct Binarizer<EvtToBytes, EvtFromBytes, StateToBytes, StateFromBytes> {
    /// Turns an event into bytes.
    pub evt_to_bytes: EvtToBytes,
    /// Turns bytes into an event.
    pub evt_from_bytes: EvtFromBytes,
    /// Turns a snapshot state into bytes.
    pub state_to_bytes: StateToBytes,
    /// Turns bytes into a snapshot state.
    pub state_from_bytes: StateFromBytes,
}

} // verus!
