//! Snapshots of an entity's state.

use crate::seq_no::SeqNo;
use vstd::prelude::*;

verus! {

/// The state of an entity after the event with sequence number `seq_no`, as
/// a snapshot store holds it, with the token that the event log handed out
/// when that event was persisted.
#[derive(Debug)]
pub struct Snapshot<S, M> {
    /// Sequence number of the last event that the state has seen.
    pub seq_no: SeqNo,
    /// The state itself.
    pub state: S,
    /// Token of the event log, handed back to it when the later events are
    /// read; the runtime never looks inside.
    pub metadata: Option<M>,
}

impl<S, M> Snapshot<S, M> {
    /// A snapshot of `state` at `seq_no`.
    pub fn new(seq_no: SeqNo, state: S, metadata: Option<M>) -> (snapshot: Snapshot<S, M>)
        ensures
            snapshot == (Snapshot { seq_no, state, metadata }),
    {
        Snapshot { seq_no, state, metadata }
    }
}

} // verus!
