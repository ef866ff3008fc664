//! The behavior of one kind of entity: its commands, events and snapshots.

use vstd::prelude::*;

verus! {

/// Command and event handling for one kind of event sourced entity.
///
/// A value of the implementing type is the in-memory state of one entity.
/// The three handlers are deterministic and do no I/O. What each of them
/// does is given by the specification function beside it; the runtime states
/// over these functions what it does with a behavior.
pub trait EventSourced: Sized {
    /// Command type.
    type Cmd;

    /// Event type.
    type Evt;

    /// Snapshot state type.
    type State;

    /// Error type for rejected commands.
    type Error;

    /// The decision of the command handler in this state: a rejection, or
    /// the events to persist, in order. No events means an accepted no-op.
    spec fn decision(&self, cmd: Self::Cmd) -> Decision<Self>;

    /// The behavior after the event handler has applied `evt`, which was
    /// persisted under `seq_no`.
    spec fn evolved(&self, seq_no: u64, evt: Self::Evt) -> Self;

    /// The state to snapshot at `seq_no`, if the event handler asks for a
    /// snapshot when it applies `evt` there.
    spec fn snapshot_at(&self, seq_no: u64, evt: Self::Evt) -> Option<Self::State>;

    /// The behavior after a loaded snapshot state has been installed.
    spec fn restored(&self, state: Self::State) -> Self;

    /// Command handler, returning the events to be persisted. It cannot
    /// change the behavior.
    fn handle_cmd(&self, cmd: Self::Cmd) -> (result: Result<Vec<Self::Evt>, Self::Error>)
        ensures
            match result {
                Ok(evts) => self.decision(cmd) == Ok::<Seq<Self::Evt>, Self::Error>(evts@),
                Err(error) => self.decision(cmd) == Err::<Seq<Self::Evt>, Self::Error>(error),
            },
    ;

    /// Event handler, returning the state to snapshot at `seq_no`, if any.
    fn handle_evt(&mut self, seq_no: u64, evt: &Self::Evt) -> (state: Option<Self::State>)
        ensures
            *final(self) == old(self).evolved(seq_no, *evt),
            state == old(self).snapshot_at(seq_no, *evt),
    ;

    /// Snapshot state handler: installs a loaded snapshot state.
    fn set_state(&mut self, state: Self::State)
        ensures
            *final(self) == old(self).restored(state),
    ;
}

/// What the command handler decides: a rejection, or the events to persist.
pub type Decision<E> = Result<Seq<<E as EventSourced>::Evt>, <E as EventSourced>::Error>;

/// The behavior after the events `evts` have been applied in order, the
/// first of them under the sequence number `seq_no + 1`.
pub open spec fn applied<E: EventSourced>(behavior: E, seq_no: int, evts: Seq<E::Evt>) -> E
    decreases evts.len(),
{
    if evts.len() == 0 {
        behavior
    } else {
        applied(behavior, seq_no, evts.drop_last()).evolved(
            (seq_no + evts.len()) as u64,
            evts.last(),
        )
    }
}

/// The snapshot that the event handler asks for when the event at index
/// `at` of `evts` is applied, the events before it having been applied
/// already.
pub open spec fn requested<E: EventSourced>(
    behavior: E,
    seq_no: int,
    evts: Seq<E::Evt>,
    at: int,
) -> Option<E::State>
    recommends
        0 <= at < evts.len(),
{
    applied(behavior, seq_no, evts.take(at)).snapshot_at((seq_no + at + 1) as u64, evts[at])
}

/// Whether the snapshots of a new behavior are faithful: in every history
/// of the behavior, installing a snapshot that the event handler asked for
/// gives the state that the behavior had when it asked.
pub open spec fn snapshots_faithfully<E: EventSourced>(behavior: E) -> bool {
    forall|evts: Seq<E::Evt>, at: int|
        0 <= at < evts.len() && (#[trigger] requested(behavior, 0, evts, at)) is Some
            ==> behavior.restored(requested(behavior, 0, evts, at).unwrap()) == applied(
            behavior,
            0,
            evts.take(at + 1),
        )
}

/// The snapshot to save after the events `evts` have been applied as in
/// [`applied`]: the last one that the event handler asked for, with the
/// sequence number of the event at which it did so. `None` if it asked for
/// none.
pub open spec fn latest_snapshot<E: EventSourced>(behavior: E, seq_no: int, evts: Seq<E::Evt>)
    -> Option<(u64, E::State)>
    decreases evts.len(),
{
    if evts.len() == 0 {
        None
    } else {
        match requested(behavior, seq_no, evts, evts.len() - 1) {
            Some(state) => Some(((seq_no + evts.len()) as u64, state)),
            None => latest_snapshot(behavior, seq_no, evts.drop_last()),
        }
    }
}

} // verus!
