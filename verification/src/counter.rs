//! A counter: a small event sourced behavior, to try the library with.

use crate::event_sourced::{applied, requested, snapshots_faithfully, EventSourced};
use vstd::prelude::*;

verus! {

/// Commands of a [`Counter`].
#[derive(Debug, Clone, Copy, PartialEq, Eq, Structural)]
pub enum Cmd {
    /// Increase the counter by the given amount.
    Inc(u64),
    /// Decrease the counter by the given amount.
    Dec(u64),
}

/// Events of a [`Counter`].
#[derive(Debug, Clone, Copy, PartialEq, Eq, Structural)]
pub enum Evt {
    /// The counter was increased.
    Increased {
        /// Value of the counter before.
        old_value: u64,
        /// The amount by which it was increased.
        inc: u64,
    },
    /// The counter was decreased.
    Decreased {
        /// Value of the counter before.
        old_value: u64,
        /// The amount by which it was decreased.
        dec: u64,
    },
}

/// Why a [`Counter`] rejects a command.
#[derive(Debug, Clone, Copy, PartialEq, Eq, Structural)]
pub enum Error {
    /// The counter cannot exceed the largest 64-bit value.
    Overflow {
        /// Value of the counter.
        value: u64,
        /// The amount by which it was to be increased.
        inc: u64,
    },
    /// The counter cannot go negative.
    Underflow {
        /// Value of the counter.
        value: u64,
        /// The amount by which it was to be decreased.
        dec: u64,
    },
}

impl Error {
    /// The rejection in words.
    pub fn message(&self) -> (message: &'static str)
        ensures
            message@ == match *self {
                Error::Overflow { .. } => "cannot exceed the maximum"@,
                Error::Underflow { .. } => "cannot go negative"@,
            },
    {
        match self {
            Error::Overflow { .. } => "cannot exceed the maximum",
            Error::Underflow { .. } => "cannot go negative",
        }
    }
}

/// A counter that can be increased and decreased within the range of `u64`.
/// Its snapshot state is its value.
#[derive(Debug, Clone, Copy, PartialEq, Eq, Structural)]
pub struct Counter {
    /// The current value.
    pub value: u64,
    /// Ask for a snapshot at every sequence number that is a multiple of
    /// this one. With `None` or zero, ask for none.
    pub snapshot_after: Option<u64>,
}

impl Counter {
    /// Change after how many events a snapshot is asked for.
    pub fn with_snapshot_after(self, snapshot_after: Option<u64>) -> (counter: Counter)
        ensures
            counter == (Counter { snapshot_after, ..self }),
    {
        Counter { snapshot_after, ..self }
    }

    /// Whether a snapshot is asked for at `seq_no`.
    pub open spec fn snapshot_due(&self, seq_no: u64) -> bool {
        match self.snapshot_after {
            Some(snapshot_after) => snapshot_after > 0 && seq_no % snapshot_after == 0,
            None => false,
        }
    }
}

impl Default for Counter {
    /// A counter at zero that asks for no snapshots.
    fn default() -> (counter: Counter)
        ensures
            counter == (Counter { value: 0, snapshot_after: None }),
    {
        Counter { value: 0, snapshot_after: None }
    }
}

impl EventSourced for Counter {
    type Cmd = Cmd;

    type Evt = Evt;

    type State = u64;

    type Error = Error;

    open spec fn decision(&self, cmd: Cmd) -> Result<Seq<Evt>, Error> {
        match cmd {
            Cmd::Inc(inc) => if self.value + inc > u64::MAX {
                Err(Error::Overflow { value: self.value, inc })
            } else {
                Ok(seq![Evt::Increased { old_value: self.value, inc }])
            },
            Cmd::Dec(dec) => if dec > self.value {
                Err(Error::Underflow { value: self.value, dec })
            } else {
                Ok(seq![Evt::Decreased { old_value: self.value, dec }])
            },
        }
    }

    open spec fn evolved(&self, seq_no: u64, evt: Evt) -> Counter {
        match evt {
            Evt::Increased { inc, .. } => Counter { value: self.value.wrapping_add(inc), ..*self },
            Evt::Decreased { dec, .. } => Counter { value: self.value.wrapping_sub(dec), ..*self },
        }
    }

    open spec fn snapshot_at(&self, seq_no: u64, evt: Evt) -> Option<u64> {
        if self.snapshot_due(seq_no) {
            Some(self.evolved(seq_no, evt).value)
        } else {
            None
        }
    }

    open spec fn restored(&self, state: u64) -> Counter {
        Counter { value: state, ..*self }
    }

    /// Accepts an increase that stays within the range of `u64` and a
    /// decrease that does not go below zero, each with one event.
    fn handle_cmd(&self, cmd: Cmd) -> (result: Result<Vec<Evt>, Error>) {
        match cmd {
            Cmd::Inc(inc) => {
                if inc > u64::MAX - self.value {
                    Err(Error::Overflow { value: self.value, inc })
                } else {
                    let evts = vec![Evt::Increased { old_value: self.value, inc }];
                    assert(evts@ =~= seq![Evt::Increased { old_value: self.value, inc }]);
                    Ok(evts)
                }
            },
            Cmd::Dec(dec) => {
                if dec > self.value {
                    Err(Error::Underflow { value: self.value, dec })
                } else {
                    let evts = vec![Evt::Decreased { old_value: self.value, dec }];
                    assert(evts@ =~= seq![Evt::Decreased { old_value: self.value, dec }]);
                    Ok(evts)
                }
            },
        }
    }

    /// Adds or subtracts the amount of the event, wrapping around at the
    /// ends of the range of `u64`, and asks for a snapshot at the sequence
    /// numbers where one is due.
    fn handle_evt(&mut self, seq_no: u64, evt: &Evt) -> (state: Option<u64>) {
        match *evt {
            Evt::Increased { inc, .. } => {
                self.value = self.value.wrapping_add(inc);
            },
            Evt::Decreased { dec, .. } => {
                self.value = self.value.wrapping_sub(dec);
            },
        }
        match self.snapshot_after {
            Some(snapshot_after) => {
                if snapshot_after > 0 && seq_no % snapshot_after == 0 {
                    Some(self.value)
                } else {
                    None
                }
            },
            None => None,
        }
    }

    /// Sets the value to that of the snapshot.
    fn set_state(&mut self, state: u64) {
        self.value = state;
    }
}

/// Events change the value of a counter and nothing else.
pub proof fn lemma_counter_keeps_snapshot_after(counter: Counter, seq_no: int, evts: Seq<Evt>)
    ensures
        applied(counter, seq_no, evts).snapshot_after == counter.snapshot_after,
    decreases evts.len(),
{
    if evts.len() > 0 {
        lemma_counter_keeps_snapshot_after(counter, seq_no, evts.drop_last());
    }
}

/// The snapshots of a counter are faithful: a snapshot holds the value that
/// the counter had when it was taken.
pub proof fn lemma_counter_snapshots_faithfully(counter: Counter)
    ensures
        snapshots_faithfully(counter),
{
    assert forall|evts: Seq<Evt>, at: int|
        0 <= at < evts.len() && (#[trigger] requested(counter, 0, evts, at)) is Some implies
        counter.restored(requested(counter, 0, evts, at).unwrap()) == applied(
        counter,
        0,
        evts.take(at + 1),
    ) by {
        let upto = evts.take(at + 1);
        assert(upto.drop_last() =~= evts.take(at));
        assert(upto.last() == evts[at]);
        lemma_counter_keeps_snapshot_after(counter, 0, evts.take(at));
    }
}

} // verus!
