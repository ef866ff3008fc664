//! Sequence numbers of persisted events.

use vstd::prelude::*;
use vstd::std_specs::convert::TryFromSpecImpl;

verus! {

/// The position of an event in the journal of one entity: a positive integer.
/// The first event of an entity has sequence number 1; zero stands for
/// "no events yet" and is never a `SeqNo`.
#[derive(Clone, Copy, Debug, PartialEq, Eq, Structural)]
pub struct SeqNo(u64);

/// The error of converting zero into a [`SeqNo`].
#[derive(Clone, Copy, Debug, PartialEq, Eq, Structural)]
pub struct ZeroSeqNoError;

impl View for SeqNo {
    type V = u64;

    closed spec fn view(&self) -> u64 {
        self.0
    }
}

impl SeqNo {
    #[verifier::type_invariant]
    spec fn positive(self) -> bool {
        self.0 >= 1
    }

    /// The sequence number `value`, which the caller knows to be positive.
    pub(crate) fn positive_u64(value: u64) -> (seq_no: SeqNo)
        requires
            value >= 1,
        ensures
            seq_no@ == value,
    {
        SeqNo(value)
    }

    /// The sequence number as a plain integer, which is never zero.
    pub fn as_u64(&self) -> (value: u64)
        ensures
            value == self@,
            value >= 1,
    {
        proof {
            use_type_invariant(self);
        }
        self.0
    }
}

impl TryFrom<u64> for SeqNo {
    type Error = ZeroSeqNoError;

    /// Accepts every value but zero.
    fn try_from(value: u64) -> (converted: Result<SeqNo, ZeroSeqNoError>)
        ensures
            value == 0 <==> converted is Err,
            converted matches Ok(seq_no) ==> seq_no@ == value,
    {
        if value == 0 {
            Err(ZeroSeqNoError)
        } else {
            Ok(SeqNo(value))
        }
    }
}

impl TryFromSpecImpl<u64> for SeqNo {
    open spec fn obeys_try_from_spec() -> bool {
        true
    }

    closed spec fn try_from_spec(value: u64) -> Result<SeqNo, ZeroSeqNoError> {
        if value == 0 {
            Err(ZeroSeqNoError)
        } else {
            Ok(SeqNo(value))
        }
    }
}

} // verus!
