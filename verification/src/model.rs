//! A model of the two stores of one entity and of the entity's life with
//! them, for stating what holds of every history.
//!
//! The event log is modelled by the journal of the entity: its records in
//! the order in which they were persisted, each an event with its sequence
//! number. The snapshot store is modelled by the one snapshot that it holds
//! for the entity, or by the store that keeps nothing.

use crate::entity::{after_evts, EntityView};
use crate::event_sourced::{latest_snapshot, EventSourced};
use uuid::Uuid;
use vstd::prelude::*;

verus! {

/// The records under which the event log persists `evts` when the journal
/// has reached `last_seq_no`: a contiguous run that starts at
/// `last_seq_no + 1`.
pub open spec fn numbered<Evt>(last_seq_no: int, evts: Seq<Evt>) -> Seq<(u64, Evt)> {
    Seq::new(evts.len(), |i: int| ((last_seq_no + 1 + i) as u64, evts[i]))
}

/// The journal after `evts` were persisted to it by a writer that expected
/// it to have reached `expected_last_seq_no`.
pub open spec fn persisted<Evt>(
    journal: Seq<(u64, Evt)>,
    evts: Seq<Evt>,
    expected_last_seq_no: u64,
) -> Seq<(u64, Evt)> {
    journal + numbered(expected_last_seq_no as int, evts)
}

/// The last sequence number of a journal: zero if it holds no events,
/// otherwise the number of its latest record.
pub open spec fn last_seq_no<Evt>(journal: Seq<(u64, Evt)>) -> u64 {
    if journal.len() == 0 {
        0
    } else {
        journal.last().0
    }
}

/// Whether a record has a sequence number from `from_seq_no` to
/// `to_seq_no`, both ends included.
pub open spec fn in_range<Evt>(from_seq_no: u64, to_seq_no: u64) -> spec_fn((u64, Evt)) -> bool {
    |record: (u64, Evt)| from_seq_no <= record.0 <= to_seq_no
}

/// The records of a journal with sequence numbers from `from_seq_no` to
/// `to_seq_no`, both ends included, in the order of the journal.
pub open spec fn evts_by_id<Evt>(journal: Seq<(u64, Evt)>, from_seq_no: u64, to_seq_no: u64) -> Seq<
    (u64, Evt),
> {
    journal.filter(in_range(from_seq_no, to_seq_no))
}

/// Whether the sequence numbers of a journal are 1, 2, 3 and so on, without
/// gap or duplicate.
pub open spec fn contiguous<Evt>(journal: Seq<(u64, Evt)>) -> bool {
    forall|i: int| 0 <= i < journal.len() ==> (#[trigger] journal[i]).0 == i + 1
}

/// The events of a journal, without their sequence numbers.
pub open spec fn evts_of<Evt>(journal: Seq<(u64, Evt)>) -> Seq<Evt> {
    Seq::new(journal.len(), |i: int| journal[i].1)
}

/// What a snapshot store holds for one entity.
pub enum Snapshots<S> {
    /// The store that keeps nothing: saving discards, loading finds nothing.
    Noop,
    /// A store that keeps the snapshot saved last, with its sequence number.
    Latest(Option<(u64, S)>),
}

impl<S> Snapshots<S> {
    /// The store after a snapshot was saved to it.
    pub open spec fn saved(self, snapshot: (u64, S)) -> Snapshots<S> {
        match self {
            Snapshots::Noop => Snapshots::Noop,
            Snapshots::Latest(_) => Snapshots::Latest(Some(snapshot)),
        }
    }

    /// The snapshot that loading finds.
    pub open spec fn loaded(self) -> Option<(u64, S)> {
        match self {
            Snapshots::Noop => None,
            Snapshots::Latest(snapshot) => snapshot,
        }
    }
}

/// The behavior after the records `records` of an event log were replayed
/// in order, each under its own sequence number.
pub open spec fn replayed<E: EventSourced>(behavior: E, records: Seq<(u64, E::Evt)>) -> E
    decreases records.len(),
{
    if records.len() == 0 {
        behavior
    } else {
        replayed(behavior, records.drop_last()).evolved(records.last().0, records.last().1)
    }
}

/// The entity that spawning arrives at when the snapshot store answers with
/// `snapshot` and the event log holds `journal`. `None` if spawning fails
/// because the stores are inconsistent.
pub open spec fn spawned<E: EventSourced>(
    id: Uuid,
    behavior: E,
    snapshot: Option<(u64, E::State)>,
    journal: Seq<(u64, E::Evt)>,
) -> Option<EntityView<E>> {
    let (snapshot_seq_no, restored) = match snapshot {
        Some((seq_no, state)) => (seq_no, behavior.restored(state)),
        None => (0, behavior),
    };
    let last = last_seq_no(journal);
    if snapshot_seq_no > last {
        None
    } else if snapshot_seq_no == last {
        Some(EntityView { id, seq_no: last, behavior: restored })
    } else {
        Some(
            EntityView {
                id,
                seq_no: last,
                behavior: replayed(
                    restored,
                    evts_by_id(journal, (snapshot_seq_no + 1) as u64, last),
                ),
            },
        )
    }
}

/// An entity between two commands, with its stores.
pub struct World<E: EventSourced> {
    /// The entity.
    pub entity: EntityView<E>,
    /// The journal of the entity in the event log.
    pub journal: Seq<(u64, E::Evt)>,
    /// What the snapshot store holds for the entity.
    pub snapshots: Snapshots<E::State>,
}

/// A new entity with empty stores.
pub open spec fn initial<E: EventSourced>(id: Uuid, behavior: E, snapshots: Snapshots<E::State>)
    -> World<E> {
    World {
        entity: EntityView { id, seq_no: 0, behavior },
        journal: Seq::empty(),
        snapshots: match snapshots {
            Snapshots::Noop => Snapshots::Noop,
            Snapshots::Latest(_) => Snapshots::Latest(None),
        },
    }
}

/// The reply to `cmd`: the rejection, or the events of the command.
pub open spec fn reply<E: EventSourced>(world: World<E>, cmd: E::Cmd) -> Result<
    Seq<E::Evt>,
    E::Error,
> {
    world.entity.behavior.decision(cmd)
}

/// The entity and its stores after `cmd` was handled to the end, with
/// stores that do not fail.
pub open spec fn handled<E: EventSourced>(world: World<E>, cmd: E::Cmd) -> World<E> {
    match world.entity.behavior.decision(cmd) {
        Err(_) => world,
        Ok(evts) => if evts.len() == 0 {
            world
        } else {
            World {
                entity: after_evts(world.entity, evts),
                journal: persisted(world.journal, evts, world.entity.seq_no),
                snapshots: match latest_snapshot(
                    world.entity.behavior,
                    world.entity.seq_no as int,
                    evts,
                ) {
                    Some(snapshot) => world.snapshots.saved(snapshot),
                    None => world.snapshots,
                },
            }
        },
    }
}

/// The entity and its stores after the commands `cmds` were handled one
/// after the other.
pub open spec fn handled_all<E: EventSourced>(world: World<E>, cmds: Seq<E::Cmd>) -> World<E>
    decreases cmds.len(),
{
    if cmds.len() == 0 {
        world
    } else {
        handled(handled_all(world, cmds.drop_last()), cmds.last())
    }
}

/// Whether the entity is in step with its journal: the journal is
/// contiguous and the entity has applied all of it.
pub open spec fn in_step<E: EventSourced>(world: World<E>) -> bool {
    &&& contiguous(world.journal)
    &&& world.entity.seq_no == world.journal.len()
}

/// The number of events in the given replies.
pub open spec fn total_evts<Evt, Error>(replies: Seq<Result<Seq<Evt>, Error>>) -> nat
    decreases replies.len(),
{
    if replies.len() == 0 {
        0
    } else {
        total_evts(replies.drop_last()) + match replies.last() {
            Ok(evts) => evts.len(),
            Err(_) => 0,
        }
    }
}

/// The replies to the commands `cmds`, handled one after the other.
pub open spec fn replies<E: EventSourced>(world: World<E>, cmds: Seq<E::Cmd>) -> Seq<
    Result<Seq<E::Evt>, E::Error>,
>
    decreases cmds.len(),
{
    if cmds.len() == 0 {
        Seq::empty()
    } else {
        replies(world, cmds.drop_last()).push(
            reply(handled_all(world, cmds.drop_last()), cmds.last()),
        )
    }
}

} // verus!
