//! A running entity and the handling of one command.

use crate::event_sourced::{applied, latest_snapshot, EventSourced};
use crate::seq_no::SeqNo;
use crate::snapshot::Snapshot;
use uuid::Uuid;
use vstd::prelude::*;

verus! {

/// The identifier of an entity, `uuid::Uuid`. The library hands it through
/// and never looks inside: to the verifier it is an opaque value.
#[verifier::external_type_specification]
#[verifier::external_body]
pub struct ExUuid(Uuid);

/// An event sourced entity between two commands, uniquely identified by its
/// ID.
///
/// A command is handled by the command handler of the entity's behavior.
/// The events of an accepted command are first persisted to the event log
/// under increasing sequence numbers and then applied to the event handler,
/// which may ask for a snapshot. The entity talks to no store itself: each
/// step says what is to be done with the stores next, and the following step
/// takes what they answered.
pub struct Entity<E: EventSourced> {
    id: Uuid,
    seq_no: u64,
    event_sourced: E,
}

/// What an [`Entity`] holds.
pub struct EntityView<E> {
    /// The ID of the entity.
    pub id: Uuid,
    /// Sequence number of the last event that was persisted and applied;
    /// zero before the first.
    pub seq_no: u64,
    /// The in-memory state of the entity.
    pub behavior: E,
}

impl<E: EventSourced> View for Entity<E> {
    type V = EntityView<E>;

    closed spec fn view(&self) -> EntityView<E> {
        EntityView { id: self.id, seq_no: self.seq_no, behavior: self.event_sourced }
    }
}

/// How the handling of a command goes on after the command handler.
pub enum CmdOutcome<E: EventSourced> {
    /// The command was rejected, or accepted without events. Nothing is to
    /// be persisted: the reply goes out at once and the entity is as before.
    Replied {
        /// The entity, unchanged.
        entity: Entity<E>,
        /// The rejection, or no events.
        reply: Result<Vec<E::Evt>, E::Error>,
    },
    /// The command was accepted with events, which are to be persisted
    /// before anything else happens.
    Persist(Handling<E>),
}

/// An entity in the middle of a command: the events of the command are
/// decided, but not yet persisted.
pub struct Handling<E: EventSourced> {
    entity: Entity<E>,
    evts: Vec<E::Evt>,
}

/// What a [`Handling`] or a [`Saving`] holds.
pub struct HandlingView<E: EventSourced> {
    /// The entity.
    pub entity: EntityView<E>,
    /// The events of the command that is being handled.
    pub evts: Seq<E::Evt>,
}

impl<E: EventSourced> View for Handling<E> {
    type V = HandlingView<E>;

    closed spec fn view(&self) -> HandlingView<E> {
        HandlingView { entity: self.entity@, evts: self.evts@ }
    }
}

/// How the handling of a command goes on after its events were persisted
/// and applied.
pub enum Persisted<E: EventSourced, M> {
    /// The event handler asked for no snapshot: the reply goes out.
    Replied {
        /// The entity, with the events applied.
        entity: Entity<E>,
        /// The events, for the reply.
        evts: Vec<E::Evt>,
    },
    /// The event handler asked for a snapshot, which is to be saved before
    /// the reply goes out.
    SaveSnapshot {
        /// The entity, with the events applied.
        saving: Saving<E>,
        /// The snapshot to save.
        snapshot: Snapshot<E::State, M>,
    },
}

/// An entity in the middle of a command: the events of the command are
/// persisted and applied, and a snapshot is being saved.
pub struct Saving<E: EventSourced> {
    entity: Entity<E>,
    evts: Vec<E::Evt>,
}

impl<E: EventSourced> View for Saving<E> {
    type V = HandlingView<E>;

    closed spec fn view(&self) -> HandlingView<E> {
        HandlingView { entity: self.entity@, evts: self.evts@ }
    }
}

impl<E: EventSourced> Entity<E> {
    /// The entity that recovery has arrived at.
    pub(crate) fn recovered(id: Uuid, seq_no: u64, event_sourced: E) -> (entity: Entity<E>)
        ensures
            entity@ == (EntityView { id, seq_no, behavior: event_sourced }),
    {
        Entity { id, seq_no, event_sourced }
    }

    /// The ID of the entity.
    pub fn id(&self) -> (id: Uuid)
        ensures
            id == self@.id,
    {
        self.id
    }

    /// Sequence number of the last event that was persisted and applied;
    /// zero before the first.
    pub fn seq_no(&self) -> (seq_no: u64)
        ensures
            seq_no == self@.seq_no,
    {
        self.seq_no
    }

    /// The in-memory state of the entity.
    pub fn event_sourced(&self) -> (event_sourced: &E)
        ensures
            *event_sourced == self@.behavior,
    {
        &self.event_sourced
    }

    /// Hands `cmd` to the command handler. A rejected command and one
    /// without events leave the entity as it is and ask for nothing to be
    /// persisted; the events of any other command are to be persisted next.
    pub fn handle_cmd(self, cmd: E::Cmd) -> (outcome: CmdOutcome<E>)
        ensures
            match self@.behavior.decision(cmd) {
                Err(error) => outcome matches CmdOutcome::Replied { entity, reply: Err(e) }
                    && entity@ == self@ && e == error,
                Ok(evts) => if evts.len() == 0 {
                    outcome matches CmdOutcome::Replied { entity, reply: Ok(none) }
                        && entity@ == self@ && none@ == evts
                } else {
                    outcome matches CmdOutcome::Persist(handling)
                        && handling@ == (HandlingView { entity: self@, evts })
                },
            },
    {
        match self.event_sourced.handle_cmd(cmd) {
            Err(error) => CmdOutcome::Replied { entity: self, reply: Err(error) },
            Ok(evts) => {
                if evts.len() == 0 {
                    CmdOutcome::Replied { entity: self, reply: Ok(evts) }
                } else {
                    CmdOutcome::Persist(Handling { entity: self, evts })
                }
            },
        }
    }
}

impl<E: EventSourced> Handling<E> {
    #[verifier::type_invariant]
    spec fn has_evts(self) -> bool {
        self.evts@.len() >= 1
    }

    /// The ID of the entity.
    pub fn id(&self) -> (id: Uuid)
        ensures
            id == self@.entity.id,
    {
        self.entity.id
    }

    /// The events to persist, in order. There is at least one.
    pub fn evts(&self) -> (evts: &Vec<E::Evt>)
        ensures
            evts@ == self@.evts,
            evts@.len() >= 1,
    {
        proof {
            use_type_invariant(self);
        }
        &self.evts
    }

    /// The sequence number that the event log is expected to have reached:
    /// the events are to be persisted under the numbers following it.
    pub fn expected_last_seq_no(&self) -> (seq_no: u64)
        ensures
            seq_no == self@.entity.seq_no,
    {
        self.entity.seq_no
    }

    /// Goes on after the event log has answered. If it has failed to
    /// persist the events, the entity ends here: only the failure is left.
    /// If it has persisted them and handed `metadata` back, the events are
    /// applied to the event handler in order, each under the sequence number
    /// following that of the one before. If the event handler asked for
    /// snapshots, the last one asked for is to be saved, at the sequence
    /// number of the event at which it was asked for.
    pub fn persisted<M, Failure>(self, persisted: Result<Option<M>, Failure>) -> (outcome: Result<
        Persisted<E, M>,
        Failure,
    >)
        requires
            persisted is Ok ==> self@.entity.seq_no + self@.evts.len() <= u64::MAX,
        ensures
            match persisted {
                Err(failure) => outcome matches Err(f) && f == failure,
                Ok(metadata) => match latest_snapshot(
                    self@.entity.behavior,
                    self@.entity.seq_no as int,
                    self@.evts,
                ) {
                    None => outcome matches Ok(Persisted::Replied { entity, evts }) && entity@
                        == after_evts(self@.entity, self@.evts) && evts@ == self@.evts,
                    Some((seq_no, state)) => outcome matches Ok(
                        Persisted::SaveSnapshot { saving, snapshot },
                    ) && saving@ == (HandlingView {
                        entity: after_evts(self@.entity, self@.evts),
                        evts: self@.evts,
                    }) && snapshot.seq_no@ == seq_no && snapshot.state == state
                        && snapshot.metadata == metadata,
                },
            },
    {
        let metadata = match persisted {
            Ok(metadata) => metadata,
            Err(failure) => {
                return Err(failure);
            },
        };
        let Handling { entity, evts } = self;
        let Entity { id, seq_no, event_sourced } = entity;
        let ghost first = Entity { id, seq_no, event_sourced }@;
        let mut seq_no = seq_no;
        let mut event_sourced = event_sourced;
        let mut latest: Option<(u64, E::State)> = None;
        let mut done: usize = 0;
        while done < evts.len()
            invariant
                done <= evts@.len(),
                first.seq_no + evts@.len() <= u64::MAX,
                seq_no == first.seq_no + done,
                event_sourced == applied(first.behavior, first.seq_no as int, evts@.take(done as int)),
                latest == latest_snapshot(first.behavior, first.seq_no as int, evts@.take(done as int)),
                latest matches Some((at, _)) ==> at >= 1,
            decreases evts@.len() - done,
        {
            proof {
                let next = evts@.take(done + 1);
                assert(next.drop_last() == evts@.take(done as int));
                assert(next.take(next.len() - 1) == evts@.take(done as int));
            }
            seq_no = seq_no + 1;
            match event_sourced.handle_evt(seq_no, &evts[done]) {
                Some(state) => {
                    latest = Some((seq_no, state));
                },
                None => {},
            }
            done = done + 1;
        }
        proof {
            assert(evts@.take(evts@.len() as int) == evts@);
        }
        let entity = Entity { id, seq_no, event_sourced };
        match latest {
            None => Ok(Persisted::Replied { entity, evts }),
            Some((at, state)) => Ok(
                Persisted::SaveSnapshot {
                    saving: Saving { entity, evts },
                    snapshot: Snapshot::new(SeqNo::positive_u64(at), state, metadata),
                },
            ),
        }
    }
}

impl<E: EventSourced> Saving<E> {
    /// The ID of the entity.
    pub fn id(&self) -> (id: Uuid)
        ensures
            id == self@.entity.id,
    {
        self.entity.id
    }

    /// Goes on after the snapshot store has answered. If it has failed to
    /// save the snapshot, the entity ends here: only the failure is left.
    /// Otherwise the reply with the events goes out.
    pub fn saved<Failure>(self, saved: Result<(), Failure>) -> (done: Result<
        (Entity<E>, Vec<E::Evt>),
        Failure,
    >)
        ensures
            match saved {
                Err(failure) => done matches Err(f) && f == failure,
                Ok(_) => done matches Ok((entity, evts)) && entity@ == self@.entity && evts@
                    == self@.evts,
            },
    {
        match saved {
            Err(failure) => Err(failure),
            Ok(_) => Ok((self.entity, self.evts)),
        }
    }
}

/// The entity after the persisted events `evts` have been applied to it.
pub open spec fn after_evts<E: EventSourced>(entity: EntityView<E>, evts: Seq<E::Evt>)
    -> EntityView<E> {
    EntityView {
        id: entity.id,
        seq_no: (entity.seq_no + evts.len()) as u64,
        behavior: applied(entity.behavior, entity.seq_no as int, evts),
    }
}

} // verus!
