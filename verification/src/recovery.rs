//! Spawning an entity: its state is recovered from the latest snapshot and
//! the events persisted after it.

use crate::entity::{Entity, EntityView};
use crate::event_sourced::EventSourced;
use crate::snapshot::Snapshot;
use uuid::Uuid;
use vstd::prelude::*;

verus! {

/// Errors from spawning an event sourced entity. `LogError` is the error
/// type of the event log and `StoreError` that of the snapshot store.
#[derive(Debug)]
pub enum SpawnEntityError<LogError, StoreError> {
    /// A snapshot cannot be loaded from the snapshot store.
    LoadSnapshot(StoreError),
    /// The last sequence number cannot be obtained from the event log.
    LastSeqNo(LogError),
    /// Events by ID cannot be obtained from the event log.
    EventsById(LogError),
    /// The next event cannot be obtained from the event log.
    NextEvent(LogError),
    /// The stores contradict each other: the snapshot was taken at a
    /// sequence number that the event log has not reached.
    Inconsistent {
        /// Sequence number of the loaded snapshot.
        snapshot_seq_no: u64,
        /// Last sequence number of the event log.
        last_seq_no: u64,
    },
}

/// An entity that is being spawned, before the snapshot store has answered.
pub struct Recovering<E: EventSourced> {
    id: Uuid,
    event_sourced: E,
}

/// What a [`Recovering`] holds.
pub struct RecoveringView<E> {
    /// The ID of the entity.
    pub id: Uuid,
    /// The behavior as it was handed in.
    pub behavior: E,
}

impl<E: EventSourced> View for Recovering<E> {
    type V = RecoveringView<E>;

    closed spec fn view(&self) -> RecoveringView<E> {
        RecoveringView { id: self.id, behavior: self.event_sourced }
    }
}

/// An entity that is being spawned, after the snapshot store has answered
/// and before the event log has told its last sequence number.
pub struct Restored<E: EventSourced, M> {
    id: Uuid,
    event_sourced: E,
    snapshot_seq_no: u64,
    metadata: Option<M>,
}

/// What a [`Restored`] holds.
pub struct RestoredView<E, M> {
    /// The ID of the entity.
    pub id: Uuid,
    /// The behavior, with the state of the snapshot installed if there was
    /// one.
    pub behavior: E,
    /// Sequence number of the snapshot; zero if there was none.
    pub snapshot_seq_no: u64,
    /// Token of the event log that came with the snapshot.
    pub metadata: Option<M>,
}

impl<E: EventSourced, M> View for Restored<E, M> {
    type V = RestoredView<E, M>;

    closed spec fn view(&self) -> RestoredView<E, M> {
        RestoredView {
            id: self.id,
            behavior: self.event_sourced,
            snapshot_seq_no: self.snapshot_seq_no,
            metadata: self.metadata,
        }
    }
}

/// How spawning goes on once the last sequence number is known.
pub enum Replay<E: EventSourced, M> {
    /// The snapshot is as recent as the event log: the entity is ready.
    Complete(Entity<E>),
    /// Events were persisted after the snapshot. They are to be read from
    /// the event log, from `from_seq_no` to `to_seq_no` with both ends
    /// included, and replayed in ascending order.
    Events {
        /// The entity, waiting for the event log to hand out the events.
        opening: Opening<E>,
        /// Sequence number of the first event to replay.
        from_seq_no: u64,
        /// Sequence number of the last event to replay.
        to_seq_no: u64,
        /// Token of the event log that came with the snapshot.
        metadata: Option<M>,
    },
}

/// An entity that is being spawned, after the event log was asked for the
/// events after its snapshot and before it has answered.
pub struct Opening<E: EventSourced> {
    id: Uuid,
    event_sourced: E,
    last_seq_no: u64,
}

/// An entity that is being spawned, while the events after its snapshot are
/// replayed.
pub struct Replaying<E: EventSourced> {
    id: Uuid,
    event_sourced: E,
    last_seq_no: u64,
}

/// What an [`Opening`] or a [`Replaying`] holds.
pub struct ReplayingView<E> {
    /// The ID of the entity.
    pub id: Uuid,
    /// The behavior, with the events replayed so far applied.
    pub behavior: E,
    /// Last sequence number of the event log.
    pub last_seq_no: u64,
}

impl<E: EventSourced> View for Opening<E> {
    type V = ReplayingView<E>;

    closed spec fn view(&self) -> ReplayingView<E> {
        ReplayingView { id: self.id, behavior: self.event_sourced, last_seq_no: self.last_seq_no }
    }
}

impl<E: EventSourced> View for Replaying<E> {
    type V = ReplayingView<E>;

    closed spec fn view(&self) -> ReplayingView<E> {
        ReplayingView { id: self.id, behavior: self.event_sourced, last_seq_no: self.last_seq_no }
    }
}

impl<E: EventSourced> Entity<E> {
    /// Starts spawning an event sourced entity with the given ID. Commands
    /// to it will wait in a buffer of the size `buffer`, which must be
    /// positive.
    ///
    /// First the snapshot store is to be asked for a snapshot of the entity,
    /// then the event log for its last sequence number and, if there are
    /// any, for the events after the snapshot.
    pub fn spawn(id: Uuid, event_sourced: E, buffer: usize) -> (recovering: Recovering<E>)
        requires
            buffer >= 1,
        ensures
            recovering@ == (RecoveringView { id, behavior: event_sourced }),
    {
        Recovering { id, event_sourced }
    }
}

impl<E: EventSourced> Recovering<E> {
    /// The ID of the entity.
    pub fn id(&self) -> (id: Uuid)
        ensures
            id == self@.id,
    {
        self.id
    }

    /// Goes on after the snapshot store has answered. If it has failed,
    /// spawning fails. The state of a loaded snapshot is installed in the
    /// behavior. Without a snapshot the behavior stays as it is and all
    /// events are to be replayed.
    pub fn snapshot_loaded<M, LogError, StoreError>(
        self,
        loaded: Result<Option<Snapshot<E::State, M>>, StoreError>,
    ) -> (restored: Result<Restored<E, M>, SpawnEntityError<LogError, StoreError>>)
        ensures
            match loaded {
                Err(error) => restored matches Err(SpawnEntityError::LoadSnapshot(e)) && e
                    == error,
                Ok(Some(snapshot)) => restored matches Ok(restored) && restored@ == (RestoredView {
                    id: self@.id,
                    behavior: self@.behavior.restored(snapshot.state),
                    snapshot_seq_no: snapshot.seq_no@,
                    metadata: snapshot.metadata,
                }),
                Ok(None) => restored matches Ok(restored) && restored@ == (RestoredView::<E, M> {
                    id: self@.id,
                    behavior: self@.behavior,
                    snapshot_seq_no: 0,
                    metadata: None,
                }),
            },
    {
        let Recovering { id, event_sourced } = self;
        let mut event_sourced = event_sourced;
        match loaded {
            Err(error) => Err(SpawnEntityError::LoadSnapshot(error)),
            Ok(Some(snapshot)) => {
                let Snapshot { seq_no, state, metadata } = snapshot;
                event_sourced.set_state(state);
                Ok(Restored { id, event_sourced, snapshot_seq_no: seq_no.as_u64(), metadata })
            },
            Ok(None) => Ok(Restored { id, event_sourced, snapshot_seq_no: 0, metadata: None }),
        }
    }
}

impl<E: EventSourced, M> Restored<E, M> {
    /// The ID of the entity.
    pub fn id(&self) -> (id: Uuid)
        ensures
            id == self@.id,
    {
        self.id
    }

    /// Goes on after the event log has told the last sequence number of the
    /// entity, zero if it holds no events. If the event log has failed,
    /// spawning fails. A snapshot from beyond the last sequence number is
    /// refused: the stores are inconsistent. Otherwise the events after the
    /// snapshot are to be replayed, if there are any.
    pub fn last_seq_no<LogError, StoreError>(
        self,
        last_seq_no: Result<u64, LogError>,
    ) -> (replay: Result<Replay<E, M>, SpawnEntityError<LogError, StoreError>>)
        ensures
            match last_seq_no {
                Err(error) => replay matches Err(SpawnEntityError::LastSeqNo(e)) && e == error,
                Ok(last_seq_no) => if self@.snapshot_seq_no > last_seq_no {
                    replay matches Err(
                        SpawnEntityError::Inconsistent { snapshot_seq_no, last_seq_no: last },
                    ) && snapshot_seq_no == self@.snapshot_seq_no && last == last_seq_no
                } else if self@.snapshot_seq_no == last_seq_no {
                    replay matches Ok(Replay::Complete(entity)) && entity@ == (EntityView {
                        id: self@.id,
                        seq_no: last_seq_no,
                        behavior: self@.behavior,
                    })
                } else {
                    replay matches Ok(Replay::Events { opening, from_seq_no, to_seq_no, metadata })
                        && opening@ == (ReplayingView {
                        id: self@.id,
                        behavior: self@.behavior,
                        last_seq_no,
                    }) && from_seq_no == self@.snapshot_seq_no + 1 && to_seq_no == last_seq_no
                        && metadata == self@.metadata
                },
            },
    {
        let Restored { id, event_sourced, snapshot_seq_no, metadata } = self;
        let last_seq_no = match last_seq_no {
            Ok(last_seq_no) => last_seq_no,
            Err(error) => {
                return Err(SpawnEntityError::LastSeqNo(error));
            },
        };
        if snapshot_seq_no > last_seq_no {
            Err(SpawnEntityError::Inconsistent { snapshot_seq_no, last_seq_no })
        } else if snapshot_seq_no == last_seq_no {
            Ok(Replay::Complete(Entity::recovered(id, last_seq_no, event_sourced)))
        } else {
            Ok(
                Replay::Events {
                    opening: Opening { id, event_sourced, last_seq_no },
                    from_seq_no: snapshot_seq_no + 1,
                    to_seq_no: last_seq_no,
                    metadata,
                },
            )
        }
    }
}

impl<E: EventSourced> Opening<E> {
    /// The ID of the entity.
    pub fn id(&self) -> (id: Uuid)
        ensures
            id == self@.id,
    {
        self.id
    }

    /// Goes on after the event log has answered the request for the events
    /// after the snapshot. If it has failed, spawning fails. Otherwise the
    /// events that it hands out are to be replayed one by one; `evts`, the
    /// source to take them from, is handed back as it came.
    pub fn evts_by_id<Evts, LogError, StoreError>(
        self,
        evts: Result<Evts, LogError>,
    ) -> (replaying: Result<(Replaying<E>, Evts), SpawnEntityError<LogError, StoreError>>)
        ensures
            match evts {
                Err(error) => replaying matches Err(SpawnEntityError::EventsById(e)) && e == error,
                Ok(evts) => replaying matches Ok((replaying, source)) && replaying@ == self@
                    && source == evts,
            },
    {
        match evts {
            Err(error) => Err(SpawnEntityError::EventsById(error)),
            Ok(evts) => Ok(
                (
                    Replaying {
                        id: self.id,
                        event_sourced: self.event_sourced,
                        last_seq_no: self.last_seq_no,
                    },
                    evts,
                ),
            ),
        }
    }
}

impl<E: EventSourced> Replaying<E> {
    /// The ID of the entity.
    pub fn id(&self) -> (id: Uuid)
        ensures
            id == self@.id,
    {
        self.id
    }

    /// Replays the next event that the event log has handed out, under the
    /// sequence number that it was persisted with. A snapshot that the
    /// event handler asks for is not taken. If the event log has failed to
    /// hand out the event, spawning fails.
    pub fn handle_evt<LogError, StoreError>(
        self,
        next: Result<(u64, E::Evt), LogError>,
    ) -> (replaying: Result<Replaying<E>, SpawnEntityError<LogError, StoreError>>)
        ensures
            match next {
                Err(error) => replaying matches Err(SpawnEntityError::NextEvent(e)) && e == error,
                Ok((seq_no, evt)) => replaying matches Ok(replaying) && replaying@
                    == (ReplayingView {
                    behavior: self@.behavior.evolved(seq_no, evt),
                    ..self@
                }),
            },
    {
        let Replaying { id, event_sourced, last_seq_no } = self;
        let mut event_sourced = event_sourced;
        match next {
            Err(error) => Err(SpawnEntityError::NextEvent(error)),
            Ok((seq_no, evt)) => {
                let _ = event_sourced.handle_evt(seq_no, &evt);
                Ok(Replaying { id, event_sourced, last_seq_no })
            },
        }
    }

    /// Goes on after the last event was replayed: the entity is ready, at
    /// the last sequence number of the event log.
    pub fn finish(self) -> (entity: Entity<E>)
        ensures
            entity@ == (EntityView {
                id: self@.id,
                seq_no: self@.last_seq_no,
                behavior: self@.behavior,
            }),
    {
        Entity::recovered(self.id, self.last_seq_no, self.event_sourced)
    }
}

} // verus!
