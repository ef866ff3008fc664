use eventsourced::counter::{Cmd, Counter, Error, Evt};
use eventsourced::entity::{CmdOutcome, Entity, Persisted};
use eventsourced::entity_ref::{cmd_result, EntityRefError};
use eventsourced::recovery::{Replay, SpawnEntityError};
use eventsourced::seq_no::SeqNo;
use eventsourced::snapshot::Snapshot;
use uuid::Uuid;

/// An event log and a snapshot store for one entity, in memory. Each of
/// their operations can be made to fail.
struct Stores {
    evts: Vec<(u64, Evt)>,
    snapshot: Option<(u64, u64)>,
    saved: Vec<(u64, u64)>,
    persists_left: Option<usize>,
    replayed: Vec<u64>,
    failing: Option<&'static str>,
}

impl Stores {
    fn empty() -> Stores {
        Stores {
            evts: vec![],
            snapshot: None,
            saved: vec![],
            persists_left: None,
            replayed: vec![],
            failing: None,
        }
    }

    fn check(&self, operation: &'static str) -> Result<(), String> {
        if self.failing == Some(operation) {
            Err(format!("{} failed", operation))
        } else {
            Ok(())
        }
    }

    fn last_seq_no(&self) -> Result<u64, String> {
        self.check("last_seq_no")?;
        Ok(self.evts.last().map(|(seq_no, _)| *seq_no).unwrap_or(0))
    }

    fn persist(&mut self, evts: &[Evt], last_seq_no: u64) -> Result<Option<()>, String> {
        if let Some(left) = self.persists_left {
            if left == 0 {
                return Err("persist failed".to_string());
            }
            self.persists_left = Some(left - 1);
        }
        for (n, evt) in evts.iter().enumerate() {
            self.evts.push((last_seq_no + 1 + n as u64, *evt));
        }
        Ok(None)
    }

    fn evts_by_id(
        &self,
        from_seq_no: u64,
        to_seq_no: u64,
    ) -> Result<Vec<Result<(u64, Evt), String>>, String> {
        self.check("evts_by_id")?;
        Ok(self
            .evts
            .iter()
            .filter(|(seq_no, _)| from_seq_no <= *seq_no && *seq_no <= to_seq_no)
            .map(|record| self.check("next_evt").map(|_| *record))
            .collect())
    }

    fn load(&self) -> Result<Option<Snapshot<u64, ()>>, String> {
        self.check("load")?;
        Ok(self
            .snapshot
            .map(|(seq_no, state)| Snapshot::new(SeqNo::try_from(seq_no).unwrap(), state, None)))
    }

    fn save(&mut self, snapshot: &Snapshot<u64, ()>) -> Result<(), String> {
        self.check("save")?;
        self.snapshot = Some((snapshot.seq_no.as_u64(), snapshot.state));
        self.saved.push((snapshot.seq_no.as_u64(), snapshot.state));
        Ok(())
    }
}

fn spawn(
    counter: Counter,
    stores: &mut Stores,
) -> Result<Entity<Counter>, SpawnEntityError<String, String>> {
    let recovering = Entity::spawn(Uuid::now_v7(), counter, 666);
    let restored = recovering.snapshot_loaded::<(), String, String>(stores.load())?;
    match restored.last_seq_no::<String, String>(stores.last_seq_no())? {
        Replay::Complete(entity) => Ok(entity),
        Replay::Events { opening, from_seq_no, to_seq_no, metadata: _ } => {
            let evts = stores.evts_by_id(from_seq_no, to_seq_no);
            let (mut replaying, evts) = opening.evts_by_id::<_, String, String>(evts)?;
            for evt in evts {
                if let Ok((seq_no, _)) = &evt {
                    stores.replayed.push(*seq_no);
                }
                replaying = replaying.handle_evt::<String, String>(evt)?;
            }
            Ok(replaying.finish())
        }
    }
}

/// Handles one command to the end. `Err` means that the entity has terminated.
fn handle_cmd(
    entity: Entity<Counter>,
    cmd: Cmd,
    stores: &mut Stores,
) -> Result<(Entity<Counter>, Result<Vec<Evt>, Error>), String> {
    match entity.handle_cmd(cmd) {
        CmdOutcome::Replied { entity, reply } => Ok((entity, reply)),
        CmdOutcome::Persist(handling) => {
            let persisted = stores.persist(handling.evts(), handling.expected_last_seq_no());
            match handling.persisted(persisted)? {
                Persisted::Replied { entity, evts } => Ok((entity, Ok(evts))),
                Persisted::SaveSnapshot { saving, snapshot } => {
                    let saved = stores.save(&snapshot);
                    let (entity, evts) = saving.saved(saved)?;
                    Ok((entity, Ok(evts)))
                }
            }
        }
    }
}

/// The task of an entity with its mailbox: once a store has failed, the
/// entity is gone and takes no more commands.
struct Task {
    entity: Option<Entity<Counter>>,
    stores: Stores,
}

impl Task {
    fn send(&mut self, cmd: Cmd) -> Result<Vec<Evt>, EntityRefError<Counter>> {
        match self.entity.take() {
            None => cmd_result(false, None),
            Some(entity) => match handle_cmd(entity, cmd, &mut self.stores) {
                Ok((entity, reply)) => {
                    self.entity = Some(entity);
                    cmd_result(true, Some(reply))
                }
                Err(_) => cmd_result(true, None),
            },
        }
    }
}

fn increased(old_value: u64, inc: u64) -> Evt {
    Evt::Increased { old_value, inc }
}

#[test]
fn test() {
    let mut stores = Stores::empty();
    for n in 0..43 {
        stores.evts.push((n + 1, increased(n, 1)));
    }
    stores.snapshot = Some((42, 42));

    let entity = spawn(Counter::default(), &mut stores).unwrap();

    let (entity, evts) = handle_cmd(entity, Cmd::Inc(1), &mut stores).unwrap();
    assert_eq!(evts, Ok(vec![increased(43, 1)]));

    let (_, evts) = handle_cmd(entity, Cmd::Dec(666), &mut stores).unwrap();
    assert!(evts.is_err());
}

#[test]
fn fresh_spawn_single_command() {
    let mut stores = Stores::empty();
    let entity = spawn(Counter::default(), &mut stores).unwrap();
    assert_eq!(entity.seq_no(), 0);

    let (entity, evts) = handle_cmd(entity, Cmd::Inc(1), &mut stores).unwrap();
    assert_eq!(evts, Ok(vec![increased(0, 1)]));
    assert_eq!(entity.seq_no(), 1);
    assert_eq!(stores.last_seq_no(), Ok(1));
    assert_eq!(stores.evts, vec![(1, increased(0, 1))]);
}

#[test]
fn recovery_with_snapshot_only() {
    let mut stores = Stores::empty();
    for n in 0..42 {
        stores.evts.push((n + 1, increased(n, 1)));
    }
    stores.snapshot = Some((42, 42));

    let entity = spawn(Counter::default(), &mut stores).unwrap();
    assert_eq!(entity.seq_no(), 42);
    assert_eq!(entity.event_sourced().value, 42);
    assert!(stores.replayed.is_empty());

    let (entity, evts) = handle_cmd(entity, Cmd::Inc(1), &mut stores).unwrap();
    assert_eq!(evts, Ok(vec![increased(42, 1)]));
    assert_eq!(entity.seq_no(), 43);
}

#[test]
fn recovery_with_snapshot_and_tail() {
    let mut stores = Stores::empty();
    for n in 0..43 {
        stores.evts.push((n + 1, increased(n, 1)));
    }
    stores.snapshot = Some((42, 42));

    let entity = spawn(Counter::default(), &mut stores).unwrap();
    assert_eq!(stores.replayed, vec![43]);
    assert_eq!(entity.seq_no(), 43);
    assert_eq!(entity.event_sourced().value, 43);
}

#[test]
fn recovery_without_snapshot_replays_all() {
    let mut stores = Stores::empty();
    for n in 0..5 {
        stores.evts.push((n + 1, increased(n, 1)));
    }
    let entity = spawn(Counter::default(), &mut stores).unwrap();
    assert_eq!(stores.replayed, vec![1, 2, 3, 4, 5]);
    assert_eq!(entity.seq_no(), 5);
    assert_eq!(entity.event_sourced().value, 5);
}

#[test]
fn rejected_command() {
    let mut stores = Stores::empty();
    let entity = spawn(Counter::default(), &mut stores).unwrap();

    let (entity, reply) = handle_cmd(entity, Cmd::Dec(1), &mut stores).unwrap();
    assert_eq!(reply, Err(Error::Underflow { value: 0, dec: 1 }));
    assert_eq!(reply.unwrap_err().message(), "cannot go negative");
    assert!(stores.evts.is_empty());
    assert_eq!(entity.seq_no(), 0);
    assert_eq!(entity.event_sourced().value, 0);

    let (entity, reply) = handle_cmd(entity, Cmd::Inc(5), &mut stores).unwrap();
    assert_eq!(reply, Ok(vec![increased(0, 5)]));
    assert_eq!(entity.seq_no(), 1);
    assert_eq!(stores.last_seq_no(), Ok(1));
}

#[test]
fn snapshot_cadence() {
    let mut stores = Stores::empty();
    let counter = Counter::default().with_snapshot_after(Some(10));
    let mut entity = spawn(counter, &mut stores).unwrap();
    for n in 0..25 {
        let (next, reply) = handle_cmd(entity, Cmd::Inc(1), &mut stores).unwrap();
        assert_eq!(reply, Ok(vec![increased(n, 1)]));
        entity = next;
    }
    assert_eq!(stores.saved, vec![(10, 10), (20, 20)]);
    assert_eq!(entity.seq_no(), 25);
    assert_eq!(stores.last_seq_no(), Ok(25));
}

#[test]
fn fatal_persistence_failure() {
    let mut stores = Stores::empty();
    stores.persists_left = Some(1);
    let entity = spawn(Counter::default(), &mut stores).unwrap();
    let mut task = Task { entity: Some(entity), stores };

    let first = task.send(Cmd::Inc(1));
    assert!(matches!(first, Ok(ref evts) if *evts == vec![increased(0, 1)]));

    let second = task.send(Cmd::Inc(1));
    assert!(matches!(second, Err(EntityRefError::EntityTerminated)));

    let third = task.send(Cmd::Inc(1));
    assert!(matches!(third, Err(EntityRefError::SendCmd)));

    assert_eq!(task.stores.evts, vec![(1, increased(0, 1))]);
}

#[test]
fn rejected_command_reaches_the_client_as_invalid() {
    let mut stores = Stores::empty();
    let entity = spawn(Counter::default(), &mut stores).unwrap();
    let mut task = Task { entity: Some(entity), stores };

    let reply = task.send(Cmd::Dec(1));
    assert!(matches!(
        reply,
        Err(EntityRefError::InvalidCommand(Error::Underflow { value: 0, dec: 1 }))
    ));
    let reply = task.send(Cmd::Inc(1));
    assert!(reply.is_ok());
}

#[test]
fn inconsistent_stores_fail_to_spawn() {
    let mut stores = Stores::empty();
    stores.evts.push((1, increased(0, 1)));
    stores.snapshot = Some((2, 2));
    let spawned = spawn(Counter::default(), &mut stores);
    assert!(matches!(
        spawned,
        Err(SpawnEntityError::Inconsistent { snapshot_seq_no: 2, last_seq_no: 1 })
    ));
}

#[test]
fn seq_no_counts_the_events_of_all_commands() {
    let mut stores = Stores::empty();
    let mut entity = spawn(Counter::default(), &mut stores).unwrap();
    let cmds = [Cmd::Inc(3), Cmd::Dec(5), Cmd::Dec(1), Cmd::Inc(0), Cmd::Dec(2), Cmd::Dec(1)];
    let mut persisted = 0;
    for cmd in cmds {
        let (next, reply) = handle_cmd(entity, cmd, &mut stores).unwrap();
        if let Ok(evts) = reply {
            persisted += evts.len() as u64;
        }
        entity = next;
        assert_eq!(entity.seq_no(), persisted);
        assert_eq!(stores.last_seq_no(), Ok(persisted));
    }
    assert_eq!(persisted, 4);
    let seq_nos: Vec<u64> = stores.evts.iter().map(|(seq_no, _)| *seq_no).collect();
    assert_eq!(seq_nos, vec![1, 2, 3, 4]);
    assert_eq!(entity.event_sourced().value, 0);
}

#[test]
fn spawning_twice_gives_the_same_state() {
    let mut stores = Stores::empty();
    for n in 0..7 {
        stores.evts.push((n + 1, increased(n, 2)));
    }
    stores.snapshot = Some((3, 6));
    let one = spawn(Counter::default(), &mut stores).unwrap();
    let other = spawn(Counter::default(), &mut stores).unwrap();
    assert_eq!(one.event_sourced(), other.event_sourced());
    assert_eq!(one.seq_no(), other.seq_no());
    assert_eq!(one.event_sourced().value, 14);
}

#[test]
fn snapshots_do_not_change_what_is_recovered() {
    let counter = Counter::default().with_snapshot_after(Some(3));
    let mut kept = Stores::empty();
    let mut entity = spawn(counter, &mut kept).unwrap();
    for _ in 0..8 {
        entity = handle_cmd(entity, Cmd::Inc(2), &mut kept).unwrap().0;
    }
    assert_eq!(kept.snapshot, Some((6, 12)));

    let mut plain = Stores::empty();
    plain.evts = kept.evts.clone();

    let with_snapshot = spawn(counter, &mut kept).unwrap();
    let without = spawn(counter, &mut plain).unwrap();
    assert_eq!(kept.replayed, vec![7, 8]);
    assert_eq!(plain.replayed, vec![1, 2, 3, 4, 5, 6, 7, 8]);
    assert_eq!(with_snapshot.event_sourced(), without.event_sourced());
    assert_eq!(with_snapshot.event_sourced(), entity.event_sourced());
    assert_eq!(with_snapshot.seq_no(), without.seq_no());
    assert_eq!(with_snapshot.seq_no(), 8);
}

#[test]
fn replies_keep_the_order_of_the_commands() {
    let mut stores = Stores::empty();
    let mut entity = spawn(Counter::default(), &mut stores).unwrap();
    let mut replies = vec![];
    for cmd in [Cmd::Inc(1), Cmd::Inc(10), Cmd::Dec(100), Cmd::Dec(4)] {
        let (next, reply) = handle_cmd(entity, cmd, &mut stores).unwrap();
        replies.push(reply);
        entity = next;
    }
    assert_eq!(
        replies,
        vec![
            Ok(vec![increased(0, 1)]),
            Ok(vec![increased(1, 10)]),
            Err(Error::Underflow { value: 11, dec: 100 }),
            Ok(vec![Evt::Decreased { old_value: 11, dec: 4 }]),
        ]
    );
}

fn stores_with_history() -> Stores {
    let mut stores = Stores::empty();
    for n in 0..3 {
        stores.evts.push((n + 1, increased(n, 1)));
    }
    stores.snapshot = Some((2, 2));
    stores
}

#[test]
fn spawning_fails_when_the_snapshot_cannot_be_loaded() {
    let mut stores = stores_with_history();
    stores.failing = Some("load");
    let spawned = spawn(Counter::default(), &mut stores);
    assert!(matches!(spawned, Err(SpawnEntityError::LoadSnapshot(error)) if error == "load failed"));
}

#[test]
fn spawning_fails_when_the_last_seq_no_cannot_be_had() {
    let mut stores = stores_with_history();
    stores.failing = Some("last_seq_no");
    let spawned = spawn(Counter::default(), &mut stores);
    assert!(
        matches!(spawned, Err(SpawnEntityError::LastSeqNo(error)) if error == "last_seq_no failed")
    );
}

#[test]
fn spawning_fails_when_the_events_cannot_be_had() {
    let mut stores = stores_with_history();
    stores.failing = Some("evts_by_id");
    let spawned = spawn(Counter::default(), &mut stores);
    assert!(
        matches!(spawned, Err(SpawnEntityError::EventsById(error)) if error == "evts_by_id failed")
    );
}

#[test]
fn spawning_fails_when_the_next_event_cannot_be_had() {
    let mut stores = stores_with_history();
    stores.failing = Some("next_evt");
    let spawned = spawn(Counter::default(), &mut stores);
    assert!(
        matches!(spawned, Err(SpawnEntityError::NextEvent(error)) if error == "next_evt failed")
    );
    assert!(stores.replayed.is_empty());
}

#[test]
fn a_failed_snapshot_ends_the_entity() {
    let mut stores = Stores::empty();
    stores.failing = Some("save");
    let counter = Counter::default().with_snapshot_after(Some(2));
    let entity = spawn(counter, &mut stores).unwrap();
    let mut task = Task { entity: Some(entity), stores };

    assert!(task.send(Cmd::Inc(1)).is_ok());
    assert!(matches!(task.send(Cmd::Inc(1)), Err(EntityRefError::EntityTerminated)));
    assert!(matches!(task.send(Cmd::Inc(1)), Err(EntityRefError::SendCmd)));
    assert_eq!(task.stores.last_seq_no(), Ok(2));
    assert!(task.stores.saved.is_empty());
}
