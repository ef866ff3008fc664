//! What holds of every entity and every history.

use crate::event_sourced::{
    applied, latest_snapshot, requested, snapshots_faithfully, EventSourced,
};
use crate::model::{
    contiguous, evts_by_id, evts_of, handled, handled_all, in_range, in_step, initial,
    last_seq_no, numbered, replayed, replies, reply, spawned, total_evts, Snapshots, World,
};
use uuid::Uuid;
use vstd::prelude::*;

verus! {

/// Applying two runs of events one after the other is applying their
/// concatenation.
pub proof fn lemma_applied_concat<E: EventSourced>(
    behavior: E,
    seq_no: int,
    first: Seq<E::Evt>,
    second: Seq<E::Evt>,
)
    ensures
        applied(behavior, seq_no, first + second) == applied(
            applied(behavior, seq_no, first),
            seq_no + first.len(),
            second,
        ),
    decreases second.len(),
{
    if second.len() == 0 {
        assert(first + second =~= first);
    } else {
        assert((first + second).drop_last() =~= first + second.drop_last());
        lemma_applied_concat(behavior, seq_no, first, second.drop_last());
    }
}

/// What the event handler asks for at an event depends on the events up to
/// that one only.
pub proof fn lemma_requested_in_prefix<E: EventSourced>(
    behavior: E,
    seq_no: int,
    evts: Seq<E::Evt>,
    len: int,
    at: int,
)
    requires
        0 <= at < len <= evts.len(),
    ensures
        requested(behavior, seq_no, evts.take(len), at) == requested(behavior, seq_no, evts, at),
{
    assert(evts.take(len).take(at) =~= evts.take(at));
}

/// What the event handler asks for at an event of a second run of events is
/// what it asks for when that run is applied to the behavior that the first
/// run has left.
pub proof fn lemma_requested_in_suffix<E: EventSourced>(
    behavior: E,
    seq_no: int,
    first: Seq<E::Evt>,
    second: Seq<E::Evt>,
    at: int,
)
    requires
        0 <= at < second.len(),
    ensures
        requested(behavior, seq_no, first + second, first.len() + at) == requested(
            applied(behavior, seq_no, first),
            seq_no + first.len(),
            second,
            at,
        ),
{
    assert((first + second).take(first.len() + at) =~= first + second.take(at));
    lemma_applied_concat(behavior, seq_no, first, second.take(at));
}

/// Of the snapshots that the event handler asks for while the events of one
/// command are applied, the one to save is the last: it was asked for at the
/// event with index `at`, it is saved under the sequence number of that
/// event, and no later event of the command asked for one.
pub proof fn lemma_latest_snapshot_is_last_requested<E: EventSourced>(
    behavior: E,
    seq_no: int,
    evts: Seq<E::Evt>,
) -> (at: int)
    requires
        latest_snapshot(behavior, seq_no, evts) is Some,
    ensures
        0 <= at < evts.len(),
        requested(behavior, seq_no, evts, at) is Some,
        latest_snapshot(behavior, seq_no, evts) == Some(
            ((seq_no + at + 1) as u64, requested(behavior, seq_no, evts, at).unwrap()),
        ),
        forall|later: int|
            at < later < evts.len() ==> (#[trigger] requested(behavior, seq_no, evts, later))
                is None,
    decreases evts.len(),
{
    let last = evts.len() - 1;
    if requested(behavior, seq_no, evts, last) is Some {
        last
    } else {
        let at = lemma_latest_snapshot_is_last_requested(behavior, seq_no, evts.drop_last());
        lemma_requested_in_prefix(behavior, seq_no, evts, last, at);
        assert forall|later: int| at < later < evts.len() implies (#[trigger] requested(
            behavior,
            seq_no,
            evts,
            later,
        )) is None by {
            if later < last {
                lemma_requested_in_prefix(behavior, seq_no, evts, last, later);
            }
        }
        at
    }
}

/// No snapshot is to be saved after the events of a command exactly if the
/// event handler asked for none while they were applied.
pub proof fn lemma_no_snapshot_without_request<E: EventSourced>(
    behavior: E,
    seq_no: int,
    evts: Seq<E::Evt>,
)
    ensures
        latest_snapshot(behavior, seq_no, evts) is None <==> forall|at: int|
            0 <= at < evts.len() ==> (#[trigger] requested(behavior, seq_no, evts, at)) is None,
    decreases evts.len(),
{
    if evts.len() > 0 {
        let last = evts.len() - 1;
        lemma_no_snapshot_without_request(behavior, seq_no, evts.drop_last());
        if latest_snapshot(behavior, seq_no, evts) is None {
            assert forall|at: int| 0 <= at < evts.len() implies (#[trigger] requested(
                behavior,
                seq_no,
                evts,
                at,
            )) is None by {
                if at < last {
                    lemma_requested_in_prefix(behavior, seq_no, evts, last, at);
                }
            }
        } else if requested(behavior, seq_no, evts, last) is None {
            let at = lemma_latest_snapshot_is_last_requested(behavior, seq_no, evts.drop_last());
            lemma_requested_in_prefix(behavior, seq_no, evts, last, at);
        }
    }
}

/// A rejected command appends nothing to the journal and changes neither
/// the entity, its sequence number included, nor the snapshot store.
pub proof fn lemma_rejection_changes_nothing<E: EventSourced>(world: World<E>, cmd: E::Cmd)
    requires
        reply(world, cmd) is Err,
    ensures
        handled(world, cmd) == world,
{
}

/// A command that is accepted without events persists nothing and changes
/// neither the entity, its sequence number included, nor the snapshot store.
pub proof fn lemma_no_events_change_nothing<E: EventSourced>(world: World<E>, cmd: E::Cmd)
    requires
        reply(world, cmd) matches Ok(evts) && evts.len() == 0,
    ensures
        handled(world, cmd) == world,
{
}

/// Commands are answered in the order in which they arrive: there is one
/// reply for each command, and the reply to a command is the decision of
/// the command handler in the state that the commands before it have left.
pub proof fn lemma_replies_in_order<E: EventSourced>(world: World<E>, cmds: Seq<E::Cmd>, at: int)
    requires
        0 <= at < cmds.len(),
    ensures
        replies(world, cmds).len() == cmds.len(),
        replies(world, cmds)[at] == reply(handled_all(world, cmds.take(at)), cmds[at]),
    decreases cmds.len(),
{
    lemma_replies_len(world, cmds);
    if at == cmds.len() - 1 {
        assert(cmds.take(at) =~= cmds.drop_last());
    } else {
        lemma_replies_len(world, cmds.drop_last());
        lemma_replies_in_order(world, cmds.drop_last(), at);
        assert(cmds.drop_last().take(at) =~= cmds.take(at));
    }
}

proof fn lemma_replies_len<E: EventSourced>(world: World<E>, cmds: Seq<E::Cmd>)
    ensures
        replies(world, cmds).len() == cmds.len(),
    decreases cmds.len(),
{
    if cmds.len() > 0 {
        lemma_replies_len(world, cmds.drop_last());
    }
}

/// Handling a command keeps the entity in step with its journal, and the
/// journal grows by the events of the reply.
pub proof fn lemma_handled_in_step<E: EventSourced>(world: World<E>, cmd: E::Cmd)
    requires
        in_step(world),
        handled(world, cmd).journal.len() <= u64::MAX,
    ensures
        in_step(handled(world, cmd)),
        last_seq_no(handled(world, cmd).journal) == handled(world, cmd).entity.seq_no,
        handled(world, cmd).journal.len() == world.journal.len() + match reply(world, cmd) {
            Ok(evts) => evts.len(),
            Err(_) => 0,
        },
{
    let next = handled(world, cmd);
    match reply(world, cmd) {
        Ok(evts) => {
            if evts.len() > 0 {
                let run = numbered(world.entity.seq_no as int, evts);
                assert(next.journal == world.journal + run);
                assert forall|i: int| 0 <= i < next.journal.len() implies (
                #[trigger] next.journal[i]).0 == i + 1 by {
                    if i >= world.journal.len() {
                        assert(next.journal[i] == run[i - world.journal.len()]);
                    }
                }
            }
        },
        Err(_) => {},
    }
}

/// The journal is only ever appended to: whatever commands are handled,
/// the records that it held before stay as they are, at the head of it.
pub proof fn lemma_journal_is_append_only<E: EventSourced>(world: World<E>, cmds: Seq<E::Cmd>)
    ensures
        world.journal.len() <= handled_all(world, cmds).journal.len(),
        handled_all(world, cmds).journal.take(world.journal.len() as int) == world.journal,
    decreases cmds.len(),
{
    if cmds.len() > 0 {
        let before = handled_all(world, cmds.drop_last());
        lemma_journal_is_append_only(world, cmds.drop_last());
        lemma_journal_step(before, cmds.last());
        assert(handled(before, cmds.last()).journal.take(world.journal.len() as int)
            =~= before.journal.take(world.journal.len() as int));
    } else {
        assert(world.journal.take(world.journal.len() as int) =~= world.journal);
    }
}

/// Between any two commands the entity is in step with its journal: its
/// sequence number is the last one of the journal, and the journal holds
/// exactly the events of the replies so far, under the sequence numbers 1,
/// 2, 3 and so on.
pub proof fn lemma_monotonicity<E: EventSourced>(
    id: Uuid,
    behavior: E,
    snapshots: Snapshots<E::State>,
    cmds: Seq<E::Cmd>,
)
    requires
        handled_all(initial(id, behavior, snapshots), cmds).journal.len() <= u64::MAX,
    ensures
        ({
            let first = initial(id, behavior, snapshots);
            let world = handled_all(first, cmds);
            &&& world.entity.seq_no == total_evts(replies(first, cmds))
            &&& world.journal.len() == total_evts(replies(first, cmds))
            &&& last_seq_no(world.journal) == world.entity.seq_no
            &&& contiguous(world.journal)
        }),
    decreases cmds.len(),
{
    let first = initial(id, behavior, snapshots);
    if cmds.len() > 0 {
        let before = handled_all(first, cmds.drop_last());
        lemma_journal_step(before, cmds.last());
        lemma_monotonicity(id, behavior, snapshots, cmds.drop_last());
        lemma_handled_in_step(before, cmds.last());
        let earlier = replies(first, cmds.drop_last());
        assert(replies(first, cmds) == earlier.push(reply(before, cmds.last())));
        assert(earlier.push(reply(before, cmds.last())).drop_last() =~= earlier);
    }
}

/// Replaying records that are numbered without gap, from `seq_no + 1` on,
/// is applying their events in order.
pub proof fn lemma_replayed_is_applied<E: EventSourced>(
    behavior: E,
    seq_no: int,
    records: Seq<(u64, E::Evt)>,
)
    requires
        forall|i: int|
            0 <= i < records.len() ==> (#[trigger] records[i]).0 == (seq_no + i + 1) as u64,
    ensures
        replayed(behavior, records) == applied(behavior, seq_no, evts_of(records)),
    decreases records.len(),
{
    if records.len() > 0 {
        let earlier = records.drop_last();
        assert forall|i: int| 0 <= i < earlier.len() implies (#[trigger] earlier[i]).0 == (seq_no
            + i + 1) as u64 by {
            assert(earlier[i] == records[i]);
        }
        lemma_replayed_is_applied(behavior, seq_no, earlier);
        assert(evts_of(records).drop_last() =~= evts_of(earlier));
        assert(records.last() == records[records.len() - 1]);
    }
}

/// In a contiguous journal, the records from `after + 1` to a sequence
/// number that the journal has not passed are those that follow the first
/// `after` records.
pub proof fn lemma_evts_by_id_is_tail<Evt>(journal: Seq<(u64, Evt)>, after: int, to_seq_no: u64)
    requires
        contiguous(journal),
        journal.len() <= to_seq_no,
        0 <= after < u64::MAX,
    ensures
        evts_by_id(journal, (after + 1) as u64, to_seq_no) == if after <= journal.len() {
            journal.skip(after)
        } else {
            Seq::empty()
        },
    decreases journal.len(),
{
    reveal(Seq::filter);
    let wanted = in_range::<Evt>((after + 1) as u64, to_seq_no);
    if journal.len() > 0 {
        let earlier = journal.drop_last();
        assert forall|i: int| 0 <= i < earlier.len() implies (#[trigger] earlier[i]).0 == i
            + 1 by {
            assert(earlier[i] == journal[i]);
        }
        lemma_evts_by_id_is_tail(earlier, after, to_seq_no);
        assert(journal.last() == journal[journal.len() - 1]);
        assert(wanted(journal.last()) <==> after < journal.len());
        if after < journal.len() {
            assert(earlier.skip(after).push(journal.last()) =~= journal.skip(after));
        } else if after == journal.len() {
            assert(journal.skip(after) =~= Seq::<(u64, Evt)>::empty());
        }
    } else {
        assert(journal.skip(0) =~= journal);
    }
}

/// Whether the stores of an entity hold its history since it was new, with
/// `behavior` as its state then: the entity is in step with its journal, its
/// state is what the events of the journal make of `behavior`, and a
/// snapshot in the snapshot store is the one that the event handler asked
/// for at the sequence number of the snapshot.
pub open spec fn recoverable<E: EventSourced>(behavior: E, world: World<E>) -> bool {
    &&& in_step(world)
    &&& world.entity.behavior == applied(behavior, 0, evts_of(world.journal))
    &&& match world.snapshots.loaded() {
        Some((seq_no, state)) => {
            &&& 1 <= seq_no <= world.journal.len()
            &&& requested(behavior, 0, evts_of(world.journal), seq_no - 1) == Some(state)
        },
        None => true,
    }
}

/// Handling a command keeps the stores of an entity in line with its
/// history.
pub proof fn lemma_handled_recoverable<E: EventSourced>(behavior: E, world: World<E>, cmd: E::Cmd)
    requires
        recoverable(behavior, world),
        handled(world, cmd).journal.len() <= u64::MAX,
    ensures
        recoverable(behavior, handled(world, cmd)),
{
    let next = handled(world, cmd);
    lemma_handled_in_step(world, cmd);
    match reply(world, cmd) {
        Ok(evts) => {
            if evts.len() > 0 {
                let before = evts_of(world.journal);
                let seq_no = world.entity.seq_no as int;
                assert(evts_of(next.journal) =~= before + evts);
                lemma_applied_concat(behavior, 0, before, evts);
                if latest_snapshot(world.entity.behavior, seq_no, evts) is Some {
                    let at = lemma_latest_snapshot_is_last_requested(
                        world.entity.behavior,
                        seq_no,
                        evts,
                    );
                    lemma_requested_in_suffix(behavior, 0, before, evts, at);
                } else {
                    match world.snapshots.loaded() {
                        Some((at, _)) => {
                            assert((before + evts).take(before.len() as int) =~= before);
                            lemma_requested_in_prefix(
                                behavior,
                                0,
                                before + evts,
                                before.len() as int,
                                at - 1,
                            );
                        },
                        None => {},
                    }
                }
            }
        },
        Err(_) => {},
    }
}

/// The stores of an entity that was new with empty stores hold its history,
/// whatever commands it has handled since.
pub proof fn lemma_history_recoverable<E: EventSourced>(
    id: Uuid,
    behavior: E,
    snapshots: Snapshots<E::State>,
    cmds: Seq<E::Cmd>,
)
    requires
        handled_all(initial(id, behavior, snapshots), cmds).journal.len() <= u64::MAX,
    ensures
        recoverable(behavior, handled_all(initial(id, behavior, snapshots), cmds)),
        handled_all(initial(id, behavior, snapshots), cmds).entity.id == id,
    decreases cmds.len(),
{
    let first = initial(id, behavior, snapshots);
    if cmds.len() > 0 {
        let before = handled_all(first, cmds.drop_last());
        lemma_journal_step(before, cmds.last());
        lemma_history_recoverable(id, behavior, snapshots, cmds.drop_last());
        lemma_handled_recoverable(behavior, before, cmds.last());
    } else {
        assert(evts_of(first.journal) =~= Seq::<E::Evt>::empty());
    }
}

proof fn lemma_journal_step<E: EventSourced>(world: World<E>, cmd: E::Cmd)
    ensures
        world.journal.len() <= handled(world, cmd).journal.len(),
        handled(world, cmd).journal.take(world.journal.len() as int) == world.journal,
{
    assert(handled(world, cmd).journal.take(world.journal.len() as int) =~= world.journal);
}

/// Spawning an entity over stores that hold its history arrives at the
/// entity as it was, if the snapshots of its behavior are faithful.
pub proof fn lemma_spawn_reproduces<E: EventSourced>(behavior: E, world: World<E>)
    requires
        recoverable(behavior, world),
        snapshots_faithfully(behavior),
        world.journal.len() <= u64::MAX,
    ensures
        spawned(world.entity.id, behavior, world.snapshots.loaded(), world.journal) == Some(
            world.entity,
        ),
{
    let journal = world.journal;
    let evts = evts_of(journal);
    let last = journal.len() as u64;
    if journal.len() > 0 {
        assert(journal.last() == journal[journal.len() - 1]);
    }
    assert(last_seq_no(journal) == last);
    match world.snapshots.loaded() {
        Some((seq_no, state)) => {
            let after = seq_no as int;
            assert(requested(behavior, 0, evts, after - 1) is Some);
            assert(behavior.restored(state) == applied(behavior, 0, evts.take(after)));
            if seq_no == last {
                assert(evts.take(after) =~= evts);
            } else {
                lemma_evts_by_id_is_tail(journal, after, last);
                let tail = journal.skip(after);
                assert forall|i: int| 0 <= i < tail.len() implies (#[trigger] tail[i]).0 == (after
                    + i + 1) as u64 by {
                    assert(tail[i] == journal[after + i]);
                }
                lemma_replayed_is_applied(behavior.restored(state), after, tail);
                assert(evts_of(tail) =~= evts.skip(after));
                assert(evts.take(after) + evts.skip(after) =~= evts);
                lemma_applied_concat(behavior, 0, evts.take(after), evts.skip(after));
            }
        },
        None => {
            if last > 0 {
                lemma_evts_by_id_is_tail(journal, 0, last);
                assert(journal.skip(0) =~= journal);
                lemma_replayed_is_applied(behavior, 0, journal);
            }
        },
    }
}

/// Spawning is deterministic: two entities spawned with equal behaviors
/// over the same stores have the same state and the same sequence number,
/// or both fail to spawn.
pub proof fn lemma_recovery_deterministic<E: EventSourced>(
    one: Uuid,
    other: Uuid,
    behavior: E,
    snapshot: Option<(u64, E::State)>,
    journal: Seq<(u64, E::Evt)>,
)
    ensures
        match (spawned(one, behavior, snapshot, journal), spawned(other, behavior, snapshot, journal)) {
            (Some(one), Some(other)) => one.behavior == other.behavior && one.seq_no
                == other.seq_no,
            (None, None) => true,
            _ => false,
        },
{
}

/// What the snapshot store keeps has no bearing on the entity or on its
/// journal.
pub proof fn lemma_snapshots_leave_history<E: EventSourced>(
    id: Uuid,
    behavior: E,
    one: Snapshots<E::State>,
    other: Snapshots<E::State>,
    cmds: Seq<E::Cmd>,
)
    ensures
        handled_all(initial(id, behavior, one), cmds).entity == handled_all(
            initial(id, behavior, other),
            cmds,
        ).entity,
        handled_all(initial(id, behavior, one), cmds).journal == handled_all(
            initial(id, behavior, other),
            cmds,
        ).journal,
    decreases cmds.len(),
{
    if cmds.len() > 0 {
        lemma_snapshots_leave_history(id, behavior, one, other, cmds.drop_last());
    }
}

/// Snapshots are transparent: after any commands, spawning the entity anew
/// over a snapshot store that has kept its snapshots arrives at the same
/// entity as spawning it over the store that keeps nothing, which is the
/// entity as it was. This holds of behaviors whose snapshots are faithful.
pub proof fn lemma_snapshot_transparency<E: EventSourced>(id: Uuid, behavior: E, cmds: Seq<E::Cmd>)
    requires
        snapshots_faithfully(behavior),
        handled_all(initial(id, behavior, Snapshots::Noop), cmds).journal.len() <= u64::MAX,
    ensures
        ({
            let plain = handled_all(initial(id, behavior, Snapshots::Noop), cmds);
            let kept = handled_all(initial(id, behavior, Snapshots::Latest(None)), cmds);
            &&& plain.snapshots.loaded() is None
            &&& spawned(id, behavior, kept.snapshots.loaded(), kept.journal) == spawned(
                id,
                behavior,
                plain.snapshots.loaded(),
                plain.journal,
            )
            &&& spawned(id, behavior, kept.snapshots.loaded(), kept.journal) == Some(kept.entity)
            &&& kept.entity == plain.entity
        }),
{
    let plain = handled_all(initial(id, behavior, Snapshots::Noop), cmds);
    let kept = handled_all(initial(id, behavior, Snapshots::Latest(None)), cmds);
    lemma_snapshots_leave_history(id, behavior, Snapshots::Noop, Snapshots::Latest(None), cmds);
    lemma_history_recoverable(id, behavior, Snapshots::Noop, cmds);
    lemma_history_recoverable(id, behavior, Snapshots::Latest(None), cmds);
    lemma_spawn_reproduces(behavior, plain);
    lemma_spawn_reproduces(behavior, kept);
    lemma_noop_keeps_nothing(id, behavior, cmds);
}

proof fn lemma_noop_keeps_nothing<E: EventSourced>(id: Uuid, behavior: E, cmds: Seq<E::Cmd>)
    ensures
        handled_all(initial(id, behavior, Snapshots::Noop), cmds).snapshots == Snapshots::<
            E::State,
        >::Noop,
    decreases cmds.len(),
{
    if cmds.len() > 0 {
        lemma_noop_keeps_nothing(id, behavior, cmds.drop_last());
    }
}

} // verus!
