//! What holds of every table that the steps can reach.
//!
//! Each law is stated over the model, so it holds of every run of the
//! executable operations, whose contracts say which step each of them takes.
use crate::rw_table::{RwTable, WriteStage};
use crate::table::{ahead, position, queued, Stage, Table};
use vstd::prelude::*;

verus! {

/// Mutual exclusion: two parties that hold the same key are one party.
pub proof fn lemma_one_holder<K, W>(t: Table<K, W>, key: K, a: u64, b: u64)
    requires
        t.held_by(key, a),
        t.held_by(key, b),
    ensures
        a == b,
{
}

/// A poll of an acquire makes its party the holder only of a key that nobody
/// held, and from then on that party holds it.
pub proof fn lemma_acquire_excludes<K, W>(
    t: Table<K, W>,
    key: K,
    stage: Stage,
    notifier: W,
    other: u64,
)
    requires
        t.wf(),
        stage is Init ==> t.next < u64::MAX,
        t.lock_grant(key, stage) is Some,
    ensures
        !t.held_by(key, other),
        t.lock_poll(key, stage, notifier).held_by(key, t.lock_grant(key, stage)->0),
{
}

/// A holder stays the holder through every step but its own release: polls
/// and cancellations of any operation on any key, and releases of other keys.
pub proof fn lemma_holder_stays<K, W>(
    t: Table<K, W>,
    key: K,
    ticket: u64,
    other: K,
    stage: Stage,
    notifier: W,
)
    requires
        t.wf(),
        t.held_by(key, ticket),
    ensures
        t.lock_poll(other, stage, notifier).held_by(key, ticket),
        t.pass_poll(other, stage, notifier).held_by(key, ticket),
        t.cancel(other, stage).held_by(key, ticket),
        other != key && t.locked(other) ==> t.release(other).held_by(key, ticket),
{
}

/// First come, first served: a party that parks stands behind every party
/// that already waits for the key.
pub proof fn lemma_park_joins_at_back<K, W>(t: Table<K, W>, key: K, notifier: W, earlier: u64)
    requires
        t.wf(),
        t.next < u64::MAX,
        t.waiting(key, earlier),
    ensures
        ahead(t.park(key, notifier).rows[key].queue, earlier, t.next as u64),
{
    let q = t.rows[key].queue;
    let r = t.park(key, notifier).rows[key].queue;
    let i = position(q, earlier);
    assert(r[i] == q[i]);
    assert(r[q.len() as int].ticket == t.next as u64);
}

/// First come, first served: when a key is released while `a` waits ahead of
/// `b`, the key does not go to `b`; either it goes to `a`, or `a` still waits
/// ahead of `b`.
pub proof fn lemma_release_in_order<K, W>(t: Table<K, W>, key: K, a: u64, b: u64)
    requires
        t.wf(),
        t.locked(key),
        ahead(t.rows[key].queue, a, b),
    ensures
        !t.release(key).granted_to(key, b),
        t.release(key).granted_to(key, a) || ahead(t.release(key).rows[key].queue, a, b),
        t.release(key).waiting(key, b),
{
    let q = t.rows[key].queue;
    let r = t.release(key).rows[key].queue;
    let (i, j) = choose|i: int, j: int|
        0 <= i < j < q.len() && (#[trigger] q[i]).ticket == a && (#[trigger] q[j]).ticket == b;
    assert(r[j - 1] == q[j]);
    if i > 0 {
        assert(r[i - 1] == q[i]);
    }
}

/// First come, first served: a party that gives up does not change the order
/// of the others.
pub proof fn lemma_withdraw_keeps_order<K, W>(t: Table<K, W>, key: K, a: u64, b: u64, gone: u64)
    requires
        t.wf(),
        t.waiting(key, gone),
        ahead(t.rows[key].queue, a, b),
        gone != a,
        gone != b,
    ensures
        ahead(t.withdraw(key, gone).rows[key].queue, a, b),
{
    let q = t.rows[key].queue;
    let r = t.withdraw(key, gone).rows[key].queue;
    let p = position(q, gone);
    let (i, j) = choose|i: int, j: int|
        0 <= i < j < q.len() && (#[trigger] q[i]).ticket == a && (#[trigger] q[j]).ticket == b;
    let i2 = if i < p {
        i
    } else {
        i - 1
    };
    let j2 = if j < p {
        j
    } else {
        j - 1
    };
    assert(r[i2] == q[i]);
    assert(r[j2] == q[j]);
}

/// First come, first served: a newcomer and a party that observes its grant
/// do not change the order of those who wait.
pub proof fn lemma_order_stays<K, W>(t: Table<K, W>, key: K, a: u64, b: u64, notifier: W)
    requires
        t.wf(),
        t.locked(key),
        ahead(t.rows[key].queue, a, b),
    ensures
        ahead(t.park(key, notifier).rows[key].queue, a, b),
        ahead(t.claim(key).rows[key].queue, a, b),
{
    let q = t.rows[key].queue;
    let r = t.park(key, notifier).rows[key].queue;
    let (i, j) = choose|i: int, j: int|
        0 <= i < j < q.len() && (#[trigger] q[i]).ticket == a && (#[trigger] q[j]).ticket == b;
    assert(r[i] == q[i]);
    assert(r[j] == q[j]);
}

/// No leaks: a key has a row exactly while some party has a stake in it.
pub proof fn lemma_row_iff_party<K, W>(t: Table<K, W>, key: K)
    ensures
        t.locked(key) <==> exists|ticket: u64| t.parties(key).contains(ticket),
        !t.locked(key) <==> t.parties(key) =~= Set::<u64>::empty(),
{
    if t.locked(key) {
        assert(t.parties(key).contains(t.rows[key].owner.ticket()));
    }
}

/// No leaks: the owner that lets go has no stake left, and nobody else's stake
/// changes.
pub proof fn lemma_release_leaves<K, W>(t: Table<K, W>, key: K)
    requires
        t.wf(),
        t.locked(key),
    ensures
        t.release(key).parties(key) =~= t.parties(key).remove(t.rows[key].owner.ticket()),
{
    let q = t.rows[key].queue;
    let u = t.release(key);
    let owner = t.rows[key].owner.ticket();
    assert forall|x: u64| u.parties(key).contains(x) <==> t.parties(key).remove(owner).contains(
        x,
    ) by {
        if q.len() > 0 {
            let r = u.rows[key].queue;
            assert(forall|i: int| 0 <= i < r.len() ==> #[trigger] r[i] == q[i + 1]);
            if queued(r, x) {
                let i = position(r, x);
                assert(q[i + 1].ticket == x);
            }
            if queued(q, x) {
                let i = position(q, x);
                if i > 0 {
                    assert(r[i - 1].ticket == x);
                }
            }
        }
    }
}

/// No leaks: a party that gives up before it holds its key has no stake left,
/// and nobody else's stake changes.
pub proof fn lemma_abandon_leaves<K, W>(t: Table<K, W>, key: K, ticket: u64)
    requires
        t.wf(),
        !t.held_by(key, ticket),
    ensures
        t.abandon(key, ticket).parties(key) =~= t.parties(key).remove(ticket),
{
    let u = t.abandon(key, ticket);
    if t.waiting(key, ticket) {
        let q = t.rows[key].queue;
        let r = u.rows[key].queue;
        let p = position(q, ticket);
        assert(forall|i: int| 0 <= i < p ==> #[trigger] r[i] == q[i]);
        assert(forall|i: int| p <= i < r.len() ==> #[trigger] r[i] == q[i + 1]);
        assert forall|x: u64| u.parties(key).contains(x) <==> t.parties(key).remove(
            ticket,
        ).contains(x) by {
            if queued(r, x) {
                let i = position(r, x);
                if i < p {
                    assert(q[i].ticket == x);
                } else {
                    assert(q[i + 1].ticket == x);
                }
            }
            if queued(q, x) && x != ticket {
                let i = position(q, x);
                if i < p {
                    assert(r[i].ticket == x);
                } else {
                    assert(r[i - 1].ticket == x);
                }
            }
        }
    } else if t.granted_to(key, ticket) {
        lemma_release_leaves(t, key);
    } else {
        assert(u.parties(key) =~= t.parties(key).remove(ticket));
    }
}

/// No leaks: a step that admits a party adds the stake of that party's fresh
/// ticket and no other, and observing a grant changes no stake.
pub proof fn lemma_admit_adds_one<K, W>(t: Table<K, W>, key: K, notifier: W)
    requires
        t.wf(),
        t.next < u64::MAX,
    ensures
        !t.locked(key) ==> t.occupy(key).parties(key) =~= set![t.next as u64],
        t.locked(key) ==> t.park(key, notifier).parties(key) =~= t.parties(key).insert(
            t.next as u64,
        ),
        t.locked(key) ==> t.claim(key).parties(key) =~= t.parties(key),
{
    if t.locked(key) {
        let q = t.rows[key].queue;
        let u = t.park(key, notifier);
        let r = u.rows[key].queue;
        assert(forall|i: int| 0 <= i < q.len() ==> #[trigger] r[i] == q[i]);
        assert forall|x: u64| u.parties(key).contains(x) <==> t.parties(key).insert(
            t.next as u64,
        ).contains(x) by {
            if queued(r, x) {
                let i = position(r, x);
                if i < q.len() {
                    assert(q[i].ticket == x);
                }
            }
            if queued(q, x) {
                let i = position(q, x);
                assert(r[i].ticket == x);
            }
            if x == t.next as u64 {
                assert(r[q.len() as int].ticket == x);
            }
        }
    } else {
        let u = t.occupy(key);
        assert forall|x: u64| u.parties(key).contains(x) <==> x == t.next as u64 by {
            if queued(u.rows[key].queue, x) {
                let i = position(u.rows[key].queue, x);
            }
        }
    }
}

/// Round trip: an acquire of an idle key completes at its first poll, and
/// giving the guard up leaves every row as it was before.
pub proof fn lemma_round_trip<K, W>(t: Table<K, W>, key: K, notifier: W)
    requires
        t.wf(),
        !t.locked(key),
        t.next < u64::MAX,
    ensures
        t.lock_grant(key, Stage::Init) == Some(t.next as u64),
        t.lock_poll(key, Stage::Init, notifier).release(key).rows =~= t.rows,
        t.lock_poll(key, Stage::Init, notifier).successor(key) is None,
{
}

/// Keys are independent: no step on one key touches the row of another.
pub proof fn lemma_other_keys_untouched<K, W>(
    t: Table<K, W>,
    key: K,
    other: K,
    stage: Stage,
    notifier: W,
)
    requires
        other != key,
    ensures
        t.lock_poll(key, stage, notifier).rows.get(other) == t.rows.get(other),
        t.pass_poll(key, stage, notifier).rows.get(other) == t.rows.get(other),
        t.cancel(key, stage).rows.get(other) == t.rows.get(other),
        t.release(key).rows.get(other) == t.rows.get(other),
{
}

/// Readers and writers exclude each other: a party that has a key to itself
/// shares it with no reader, a key with readers is held by no writer, and
/// whoever holds the writers' mutex of a key with readers is only draining.
pub proof fn lemma_readers_exclude_writer<K, W>(s: RwTable<K, W>, key: K, ticket: u64)
    requires
        s.wf(),
    ensures
        s.write_held(key, ticket) ==> s.reader_count(key) == 0,
        s.reader_count(key) > 0 ==> !s.write_held(key, ticket),
        s.reader_count(key) > 0 && s.mutex.held_by(key, ticket) ==> s.draining(key, ticket),
{
    if s.reader_count(key) > 0 {
        assert(s.readers.contains_key(key));
    }
}

/// A poll completes a write only when it leaves the writer with the key to
/// itself: no reader is counted, and no other writer holds the key.
pub proof fn lemma_write_grant_is_exclusive<K, W>(
    s: RwTable<K, W>,
    key: K,
    stage: WriteStage,
    notifier: W,
    other: u64,
)
    requires
        s.wf(),
        stage is Init ==> s.mutex.next < u64::MAX,
        s.write_grant(key, stage) is Some,
    ensures
        s.write_poll(key, stage, notifier).write_held(key, s.write_grant(key, stage)->0),
        s.write_poll(key, stage, notifier).reader_count(key) == 0,
        other != s.write_grant(key, stage)->0 ==> !s.write_poll(key, stage, notifier).write_held(
            key,
            other,
        ),
{
}

/// While a writer holds the mutex of a key, with the key to itself or still
/// draining, no poll completes a read of that key or changes the reader rows.
pub proof fn lemma_writer_keeps_readers_out<K, W>(
    s: RwTable<K, W>,
    key: K,
    ticket: u64,
    stage: Stage,
    notifier: W,
)
    requires
        s.wf(),
        s.mutex.held_by(key, ticket),
    ensures
        !s.mutex.pass_ready(key, stage),
        s.read_poll(key, stage, notifier).readers == s.readers,
{
}

/// A poll that completes a read counts exactly one more reader of its key and
/// leaves no writer holding that key.
pub proof fn lemma_read_grant_is_shared<K, W>(
    s: RwTable<K, W>,
    key: K,
    stage: Stage,
    notifier: W,
    ticket: u64,
)
    requires
        s.wf(),
        s.mutex.pass_ready(key, stage),
    ensures
        s.read_poll(key, stage, notifier).reader_count(key) == s.reader_count(key) + 1,
        !s.read_poll(key, stage, notifier).mutex.held_by(key, ticket),
{
}

/// A writer keeps a key to itself through every step but its own release:
/// polls and cancellations of other operations, and releases of other keys.
pub proof fn lemma_writer_stays<K, W>(
    s: RwTable<K, W>,
    key: K,
    ticket: u64,
    other: K,
    stage: Stage,
    write_stage: WriteStage,
    notifier: W,
)
    requires
        s.wf(),
        s.write_held(key, ticket),
    ensures
        s.read_poll(other, stage, notifier).write_held(key, ticket),
        s.write_poll(other, write_stage, notifier).write_held(key, ticket),
        s.read_cancel(other, stage).write_held(key, ticket),
        !(other == key && write_stage == WriteStage::Draining(ticket)) ==> s.write_cancel(
            other,
            write_stage,
        ).write_held(key, ticket),
        s.reader_count(other) >= 1 ==> s.drop_reader(other).write_held(key, ticket),
        other != key && s.mutex.locked(other) ==> s.unlock_write(other).write_held(key, ticket),
{
    if s.reader_count(other) >= 1 {
        assert(s.readers.contains_key(other));
    }
}

/// The reader count of a key is the number of read guards handed out for it
/// and not yet given up: a completed read adds one, a read guard given up
/// takes one away, and no other step changes it.
pub proof fn lemma_reader_count_tracks_guards<K, W>(
    s: RwTable<K, W>,
    key: K,
    other: K,
    stage: Stage,
    write_stage: WriteStage,
    notifier: W,
)
    requires
        s.wf(),
    ensures
        s.read_poll(other, stage, notifier).reader_count(key) == s.reader_count(key) + (if other
            == key && s.mutex.pass_ready(other, stage) {
            1nat
        } else {
            0nat
        }),
        s.reader_count(other) >= 1 ==> s.drop_reader(other).reader_count(key) == s.reader_count(
            key,
        ) - (if other == key {
            1nat
        } else {
            0nat
        }),
        s.write_poll(other, write_stage, notifier).reader_count(key) == s.reader_count(key),
        s.read_cancel(other, stage).reader_count(key) == s.reader_count(key),
        s.write_cancel(other, write_stage).reader_count(key) == s.reader_count(key),
        s.unlock_write(other).reader_count(key) == s.reader_count(key),
{
    if s.reader_count(other) >= 1 {
        assert(s.readers.contains_key(other));
    }
}

/// The last reader to leave hands the key to the writer that drains it: the
/// drainer's notifier is the one to fire, and the drainer's next poll
/// completes.
pub proof fn lemma_last_reader_admits_drainer<K, W>(s: RwTable<K, W>, key: K, ticket: u64)
    requires
        s.wf(),
        s.draining(key, ticket),
        s.reader_count(key) == 1,
    ensures
        s.drop_reader_wake(key) == Some(s.readers[key].writer->0.notifier),
        s.drop_reader(key).write_held(key, ticket),
        s.drop_reader(key).write_grant(key, WriteStage::Draining(ticket)) == Some(ticket),
{
}

/// No leaks: a key has a reader row exactly while a read guard of it is live.
pub proof fn lemma_reader_row_iff_reader<K, W>(s: RwTable<K, W>, key: K)
    requires
        s.wf(),
    ensures
        s.readers.contains_key(key) <==> s.reader_count(key) > 0,
{
    if s.readers.contains_key(key) {
        assert(s.readers[key].count >= 1);
    }
}

} // verus!
