//! The mathematical model of a keyed readers/writer table and of its steps.
//!
//! Writers exclude one another through a mutex table. Readers are counted per
//! key. A writer that has won the mutex of a key waits, as its only drainer,
//! until the readers of that key are gone; readers stay out of a key for as
//! long as its mutex row exists.
use crate::table::{
    lemma_abandon_wf, lemma_lock_poll_wf, lemma_pass_poll_wf, lemma_release_wf, Stage, Table,
    Waiter,
};
use vstd::prelude::*;

verus! {

/// The readers of one key: how many hold it, and the writer that waits for
/// them to leave.
pub ghost struct Readers<W> {
    pub count: nat,
    pub writer: Option<Waiter<W>>,
}

/// Where a write acquire stands.
#[derive(Clone, Copy, Debug)]
pub enum WriteStage {
    /// Not polled yet.
    Init,
    /// Parked in the mutex queue under this ticket.
    Queued(u64),
    /// Holds the mutex under this ticket and waits for the readers to leave.
    Draining(u64),
    /// Completed: it must not be polled again.
    Done,
}

impl WriteStage {
    /// The same stage, seen as that of the mutex acquire inside the write.
    pub open spec fn locking(self) -> Stage {
        match self {
            WriteStage::Init => Stage::Init,
            WriteStage::Queued(t) => Stage::Parked(t),
            _ => Stage::Done,
        }
    }
}

/// The whole table: the writers' mutex and the reader rows.
#[verifier::reject_recursive_types(K)]
pub ghost struct RwTable<K, W> {
    pub mutex: Table<K, W>,
    pub readers: Map<K, Readers<W>>,
}

impl<K, W> RwTable<K, W> {
    /// The table in which nobody reads, writes or waits.
    pub open spec fn empty() -> RwTable<K, W> {
        RwTable { mutex: Table::empty(), readers: Map::empty() }
    }

    /// The mutex is well formed; a reader row counts at least one reader; a
    /// drainer holds the mutex of its key; and whoever holds the mutex of a key
    /// that has readers is that key's drainer.
    pub open spec fn wf(self) -> bool {
        &&& self.mutex.wf()
        &&& forall|k: K| #[trigger]
            self.readers.contains_key(k) ==> {
                &&& self.readers[k].count >= 1
                &&& (self.readers[k].writer matches Some(w) ==> self.mutex.held_by(k, w.ticket))
                &&& (self.mutex.locked(k) && self.mutex.rows[k].owner is Guard
                    ==> self.readers[k].writer is Some)
            }
    }

    /// The number of live read guards of `key`.
    pub open spec fn reader_count(self, key: K) -> nat {
        if self.readers.contains_key(key) {
            self.readers[key].count
        } else {
            0
        }
    }

    /// True when the party with `ticket` holds the mutex of `key` and waits for
    /// its readers to leave.
    pub open spec fn draining(self, key: K, ticket: u64) -> bool {
        &&& self.readers.contains_key(key)
        &&& self.readers[key].writer matches Some(w)
        &&& w.ticket == ticket
    }

    /// True when the party with `ticket` has `key` to itself: it holds the
    /// mutex and no reader row exists.
    pub open spec fn write_held(self, key: K, ticket: u64) -> bool {
        self.mutex.held_by(key, ticket) && !self.readers.contains_key(key)
    }

    /// One more reader of `key`; the first one creates the row.
    pub open spec fn add_reader(self, key: K) -> RwTable<K, W> {
        RwTable {
            mutex: self.mutex,
            readers: self.readers.insert(
                key,
                if self.readers.contains_key(key) {
                    Readers { count: self.readers[key].count + 1, writer: self.readers[key].writer }
                } else {
                    Readers { count: 1, writer: None }
                },
            ),
        }
    }

    /// One reader of `key` fewer; the last one removes the row.
    pub open spec fn drop_reader(self, key: K) -> RwTable<K, W>
        recommends
            self.reader_count(key) >= 1,
    {
        RwTable {
            mutex: self.mutex,
            readers: if self.readers[key].count == 1 {
                self.readers.remove(key)
            } else {
                self.readers.insert(
                    key,
                    Readers {
                        count: (self.readers[key].count - 1) as nat,
                        writer: self.readers[key].writer,
                    },
                )
            },
        }
    }

    /// The notifier to fire when one reader of `key` leaves: that of the
    /// drainer, if the reader was the last.
    pub open spec fn drop_reader_wake(self, key: K) -> Option<W>
        recommends
            self.reader_count(key) >= 1,
    {
        if self.readers[key].count == 1 {
            match self.readers[key].writer {
                Some(w) => Some(w.notifier),
                None => None,
            }
        } else {
            None
        }
    }

    /// The party with `ticket` starts to wait for the readers of `key`.
    pub open spec fn wait_drain(self, key: K, ticket: u64, notifier: W) -> RwTable<K, W>
        recommends
            self.readers.contains_key(key),
    {
        RwTable {
            mutex: self.mutex,
            readers: self.readers.insert(
                key,
                Readers {
                    count: self.readers[key].count,
                    writer: Some(Waiter { ticket, notifier }),
                },
            ),
        }
    }

    /// Nobody waits for the readers of `key` any more.
    pub open spec fn stop_drain(self, key: K) -> RwTable<K, W>
        recommends
            self.readers.contains_key(key),
    {
        RwTable {
            mutex: self.mutex,
            readers: self.readers.insert(
                key,
                Readers { count: self.readers[key].count, writer: None },
            ),
        }
    }

    /// The table after one poll of a read acquire: the wait for the mutex of
    /// `key` to be idle takes its step, and a completed wait adds a reader.
    pub open spec fn read_poll(self, key: K, stage: Stage, notifier: W) -> RwTable<K, W> {
        let after = RwTable {
            mutex: self.mutex.pass_poll(key, stage, notifier),
            readers: self.readers,
        };
        if self.mutex.pass_ready(key, stage) {
            after.add_reader(key)
        } else {
            after
        }
    }

    /// The table after a write acquire that holds the mutex under `ticket`
    /// looks at the readers of `key`: it parks as drainer if there are any.
    pub open spec fn drain_poll(self, key: K, ticket: u64, notifier: W) -> RwTable<K, W> {
        if self.readers.contains_key(key) {
            self.wait_drain(key, ticket, notifier)
        } else {
            self
        }
    }

    /// The table after one poll of a write acquire: first the mutex acquire
    /// takes its step; as soon as it holds the mutex, the write looks at the
    /// readers; a drainer changes nothing by polling.
    pub open spec fn write_poll(self, key: K, stage: WriteStage, notifier: W) -> RwTable<K, W> {
        match stage {
            WriteStage::Init | WriteStage::Queued(_) => {
                let after = RwTable {
                    mutex: self.mutex.lock_poll(key, stage.locking(), notifier),
                    readers: self.readers,
                };
                match self.mutex.lock_grant(key, stage.locking()) {
                    Some(t) => after.drain_poll(key, t, notifier),
                    None => after,
                }
            },
            _ => self,
        }
    }

    /// The ticket under which that poll completes the write, if it does.
    pub open spec fn write_grant(self, key: K, stage: WriteStage) -> Option<u64> {
        match stage {
            WriteStage::Init | WriteStage::Queued(_) => if self.readers.contains_key(key) {
                None
            } else {
                self.mutex.lock_grant(key, stage.locking())
            },
            WriteStage::Draining(t) => if self.write_held(key, t) {
                Some(t)
            } else {
                None
            },
            WriteStage::Done => None,
        }
    }

    /// Where the write stands after that poll.
    pub open spec fn write_stage(self, key: K, stage: WriteStage) -> WriteStage {
        match stage {
            WriteStage::Init | WriteStage::Queued(_) => match self.mutex.lock_grant(
                key,
                stage.locking(),
            ) {
                Some(t) => if self.readers.contains_key(key) {
                    WriteStage::Draining(t)
                } else {
                    WriteStage::Done
                },
                None => match self.mutex.lock_stage(key, stage.locking()) {
                    Stage::Parked(t) => WriteStage::Queued(t),
                    _ => stage,
                },
            },
            WriteStage::Draining(t) => if self.write_held(key, t) {
                WriteStage::Done
            } else {
                stage
            },
            WriteStage::Done => stage,
        }
    }

    /// The table after a read acquire is given up.
    pub open spec fn read_cancel(self, key: K, stage: Stage) -> RwTable<K, W> {
        RwTable { mutex: self.mutex.cancel(key, stage), readers: self.readers }
    }

    /// The table after a write acquire is given up: a queued one leaves the
    /// mutex queue; one that holds the mutex, as drainer or with the key to
    /// itself, stops draining and lets the mutex go.
    pub open spec fn write_cancel(self, key: K, stage: WriteStage) -> RwTable<K, W> {
        match stage {
            WriteStage::Queued(t) => RwTable {
                mutex: self.mutex.abandon(key, t),
                readers: self.readers,
            },
            WriteStage::Draining(t) => if self.draining(key, t) {
                RwTable { mutex: self.mutex.release(key), readers: self.stop_drain(key).readers }
            } else if self.write_held(key, t) {
                RwTable { mutex: self.mutex.release(key), readers: self.readers }
            } else {
                self
            },
            _ => self,
        }
    }

    /// The notifier to fire after that write acquire is given up.
    pub open spec fn write_cancel_wake(self, key: K, stage: WriteStage) -> Option<W> {
        match stage {
            WriteStage::Queued(t) => self.mutex.abandon_successor(key, t),
            WriteStage::Draining(t) => if self.draining(key, t) || self.write_held(key, t) {
                self.mutex.successor(key)
            } else {
                None
            },
            _ => None,
        }
    }

    /// The table after a write guard is given up.
    pub open spec fn unlock_write(self, key: K) -> RwTable<K, W> {
        RwTable { mutex: self.mutex.release(key), readers: self.readers }
    }
}

/// A poll of a read acquire keeps the table well formed.
pub proof fn lemma_read_poll_wf<K, W>(s: RwTable<K, W>, key: K, stage: Stage, notifier: W)
    requires
        s.wf(),
        stage is Init ==> s.mutex.next < u64::MAX,
    ensures
        s.read_poll(key, stage, notifier).wf(),
{
    let u = s.read_poll(key, stage, notifier);
    lemma_pass_poll_wf(s.mutex, key, stage, notifier);
    assert forall|k: K| #[trigger] u.readers.contains_key(k) implies {
        &&& u.readers[k].count >= 1
        &&& (u.readers[k].writer matches Some(w) ==> u.mutex.held_by(k, w.ticket))
        &&& (u.mutex.locked(k) && u.mutex.rows[k].owner is Guard ==> u.readers[k].writer is Some)
    } by {
        if k != key || s.readers.contains_key(k) {
            assert(s.readers.contains_key(k));
        }
    }
}

/// A poll of a write acquire keeps the table well formed.
pub proof fn lemma_write_poll_wf<K, W>(s: RwTable<K, W>, key: K, stage: WriteStage, notifier: W)
    requires
        s.wf(),
        stage is Init ==> s.mutex.next < u64::MAX,
    ensures
        s.write_poll(key, stage, notifier).wf(),
{
    let u = s.write_poll(key, stage, notifier);
    lemma_lock_poll_wf(s.mutex, key, stage.locking(), notifier);
    assert forall|k: K| #[trigger] u.readers.contains_key(k) implies {
        &&& u.readers[k].count >= 1
        &&& (u.readers[k].writer matches Some(w) ==> u.mutex.held_by(k, w.ticket))
        &&& (u.mutex.locked(k) && u.mutex.rows[k].owner is Guard ==> u.readers[k].writer is Some)
    } by {
        assert(s.readers.contains_key(k));
    }
}

/// A reader that leaves keeps the table well formed.
pub proof fn lemma_drop_reader_wf<K, W>(s: RwTable<K, W>, key: K)
    requires
        s.wf(),
        s.reader_count(key) >= 1,
    ensures
        s.drop_reader(key).wf(),
{
    let u = s.drop_reader(key);
    assert(s.readers.contains_key(key));
    assert forall|k: K| #[trigger] u.readers.contains_key(k) implies {
        &&& u.readers[k].count >= 1
        &&& (u.readers[k].writer matches Some(w) ==> u.mutex.held_by(k, w.ticket))
        &&& (u.mutex.locked(k) && u.mutex.rows[k].owner is Guard ==> u.readers[k].writer is Some)
    } by {
        assert(s.readers.contains_key(k));
    }
}

/// A writer that lets go of a key it has to itself keeps the table well
/// formed.
pub proof fn lemma_unlock_write_wf<K, W>(s: RwTable<K, W>, key: K)
    requires
        s.wf(),
        s.mutex.locked(key),
        !s.readers.contains_key(key),
    ensures
        s.unlock_write(key).wf(),
{
    let u = s.unlock_write(key);
    lemma_release_wf(s.mutex, key);
    assert forall|k: K| #[trigger] u.readers.contains_key(k) implies {
        &&& u.readers[k].count >= 1
        &&& (u.readers[k].writer matches Some(w) ==> u.mutex.held_by(k, w.ticket))
        &&& (u.mutex.locked(k) && u.mutex.rows[k].owner is Guard ==> u.readers[k].writer is Some)
    } by {
        assert(s.readers.contains_key(k));
    }
}

/// Giving up a read acquire keeps the table well formed.
pub proof fn lemma_read_cancel_wf<K, W>(s: RwTable<K, W>, key: K, stage: Stage)
    requires
        s.wf(),
    ensures
        s.read_cancel(key, stage).wf(),
{
    let u = s.read_cancel(key, stage);
    if let Stage::Parked(ticket) = stage {
        lemma_abandon_wf(s.mutex, key, ticket);
    }
    assert forall|k: K| #[trigger] u.readers.contains_key(k) implies {
        &&& u.readers[k].count >= 1
        &&& (u.readers[k].writer matches Some(w) ==> u.mutex.held_by(k, w.ticket))
        &&& (u.mutex.locked(k) && u.mutex.rows[k].owner is Guard ==> u.readers[k].writer is Some)
    } by {
        assert(s.readers.contains_key(k));
    }
}

/// Giving up a write acquire keeps the table well formed.
pub proof fn lemma_write_cancel_wf<K, W>(s: RwTable<K, W>, key: K, stage: WriteStage)
    requires
        s.wf(),
    ensures
        s.write_cancel(key, stage).wf(),
{
    let u = s.write_cancel(key, stage);
    match stage {
        WriteStage::Queued(ticket) => {
            lemma_abandon_wf(s.mutex, key, ticket);
        },
        WriteStage::Draining(ticket) => {
            if s.draining(key, ticket) || s.write_held(key, ticket) {
                lemma_release_wf(s.mutex, key);
            }
        },
        _ => {},
    }
    assert forall|k: K| #[trigger] u.readers.contains_key(k) implies {
        &&& u.readers[k].count >= 1
        &&& (u.readers[k].writer matches Some(w) ==> u.mutex.held_by(k, w.ticket))
        &&& (u.mutex.locked(k) && u.mutex.rows[k].owner is Guard ==> u.readers[k].writer is Some)
    } by {
        assert(s.readers.contains_key(k));
    }
}

} // verus!
