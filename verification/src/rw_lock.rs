//! The keyed readers/writer lock: shared reads, exclusive writes, and writers
//! that wait for the readers before them to leave.
use crate::mutex::{Mutex, UntilUnlocked, WriteGuard};
use crate::new_map;
use crate::rw_table::{
    lemma_drop_reader_wf, lemma_read_cancel_wf, lemma_read_poll_wf, lemma_unlock_write_wf,
    lemma_write_cancel_wf, lemma_write_poll_wf, Readers, RwTable, WriteStage,
};
use crate::table::{Stage, Waiter};
use crate::Poll;
use std::collections::HashMap;
use std::hash::Hash;
use vstd::prelude::*;
use vstd::std_specs::hash::obeys_key_model;

verus! {

/// The stored form of a reader row.
struct RefCounter<W> {
    count: usize,
    writer: Option<Waiter<W>>,
}

impl<W> View for RefCounter<W> {
    type V = Readers<W>;

    closed spec fn view(&self) -> Readers<W> {
        Readers { count: self.count as nat, writer: self.writer }
    }
}

/// A table of per-key readers/writer locks. `K` names what is locked; `W` is
/// the notifier that a parked party leaves behind and that the caller fires on
/// its behalf.
pub struct RwLock<K, W> {
    mutex: Mutex<K, W>,
    readers: HashMap<K, RefCounter<W>>,
}

impl<K, W> View for RwLock<K, W> {
    type V = RwTable<K, W>;

    closed spec fn view(&self) -> RwTable<K, W> {
        RwTable {
            mutex: self.mutex@,
            readers: Map::new(|k: K| self.readers@.contains_key(k), |k: K| self.readers@[k]@),
        }
    }
}

impl<K: Eq + Hash + Copy, W> RwLock<K, W> {
    /// The key type hashes and compares consistently, and the table is well
    /// formed.
    pub open spec fn wf(&self) -> bool {
        obeys_key_model::<K>() && self@.wf()
    }

    /// A table in which nobody reads, writes or waits.
    pub fn new() -> (lock: Self)
        requires
            obeys_key_model::<K>(),
        ensures
            lock.wf(),
            lock@ == RwTable::<K, W>::empty(),
    {
        let lock = RwLock { mutex: Mutex::new(), readers: new_map() };
        assert(lock@.readers =~= Map::<K, Readers<W>>::empty());
        lock
    }

    /// Starts a read acquire of `key`. Nothing happens to the table until the
    /// operation is polled.
    pub fn read(&self, key: K) -> (op: Read<K>)
        ensures
            op.key() == key,
            op.stage() == Stage::Init,
    {
        Read { wait: self.mutex.until_unlocked(key) }
    }

    /// Starts a write acquire of `key`. Nothing happens to the table until the
    /// operation is polled.
    pub fn write(&self, key: K) -> (op: Write<K>)
        ensures
            op.key() == key,
            op.stage() == WriteStage::Init,
    {
        Write { key, stage: WriteStage::Init }
    }

    /// Whether a fresh ticket can still be drawn.
    pub fn has_ticket(&self) -> (b: bool)
        ensures
            b == (self@.mutex.next < u64::MAX),
    {
        self.mutex.has_ticket()
    }

    /// Whether a writer holds, or writers wait for, `key` right now.
    pub fn is_locked(&self, key: &K) -> (b: bool)
        requires
            self.wf(),
        ensures
            b == self@.mutex.locked(*key),
    {
        self.mutex.is_locked(key)
    }

    /// The number of live read guards of `key`.
    pub fn reader_count(&self, key: &K) -> (n: usize)
        requires
            self.wf(),
        ensures
            n == self@.reader_count(*key),
    {
        match self.readers.get(key) {
            Some(rc) => rc.count,
            None => 0,
        }
    }

    /// Whether `guard` is the live write guard of its key in this table.
    pub fn write_held(&self, guard: &WriteGuard<K>) -> (b: bool)
        requires
            self.wf(),
        ensures
            b == self@.write_held(guard.key(), guard.ticket()),
    {
        let key = guard.key();
        self.mutex.held_by(&key, guard.ticket()) && !self.readers.contains_key(&key)
    }

    /// Gives up a read guard. The last reader of a key removes the reader row
    /// and hands back the notifier of the writer that waited for it, for the
    /// caller to fire.
    pub fn unlock_read(&mut self, guard: ReadGuard<K>) -> (wake: Option<W>)
        requires
            old(self).wf(),
            old(self)@.reader_count(guard.key()) >= 1,
        ensures
            final(self).wf(),
            final(self)@ == old(self)@.drop_reader(guard.key()),
            wake == old(self)@.drop_reader_wake(guard.key()),
    {
        let key = guard.key();
        let found = self.readers.remove(&key);
        let mut rc = found.unwrap();
        let wake = if rc.count == 1 {
            match rc.writer {
                Some(w) => Some(w.notifier),
                None => None,
            }
        } else {
            rc.count = rc.count - 1;
            self.readers.insert(key, rc);
            None
        };
        proof {
            assert(self@.readers =~= old(self)@.drop_reader(key).readers);
            lemma_drop_reader_wf(old(self)@, key);
        }
        wake
    }

    /// Gives up a write guard. The key passes to the party that has waited
    /// longest on the writers' mutex, whose notifier is handed back for the
    /// caller to fire; with nobody waiting, the key becomes idle.
    pub fn unlock_write(&mut self, guard: WriteGuard<K>) -> (wake: Option<W>)
        requires
            old(self).wf(),
            old(self)@.write_held(guard.key(), guard.ticket()),
        ensures
            final(self).wf(),
            final(self)@ == old(self)@.unlock_write(guard.key()),
            wake == old(self)@.mutex.successor(guard.key()),
    {
        let key = guard.key();
        let wake = self.mutex.wake_next(&key);
        proof {
            lemma_unlock_write_wf(old(self)@, key);
        }
        wake
    }

    /// Counts one more reader of `key`.
    fn add_reader(&mut self, key: K)
        requires
            obeys_key_model::<K>(),
            old(self)@.reader_count(key) < usize::MAX,
        ensures
            final(self)@ == old(self)@.add_reader(key),
    {
        match self.readers.remove(&key) {
            Some(mut rc) => {
                rc.count = rc.count + 1;
                self.readers.insert(key, rc);
            },
            None => {
                self.readers.insert(key, RefCounter { count: 1, writer: None });
            },
        }
        assert(self@.readers =~= old(self)@.add_reader(key).readers);
    }

    /// Records the party with `ticket` as the drainer of `key`.
    fn wait_drain(&mut self, key: K, ticket: u64, notifier: W)
        requires
            obeys_key_model::<K>(),
            old(self)@.readers.contains_key(key),
        ensures
            final(self)@ == old(self)@.wait_drain(key, ticket, notifier),
    {
        let found = self.readers.remove(&key);
        let mut rc = found.unwrap();
        rc.writer = Some(Waiter { ticket, notifier });
        self.readers.insert(key, rc);
        assert(self@.readers =~= old(self)@.wait_drain(key, ticket, notifier).readers);
    }

    /// Forgets the drainer of `key`.
    fn stop_drain(&mut self, key: K)
        requires
            obeys_key_model::<K>(),
            old(self)@.readers.contains_key(key),
        ensures
            final(self)@ == old(self)@.stop_drain(key),
    {
        let found = self.readers.remove(&key);
        let mut rc = found.unwrap();
        rc.writer = None;
        self.readers.insert(key, rc);
        assert(self@.readers =~= old(self)@.stop_drain(key).readers);
    }

    /// Whether the party with `ticket` is the drainer of `key`.
    fn draining(&self, key: &K, ticket: u64) -> (b: bool)
        requires
            obeys_key_model::<K>(),
        ensures
            b == self@.draining(*key, ticket),
    {
        match self.readers.get(key) {
            Some(rc) => match &rc.writer {
                Some(w) => w.ticket == ticket,
                None => false,
            },
            None => false,
        }
    }
}

/// One unit of the reader count of a key, from the poll that returned it until
/// it is handed to [`RwLock::unlock_read`].
#[derive(Debug)]
pub struct ReadGuard<K> {
    key: K,
}

impl<K: Copy> ReadGuard<K> {
    /// The key that the guard reads.
    pub closed spec fn spec_key(&self) -> K {
        self.key
    }

    /// The key that the guard reads.
    #[verifier::when_used_as_spec(spec_key)]
    pub fn key(&self) -> (k: K)
        ensures
            k == self.key(),
    {
        self.key
    }
}

/// A read acquire in progress: polled until it yields the guard.
#[derive(Debug)]
pub struct Read<K> {
    wait: UntilUnlocked<K>,
}

impl<K: Eq + Hash + Copy> Read<K> {
    /// The key that is being acquired.
    pub closed spec fn spec_key(&self) -> K {
        self.wait.key()
    }

    /// The key that is being acquired.
    #[verifier::when_used_as_spec(spec_key)]
    pub fn key(&self) -> (k: K)
        ensures
            k == self.key(),
    {
        self.wait.key()
    }

    /// Where the acquire stands.
    pub closed spec fn spec_stage(&self) -> Stage {
        self.wait.stage()
    }

    /// Where the acquire stands.
    #[verifier::when_used_as_spec(spec_stage)]
    pub fn stage(&self) -> (s: Stage)
        ensures
            s == self.stage(),
    {
        self.wait.stage()
    }

    /// One poll. The read first waits for the writers' mutex of its key to be
    /// idle, as [`UntilUnlocked::poll`] does, and in the poll that sees it idle
    /// it is counted as a reader and completes. The result carries, beside the
    /// guard, the notifier of the party to which the mutex was passed on, for
    /// the caller to fire.
    pub fn poll<W>(&mut self, lock: &mut RwLock<K, W>, notifier: W) -> (r: Poll<
        (ReadGuard<K>, Option<W>),
    >)
        requires
            old(lock).wf(),
            old(self).stage() !is Done,
            old(self).stage() is Init ==> old(lock)@.mutex.next < u64::MAX,
            old(lock)@.reader_count(old(self).key()) < usize::MAX,
        ensures
            final(lock).wf(),
            final(lock)@ == old(lock)@.read_poll(old(self).key(), old(self).stage(), notifier),
            final(self).key() == old(self).key(),
            final(self).stage() == old(lock)@.mutex.pass_stage(
                old(self).key(),
                old(self).stage(),
            ),
            match r {
                Poll::Ready((guard, wake)) => {
                    &&& old(lock)@.mutex.pass_ready(old(self).key(), old(self).stage())
                    &&& guard.key() == old(self).key()
                    &&& wake == old(lock)@.mutex.pass_wake(old(self).key(), old(self).stage())
                },
                Poll::Pending => !old(lock)@.mutex.pass_ready(old(self).key(), old(self).stage()),
            },
    {
        let key = self.wait.key();
        proof {
            lemma_read_poll_wf(old(lock)@, key, old(self).stage(), notifier);
        }
        match self.wait.poll(&mut lock.mutex, notifier) {
            Poll::Ready(wake) => {
                lock.add_reader(key);
                Poll::Ready((ReadGuard { key }, wake))
            },
            Poll::Pending => Poll::Pending,
        }
    }

    /// Gives the read up. A parked read leaves the mutex queue; one that was
    /// granted the mutex without having observed it passes the mutex on, and
    /// the notifier of the next party is handed back for the caller to fire.
    pub fn cancel<W>(self, lock: &mut RwLock<K, W>) -> (wake: Option<W>)
        requires
            old(lock).wf(),
        ensures
            final(lock).wf(),
            final(lock)@ == old(lock)@.read_cancel(self.key(), self.stage()),
            wake == old(lock)@.mutex.cancel_wake(self.key(), self.stage()),
    {
        proof {
            lemma_read_cancel_wf(old(lock)@, self.key(), self.stage());
        }
        self.wait.cancel(&mut lock.mutex)
    }
}

/// A write acquire in progress: polled until it yields the guard.
#[derive(Debug)]
pub struct Write<K> {
    key: K,
    stage: WriteStage,
}

impl<K: Eq + Hash + Copy> Write<K> {
    /// The key that is being acquired.
    pub closed spec fn spec_key(&self) -> K {
        self.key
    }

    /// The key that is being acquired.
    #[verifier::when_used_as_spec(spec_key)]
    pub fn key(&self) -> (k: K)
        ensures
            k == self.key(),
    {
        self.key
    }

    /// Where the acquire stands.
    pub closed spec fn spec_stage(&self) -> WriteStage {
        self.stage
    }

    /// Where the acquire stands.
    #[verifier::when_used_as_spec(spec_stage)]
    pub fn stage(&self) -> (s: WriteStage)
        ensures
            s == self.stage(),
    {
        self.stage
    }

    /// The step of a write that has just won the mutex under `ticket`: it
    /// completes if its key has no readers, and parks as their drainer
    /// otherwise.
    fn until_all_readers_dropped<W>(
        &mut self,
        lock: &mut RwLock<K, W>,
        ticket: u64,
        notifier: W,
    ) -> (r: Poll<WriteGuard<K>>)
        requires
            obeys_key_model::<K>(),
        ensures
            final(lock)@ == old(lock)@.drain_poll(old(self).key(), ticket, notifier),
            final(self).key() == old(self).key(),
            final(self).stage() == if old(lock)@.readers.contains_key(old(self).key()) {
                WriteStage::Draining(ticket)
            } else {
                WriteStage::Done
            },
            match r {
                Poll::Ready(guard) => {
                    &&& !old(lock)@.readers.contains_key(old(self).key())
                    &&& guard.key() == old(self).key()
                    &&& guard.ticket() == ticket
                },
                Poll::Pending => old(lock)@.readers.contains_key(old(self).key()),
            },
    {
        if lock.readers.contains_key(&self.key) {
            lock.wait_drain(self.key, ticket, notifier);
            self.stage = WriteStage::Draining(ticket);
            Poll::Pending
        } else {
            self.stage = WriteStage::Done;
            Poll::Ready(WriteGuard::issue(self.key, ticket))
        }
    }

    /// One poll. The write first acquires the writers' mutex of its key, as
    /// [`crate::mutex::WaitForUnlock::poll`] does. In the poll that wins the
    /// mutex it looks at the readers of its key: with none it completes, else
    /// it parks as their drainer, leaving `notifier` with them. A drainer
    /// completes in the first poll that finds the reader row gone.
    pub fn poll<W>(&mut self, lock: &mut RwLock<K, W>, notifier: W) -> (r: Poll<WriteGuard<K>>)
        requires
            old(lock).wf(),
            old(self).stage() !is Done,
            old(self).stage() is Init ==> old(lock)@.mutex.next < u64::MAX,
        ensures
            final(lock).wf(),
            final(lock)@ == old(lock)@.write_poll(old(self).key(), old(self).stage(), notifier),
            final(self).key() == old(self).key(),
            final(self).stage() == old(lock)@.write_stage(old(self).key(), old(self).stage()),
            match r {
                Poll::Ready(guard) => guard.key() == old(self).key() && old(lock)@.write_grant(
                    old(self).key(),
                    old(self).stage(),
                ) == Some(guard.ticket()),
                Poll::Pending => old(lock)@.write_grant(old(self).key(), old(self).stage())
                    is None,
            },
    {
        proof {
            lemma_write_poll_wf(old(lock)@, self.key, self.stage, notifier);
        }
        match self.stage {
            WriteStage::Init => {
                if lock.mutex.is_locked(&self.key) {
                    let ticket = lock.mutex.park(self.key, notifier);
                    self.stage = WriteStage::Queued(ticket);
                    Poll::Pending
                } else {
                    let ticket = lock.mutex.occupy(self.key);
                    self.until_all_readers_dropped(lock, ticket, notifier)
                }
            },
            WriteStage::Queued(ticket) => {
                if lock.mutex.claim(&self.key, ticket) {
                    self.until_all_readers_dropped(lock, ticket, notifier)
                } else {
                    Poll::Pending
                }
            },
            WriteStage::Draining(ticket) => {
                if lock.mutex.held_by(&self.key, ticket) && !lock.readers.contains_key(&self.key) {
                    self.stage = WriteStage::Done;
                    Poll::Ready(WriteGuard::issue(self.key, ticket))
                } else {
                    Poll::Pending
                }
            },
            WriteStage::Done => Poll::Pending,
        }
    }

    /// Gives the write up. A queued write leaves the mutex queue, or passes on
    /// a mutex that it was granted without having observed it. A write that
    /// holds the mutex stops draining and lets the mutex go. The notifier of
    /// the party that now owns the mutex is handed back for the caller to fire.
    pub fn cancel<W>(self, lock: &mut RwLock<K, W>) -> (wake: Option<W>)
        requires
            old(lock).wf(),
        ensures
            final(lock).wf(),
            final(lock)@ == old(lock)@.write_cancel(self.key(), self.stage()),
            wake == old(lock)@.write_cancel_wake(self.key(), self.stage()),
    {
        proof {
            lemma_write_cancel_wf(old(lock)@, self.key, self.stage);
        }
        match self.stage {
            WriteStage::Queued(ticket) => lock.mutex.abandon(&self.key, ticket),
            WriteStage::Draining(ticket) => {
                if lock.draining(&self.key, ticket) {
                    lock.stop_drain(self.key);
                    lock.mutex.wake_next(&self.key)
                } else if lock.mutex.held_by(&self.key, ticket) && !lock.readers.contains_key(
                    &self.key,
                ) {
                    lock.mutex.wake_next(&self.key)
                } else {
                    None
                }
            },
            _ => None,
        }
    }
}

} // verus!
