//! The keyed mutex: exclusive, first come first served, one row per locked key.
use crate::new_map;
use crate::table::{
    lemma_claim_wf, lemma_occupy_wf, lemma_park_wf, lemma_release_wf, lemma_withdraw_wf, position,
    queued, Owner, Row, Stage, Table, Waiter,
};
use crate::Poll;
use std::collections::HashMap;
use std::collections::VecDeque;
use std::hash::Hash;
use vstd::prelude::*;
use vstd::std_specs::hash::obeys_key_model;

verus! {

/// The stored form of a row.
struct Slot<W> {
    owner: Owner,
    queue: VecDeque<Waiter<W>>,
}

impl<W> View for Slot<W> {
    type V = Row<W>;

    closed spec fn view(&self) -> Row<W> {
        Row { owner: self.owner, queue: self.queue@ }
    }
}

/// A table of per-key mutexes. `K` names what is locked; `W` is the notifier
/// that a parked party leaves behind and that the caller fires on its behalf.
pub struct Mutex<K, W> {
    map: HashMap<K, Slot<W>>,
    next: u64,
}

impl<K, W> View for Mutex<K, W> {
    type V = Table<K, W>;

    closed spec fn view(&self) -> Table<K, W> {
        Table {
            rows: Map::new(|k: K| self.map@.contains_key(k), |k: K| self.map@[k]@),
            next: self.next as nat,
        }
    }
}

impl<K: Eq + Hash + Copy, W> Mutex<K, W> {
    /// The key type hashes and compares consistently, and the table is well
    /// formed.
    pub open spec fn wf(&self) -> bool {
        obeys_key_model::<K>() && self@.wf()
    }

    /// A table in which every key is idle.
    pub fn new() -> (m: Self)
        requires
            obeys_key_model::<K>(),
        ensures
            m.wf(),
            m@ == Table::<K, W>::empty(),
    {
        let m = Mutex { map: new_map(), next: 0 };
        assert(m@.rows =~= Map::<K, Row<W>>::empty());
        m
    }

    /// Whether `key` is locked right now.
    pub fn is_locked(&self, key: &K) -> (b: bool)
        requires
            self.wf(),
        ensures
            b == self@.locked(*key),
    {
        self.map.contains_key(key)
    }

    /// Whether a fresh ticket can still be drawn.
    pub fn has_ticket(&self) -> (b: bool)
        ensures
            b == (self@.next < u64::MAX),
    {
        self.next < u64::MAX
    }

    /// Starts an acquire of `key`. Nothing happens to the table until the
    /// operation is polled.
    pub fn lock(&self, key: K) -> (op: WaitForUnlock<K>)
        ensures
            op.key() == key,
            op.stage() == Stage::Init,
    {
        WaitForUnlock { key, stage: Stage::Init }
    }

    /// Starts a wait for `key` to be idle. The wait never makes the caller the
    /// holder, and nothing happens to the table until it is polled.
    pub fn until_unlocked(&self, key: K) -> (op: UntilUnlocked<K>)
        ensures
            op.key() == key,
            op.stage() == Stage::Init,
    {
        UntilUnlocked { key, stage: Stage::Init }
    }

    /// Whether `guard` is the live guard of its key in this table.
    pub fn holds(&self, guard: &WriteGuard<K>) -> (b: bool)
        requires
            self.wf(),
        ensures
            b == self@.held_by(guard.key(), guard.ticket()),
    {
        self.held_by(&guard.key, guard.ticket)
    }

    /// Gives up `guard`. The key passes to the party that has waited longest,
    /// whose notifier is handed back for the caller to fire; with nobody
    /// waiting, the key becomes idle and its row is removed.
    pub fn unlock(&mut self, guard: WriteGuard<K>) -> (wake: Option<W>)
        requires
            old(self).wf(),
            old(self)@.held_by(guard.key(), guard.ticket()),
        ensures
            final(self).wf(),
            final(self)@ == old(self)@.release(guard.key()),
            wake == old(self)@.successor(guard.key()),
    {
        self.wake_next(&guard.key)
    }

    /// Makes the caller the holder of an idle key.
    pub(crate) fn occupy(&mut self, key: K) -> (ticket: u64)
        requires
            old(self).wf(),
            !old(self)@.locked(key),
            old(self)@.next < u64::MAX,
        ensures
            final(self).wf(),
            final(self)@ == old(self)@.occupy(key),
            ticket == old(self)@.next,
    {
        let ticket: u64 = self.next;
        let slot = Slot { owner: Owner::Guard(ticket), queue: VecDeque::new() };
        self.map.insert(key, slot);
        self.next = ticket + 1;
        proof {
            assert(slot@.queue =~= Seq::empty());
            assert(self@.rows =~= old(self)@.occupy(key).rows);
            lemma_occupy_wf(old(self)@, key);
        }
        ticket
    }

    /// Parks the caller at the back of the queue of a locked key.
    pub(crate) fn park(&mut self, key: K, notifier: W) -> (ticket: u64)
        requires
            old(self).wf(),
            old(self)@.locked(key),
            old(self)@.next < u64::MAX,
        ensures
            final(self).wf(),
            final(self)@ == old(self)@.park(key, notifier),
            ticket == old(self)@.next,
    {
        let ticket: u64 = self.next;
        let found = self.map.remove(&key);
        let mut slot = found.unwrap();
        slot.queue.push_back(Waiter { ticket, notifier });
        self.map.insert(key, slot);
        self.next = ticket + 1;
        proof {
            assert(self@.rows =~= old(self)@.park(key, notifier).rows);
            lemma_park_wf(old(self)@, key, notifier);
        }
        ticket
    }

    /// Whether the party with `ticket` holds `key` and knows it.
    pub(crate) fn held_by(&self, key: &K, ticket: u64) -> (b: bool)
        requires
            self.wf(),
        ensures
            b == self@.held_by(*key, ticket),
    {
        match self.map.get(key) {
            Some(slot) => match slot.owner {
                Owner::Guard(t) => t == ticket,
                Owner::Granted(_) => false,
            },
            None => false,
        }
    }

    /// Whether `key` has been handed to the party with `ticket`.
    pub(crate) fn granted_to(&self, key: &K, ticket: u64) -> (b: bool)
        requires
            self.wf(),
        ensures
            b == self@.granted_to(*key, ticket),
    {
        match self.map.get(key) {
            Some(slot) => match slot.owner {
                Owner::Guard(_) => false,
                Owner::Granted(t) => t == ticket,
            },
            None => false,
        }
    }

    /// Lets the party with `ticket` observe that it was granted `key`, if it
    /// was.
    pub(crate) fn claim(&mut self, key: &K, ticket: u64) -> (b: bool)
        requires
            old(self).wf(),
        ensures
            final(self).wf(),
            b == old(self)@.granted_to(*key, ticket),
            final(self)@ == if b {
                old(self)@.claim(*key)
            } else {
                old(self)@
            },
    {
        if !self.granted_to(key, ticket) {
            return false;
        }
        let found = self.map.remove(key);
        let mut slot = found.unwrap();
        slot.owner = Owner::Guard(ticket);
        self.map.insert(*key, slot);
        proof {
            assert(self@.rows =~= old(self)@.claim(*key).rows);
            lemma_claim_wf(old(self)@, *key);
        }
        true
    }

    /// Lets go of a locked key: grants it to the head of the queue and hands
    /// back that party's notifier, or removes the row when nobody waits.
    pub(crate) fn wake_next(&mut self, key: &K) -> (wake: Option<W>)
        requires
            old(self).wf(),
            old(self)@.locked(*key),
        ensures
            final(self).wf(),
            final(self)@ == old(self)@.release(*key),
            wake == old(self)@.successor(*key),
    {
        let found = self.map.remove(key);
        let mut slot = found.unwrap();
        let wake = match slot.queue.pop_front() {
            Some(waiter) => {
                slot.owner = Owner::Granted(waiter.ticket);
                self.map.insert(*key, slot);
                Some(waiter.notifier)
            },
            None => None,
        };
        proof {
            if old(self)@.rows[*key].queue.len() > 0 {
                assert(self@.rows[*key].queue =~= old(self)@.rows[*key].queue.drop_first());
            }
            assert(self@.rows =~= old(self)@.release(*key).rows);
            lemma_release_wf(old(self)@, *key);
        }
        wake
    }

    /// Forgets the party with `ticket` at `key`: a waiter leaves the queue, a
    /// party that was granted the key passes it on.
    pub(crate) fn abandon(&mut self, key: &K, ticket: u64) -> (wake: Option<W>)
        requires
            old(self).wf(),
        ensures
            final(self).wf(),
            final(self)@ == old(self)@.abandon(*key, ticket),
            wake == old(self)@.abandon_successor(*key, ticket),
    {
        if !self.map.contains_key(key) {
            return None;
        }
        let found = self.map.remove(key);
        let mut slot = found.unwrap();
        let ghost queue = slot.queue@;
        let n: usize = slot.queue.len();
        let mut i: usize = 0;
        while i < n && slot.queue[i].ticket != ticket
            invariant
                i <= n,
                n == queue.len(),
                slot.queue@ == queue,
                forall|j: int| 0 <= j < i ==> (#[trigger] queue[j]).ticket != ticket,
            decreases n - i,
        {
            i += 1;
        }
        if i < n {
            slot.queue.remove(i);
            self.map.insert(*key, slot);
            proof {
                assert(queued(queue, ticket));
                assert(position(queue, ticket) == i);
                assert(self@.rows =~= old(self)@.withdraw(*key, ticket).rows);
                lemma_withdraw_wf(old(self)@, *key, ticket);
            }
            None
        } else {
            self.map.insert(*key, slot);
            proof {
                assert(!queued(queue, ticket));
                assert(self.map@ =~= old(self).map@);
                assert(self@.rows =~= old(self)@.rows);
            }
            if self.granted_to(key, ticket) {
                self.wake_next(key)
            } else {
                None
            }
        }
    }
}

/// The exclusive right on one key, from the poll that returned it until it is
/// handed to [`Mutex::unlock`].
#[derive(Debug)]
pub struct WriteGuard<K> {
    key: K,
    ticket: u64,
}

impl<K: Copy> WriteGuard<K> {
    /// The key that the guard locks.
    pub closed spec fn spec_key(&self) -> K {
        self.key
    }

    /// The key that the guard locks.
    #[verifier::when_used_as_spec(spec_key)]
    pub fn key(&self) -> (k: K)
        ensures
            k == self.key(),
    {
        self.key
    }

    /// The ticket under which the guard holds its key.
    pub closed spec fn spec_ticket(&self) -> u64 {
        self.ticket
    }

    /// The ticket under which the guard holds its key.
    #[verifier::when_used_as_spec(spec_ticket)]
    pub fn ticket(&self) -> (t: u64)
        ensures
            t == self.ticket(),
    {
        self.ticket
    }

    pub(crate) fn issue(key: K, ticket: u64) -> (guard: Self)
        ensures
            guard.key() == key,
            guard.ticket() == ticket,
    {
        WriteGuard { key, ticket }
    }
}

/// An acquire in progress: polled until it yields the guard.
#[derive(Debug)]
pub struct WaitForUnlock<K> {
    key: K,
    stage: Stage,
}

impl<K: Eq + Hash + Copy> WaitForUnlock<K> {
    /// The key that is being acquired.
    pub closed spec fn spec_key(&self) -> K {
        self.key
    }

    /// The key that is being acquired.
    #[verifier::when_used_as_spec(spec_key)]
    pub fn key(&self) -> (k: K)
        ensures
            k == self.key(),
    {
        self.key
    }

    /// Where the acquire stands.
    pub closed spec fn spec_stage(&self) -> Stage {
        self.stage
    }

    /// Where the acquire stands.
    #[verifier::when_used_as_spec(spec_stage)]
    pub fn stage(&self) -> (s: Stage)
        ensures
            s == self.stage(),
    {
        self.stage
    }

    /// One poll. The first poll takes an idle key at once, or joins the back
    /// of the queue of a locked one, leaving `notifier` there. A later poll
    /// completes exactly when the key has been handed to this acquire.
    pub fn poll<W>(&mut self, m: &mut Mutex<K, W>, notifier: W) -> (r: Poll<WriteGuard<K>>)
        requires
            old(m).wf(),
            old(self).stage() !is Done,
            old(self).stage() is Init ==> old(m)@.next < u64::MAX,
        ensures
            final(m).wf(),
            final(m)@ == old(m)@.lock_poll(old(self).key(), old(self).stage(), notifier),
            final(self).key() == old(self).key(),
            final(self).stage() == old(m)@.lock_stage(old(self).key(), old(self).stage()),
            match r {
                Poll::Ready(guard) => guard.key() == old(self).key() && old(m)@.lock_grant(
                    old(self).key(),
                    old(self).stage(),
                ) == Some(guard.ticket()),
                Poll::Pending => old(m)@.lock_grant(old(self).key(), old(self).stage()) is None,
            },
    {
        match self.stage {
            Stage::Init => {
                if m.is_locked(&self.key) {
                    let ticket = m.park(self.key, notifier);
                    self.stage = Stage::Parked(ticket);
                    Poll::Pending
                } else {
                    let ticket = m.occupy(self.key);
                    self.stage = Stage::Done;
                    Poll::Ready(WriteGuard { key: self.key, ticket })
                }
            },
            Stage::Parked(ticket) => {
                if m.claim(&self.key, ticket) {
                    self.stage = Stage::Done;
                    Poll::Ready(WriteGuard { key: self.key, ticket })
                } else {
                    Poll::Pending
                }
            },
            Stage::Done => Poll::Pending,
        }
    }

    /// Gives the acquire up. A parked acquire leaves its queue; one that was
    /// granted the key without having observed it passes the key on, and the
    /// notifier of the next party is handed back for the caller to fire.
    pub fn cancel<W>(self, m: &mut Mutex<K, W>) -> (wake: Option<W>)
        requires
            old(m).wf(),
        ensures
            final(m).wf(),
            final(m)@ == old(m)@.cancel(self.key(), self.stage()),
            wake == old(m)@.cancel_wake(self.key(), self.stage()),
    {
        match self.stage {
            Stage::Parked(ticket) => m.abandon(&self.key, ticket),
            _ => None,
        }
    }
}

/// A wait for a key to be idle: polled until the key is seen idle.
#[derive(Debug)]
pub struct UntilUnlocked<K> {
    key: K,
    stage: Stage,
}

impl<K: Eq + Hash + Copy> UntilUnlocked<K> {
    /// The key that is being watched.
    pub closed spec fn spec_key(&self) -> K {
        self.key
    }

    /// The key that is being watched.
    #[verifier::when_used_as_spec(spec_key)]
    pub fn key(&self) -> (k: K)
        ensures
            k == self.key(),
    {
        self.key
    }

    /// Where the wait stands.
    pub closed spec fn spec_stage(&self) -> Stage {
        self.stage
    }

    /// Where the wait stands.
    #[verifier::when_used_as_spec(spec_stage)]
    pub fn stage(&self) -> (s: Stage)
        ensures
            s == self.stage(),
    {
        self.stage
    }

    /// One poll. The first poll completes at once on an idle key, without
    /// creating a row, or joins the back of the queue of a locked one. A later
    /// poll completes exactly when the key has been handed to this wait, and
    /// then passes the key straight on: the result carries the notifier of the
    /// party that now owns it, for the caller to fire.
    pub fn poll<W>(&mut self, m: &mut Mutex<K, W>, notifier: W) -> (r: Poll<Option<W>>)
        requires
            old(m).wf(),
            old(self).stage() !is Done,
            old(self).stage() is Init ==> old(m)@.next < u64::MAX,
        ensures
            final(m).wf(),
            final(m)@ == old(m)@.pass_poll(old(self).key(), old(self).stage(), notifier),
            final(self).key() == old(self).key(),
            final(self).stage() == old(m)@.pass_stage(old(self).key(), old(self).stage()),
            match r {
                Poll::Ready(wake) => old(m)@.pass_ready(old(self).key(), old(self).stage())
                    && wake == old(m)@.pass_wake(old(self).key(), old(self).stage()),
                Poll::Pending => !old(m)@.pass_ready(old(self).key(), old(self).stage()),
            },
    {
        match self.stage {
            Stage::Init => {
                if m.is_locked(&self.key) {
                    let ticket = m.park(self.key, notifier);
                    self.stage = Stage::Parked(ticket);
                    Poll::Pending
                } else {
                    self.stage = Stage::Done;
                    Poll::Ready(None)
                }
            },
            Stage::Parked(ticket) => {
                if m.granted_to(&self.key, ticket) {
                    let wake = m.wake_next(&self.key);
                    self.stage = Stage::Done;
                    Poll::Ready(wake)
                } else {
                    Poll::Pending
                }
            },
            Stage::Done => Poll::Pending,
        }
    }

    /// Gives the wait up. A parked wait leaves its queue; one that was granted
    /// the key without having observed it passes the key on, and the notifier
    /// of the next party is handed back for the caller to fire.
    pub fn cancel<W>(self, m: &mut Mutex<K, W>) -> (wake: Option<W>)
        requires
            old(m).wf(),
        ensures
            final(m).wf(),
            final(m)@ == old(m)@.cancel(self.key(), self.stage()),
            wake == old(m)@.cancel_wake(self.key(), self.stage()),
    {
        match self.stage {
            Stage::Parked(ticket) => m.abandon(&self.key, ticket),
            _ => None,
        }
    }
}

} // verus!
