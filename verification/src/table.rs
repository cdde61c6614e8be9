//! The mathematical model of a keyed mutex table and of its steps.
//!
//! A key with a row is locked; a key without one is idle. The row names the
//! owner of the key and holds, in arrival order, the parties that wait for it.
//! Every party is named by a ticket, drawn from a counter that only grows.
use vstd::prelude::*;

verus! {

/// A parked party: the ticket that names it and the notifier that re-polls it.
pub struct Waiter<W> {
    pub ticket: u64,
    pub notifier: W,
}

/// Who owns a locked key.
#[derive(Clone, Copy, Debug)]
pub enum Owner {
    /// The party with this ticket holds the key and knows it.
    Guard(u64),
    /// The key was handed to the party with this ticket, which has not yet
    /// polled to observe the grant.
    Granted(u64),
}

impl Owner {
    /// The ticket of the owning party, whatever its phase.
    pub open spec fn ticket(self) -> u64 {
        match self {
            Owner::Guard(t) => t,
            Owner::Granted(t) => t,
        }
    }
}

/// Where a suspendable operation stands.
#[derive(Clone, Copy, Debug)]
pub enum Stage {
    /// Not polled yet: the table knows nothing of it.
    Init,
    /// Parked in a queue under this ticket.
    Parked(u64),
    /// Completed: it must not be polled again.
    Done,
}

/// The state of one locked key.
pub ghost struct Row<W> {
    pub owner: Owner,
    pub queue: Seq<Waiter<W>>,
}

/// True when some waiter of `queue` carries `ticket`.
pub open spec fn queued<W>(queue: Seq<Waiter<W>>, ticket: u64) -> bool {
    exists|i: int| 0 <= i < queue.len() && (#[trigger] queue[i]).ticket == ticket
}

/// The place in `queue` of the waiter that carries `ticket`.
pub open spec fn position<W>(queue: Seq<Waiter<W>>, ticket: u64) -> int
    recommends
        queued(queue, ticket),
{
    choose|i: int| 0 <= i < queue.len() && (#[trigger] queue[i]).ticket == ticket
}

/// True when the waiter with ticket `a` stands in `queue` ahead of the one
/// with ticket `b`.
pub open spec fn ahead<W>(queue: Seq<Waiter<W>>, a: u64, b: u64) -> bool {
    exists|i: int, j: int|
        0 <= i < j < queue.len() && (#[trigger] queue[i]).ticket == a && (
        #[trigger] queue[j]).ticket == b
}

impl<W> Row<W> {
    /// Tickets are below `next`, no two waiters share one, and the owner does
    /// not wait in its own queue.
    pub open spec fn wf(self, next: nat) -> bool {
        &&& self.owner.ticket() < next
        &&& !queued(self.queue, self.owner.ticket())
        &&& forall|i: int| 0 <= i < self.queue.len() ==> (#[trigger] self.queue[i]).ticket < next
        &&& forall|i: int, j: int|
            0 <= i < j < self.queue.len() ==> (#[trigger] self.queue[i]).ticket != (
            #[trigger] self.queue[j]).ticket
    }

    /// The row after its owner lets go and the head of a non-empty queue is
    /// granted the key.
    pub open spec fn handed_on(self) -> Row<W>
        recommends
            self.queue.len() > 0,
    {
        Row { owner: Owner::Granted(self.queue[0].ticket), queue: self.queue.drop_first() }
    }
}

/// The whole table: the rows of the locked keys and the next free ticket.
#[verifier::reject_recursive_types(K)]
pub ghost struct Table<K, W> {
    pub rows: Map<K, Row<W>>,
    pub next: nat,
}

impl<K, W> Table<K, W> {
    /// The table in which every key is idle.
    pub open spec fn empty() -> Table<K, W> {
        Table { rows: Map::empty(), next: 0 }
    }

    /// Every row is well formed.
    pub open spec fn wf(self) -> bool {
        forall|k: K| #[trigger] self.rows.contains_key(k) ==> self.rows[k].wf(self.next)
    }

    /// True when `key` is locked.
    pub open spec fn locked(self, key: K) -> bool {
        self.rows.contains_key(key)
    }

    /// True when the party with `ticket` holds `key` and knows it.
    pub open spec fn held_by(self, key: K, ticket: u64) -> bool {
        self.rows.contains_key(key) && self.rows[key].owner == Owner::Guard(ticket)
    }

    /// True when `key` has been handed to the party with `ticket`, which has
    /// yet to observe it.
    pub open spec fn granted_to(self, key: K, ticket: u64) -> bool {
        self.rows.contains_key(key) && self.rows[key].owner == Owner::Granted(ticket)
    }

    /// True when the party with `ticket` waits in the queue of `key`.
    pub open spec fn waiting(self, key: K, ticket: u64) -> bool {
        self.rows.contains_key(key) && queued(self.rows[key].queue, ticket)
    }

    /// The tickets with a stake in `key`: its owner and its waiters.
    pub open spec fn parties(self, key: K) -> Set<u64> {
        Set::new(
            |t: u64|
                self.rows.contains_key(key) && (self.rows[key].owner.ticket() == t || queued(
                    self.rows[key].queue,
                    t,
                )),
        )
    }

    /// An idle key becomes held by a fresh ticket, with nobody waiting.
    pub open spec fn occupy(self, key: K) -> Table<K, W>
        recommends
            !self.locked(key),
            self.next <= u64::MAX,
    {
        Table {
            rows: self.rows.insert(
                key,
                Row { owner: Owner::Guard(self.next as u64), queue: Seq::empty() },
            ),
            next: self.next + 1,
        }
    }

    /// A fresh ticket joins the back of the queue of a locked key.
    pub open spec fn park(self, key: K, notifier: W) -> Table<K, W>
        recommends
            self.locked(key),
            self.next <= u64::MAX,
    {
        Table {
            rows: self.rows.insert(
                key,
                Row {
                    owner: self.rows[key].owner,
                    queue: self.rows[key].queue.push(
                        Waiter { ticket: self.next as u64, notifier },
                    ),
                },
            ),
            next: self.next + 1,
        }
    }

    /// The party that was granted `key` observes the grant and holds the key.
    pub open spec fn claim(self, key: K) -> Table<K, W>
        recommends
            self.locked(key),
    {
        Table {
            rows: self.rows.insert(
                key,
                Row {
                    owner: Owner::Guard(self.rows[key].owner.ticket()),
                    queue: self.rows[key].queue,
                },
            ),
            next: self.next,
        }
    }

    /// The owner of `key` lets go: the head of the queue is granted the key,
    /// or, with nobody waiting, the row disappears.
    pub open spec fn release(self, key: K) -> Table<K, W>
        recommends
            self.locked(key),
    {
        if self.rows[key].queue.len() > 0 {
            Table { rows: self.rows.insert(key, self.rows[key].handed_on()), next: self.next }
        } else {
            Table { rows: self.rows.remove(key), next: self.next }
        }
    }

    /// The notifier to fire when the owner of `key` lets go: that of the head
    /// of the queue, if anybody waits.
    pub open spec fn successor(self, key: K) -> Option<W>
        recommends
            self.locked(key),
    {
        if self.rows[key].queue.len() > 0 {
            Some(self.rows[key].queue[0].notifier)
        } else {
            None
        }
    }

    /// The waiter with `ticket` leaves the queue of `key`; the others keep
    /// their order.
    pub open spec fn withdraw(self, key: K, ticket: u64) -> Table<K, W>
        recommends
            self.waiting(key, ticket),
    {
        Table {
            rows: self.rows.insert(
                key,
                Row {
                    owner: self.rows[key].owner,
                    queue: self.rows[key].queue.remove(position(self.rows[key].queue, ticket)),
                },
            ),
            next: self.next,
        }
    }

    /// What abandoning the party with `ticket` does to `key`: a waiter leaves
    /// the queue, a party that was granted the key passes it on, and anybody
    /// else changes nothing.
    pub open spec fn abandon(self, key: K, ticket: u64) -> Table<K, W> {
        if self.waiting(key, ticket) {
            self.withdraw(key, ticket)
        } else if self.granted_to(key, ticket) {
            self.release(key)
        } else {
            self
        }
    }

    /// The notifier to fire when the party with `ticket` is abandoned.
    pub open spec fn abandon_successor(self, key: K, ticket: u64) -> Option<W> {
        if !self.waiting(key, ticket) && self.granted_to(key, ticket) {
            self.successor(key)
        } else {
            None
        }
    }

    /// The table after one poll of an acquire of `key` that stands at `stage`:
    /// a first poll takes an idle key or joins the queue of a locked one; a later
    /// poll observes a grant, if there is one.
    pub open spec fn lock_poll(self, key: K, stage: Stage, notifier: W) -> Table<K, W> {
        match stage {
            Stage::Init => if self.locked(key) {
                self.park(key, notifier)
            } else {
                self.occupy(key)
            },
            Stage::Parked(t) => if self.granted_to(key, t) {
                self.claim(key)
            } else {
                self
            },
            Stage::Done => self,
        }
    }

    /// The ticket under which that poll makes the caller the holder, if it does.
    pub open spec fn lock_grant(self, key: K, stage: Stage) -> Option<u64> {
        match stage {
            Stage::Init => if self.locked(key) {
                None
            } else {
                Some(self.next as u64)
            },
            Stage::Parked(t) => if self.granted_to(key, t) {
                Some(t)
            } else {
                None
            },
            Stage::Done => None,
        }
    }

    /// Where the acquire stands after that poll.
    pub open spec fn lock_stage(self, key: K, stage: Stage) -> Stage {
        match stage {
            Stage::Init => if self.locked(key) {
                Stage::Parked(self.next as u64)
            } else {
                Stage::Done
            },
            Stage::Parked(t) => if self.granted_to(key, t) {
                Stage::Done
            } else {
                stage
            },
            Stage::Done => stage,
        }
    }

    /// The table after one poll of a wait for `key` to be idle: a first poll
    /// joins the queue of a locked key and leaves an idle one alone; a later
    /// poll that finds the key granted passes it straight on.
    pub open spec fn pass_poll(self, key: K, stage: Stage, notifier: W) -> Table<K, W> {
        match stage {
            Stage::Init => if self.locked(key) {
                self.park(key, notifier)
            } else {
                self
            },
            Stage::Parked(t) => if self.granted_to(key, t) {
                self.release(key)
            } else {
                self
            },
            Stage::Done => self,
        }
    }

    /// Whether that poll completes the wait.
    pub open spec fn pass_ready(self, key: K, stage: Stage) -> bool {
        match stage {
            Stage::Init => !self.locked(key),
            Stage::Parked(t) => self.granted_to(key, t),
            Stage::Done => false,
        }
    }

    /// The notifier to fire after that poll: that of the party to which the
    /// key was passed on.
    pub open spec fn pass_wake(self, key: K, stage: Stage) -> Option<W> {
        match stage {
            Stage::Parked(t) => if self.granted_to(key, t) {
                self.successor(key)
            } else {
                None
            },
            _ => None,
        }
    }

    /// Where the wait stands after that poll.
    pub open spec fn pass_stage(self, key: K, stage: Stage) -> Stage {
        match stage {
            Stage::Init => if self.locked(key) {
                Stage::Parked(self.next as u64)
            } else {
                Stage::Done
            },
            Stage::Parked(t) => if self.granted_to(key, t) {
                Stage::Done
            } else {
                stage
            },
            Stage::Done => stage,
        }
    }

    /// The table after an operation on `key` that stands at `stage` is given
    /// up: only a parked one has left anything behind.
    pub open spec fn cancel(self, key: K, stage: Stage) -> Table<K, W> {
        match stage {
            Stage::Parked(t) => self.abandon(key, t),
            _ => self,
        }
    }

    /// The notifier to fire after that operation is given up.
    pub open spec fn cancel_wake(self, key: K, stage: Stage) -> Option<W> {
        match stage {
            Stage::Parked(t) => self.abandon_successor(key, t),
            _ => None,
        }
    }
}

/// Occupying an idle key keeps the table well formed.
pub proof fn lemma_occupy_wf<K, W>(t: Table<K, W>, key: K)
    requires
        t.wf(),
        t.next < u64::MAX,
    ensures
        t.occupy(key).wf(),
{
    let u = t.occupy(key);
    assert forall|k: K| #[trigger] u.rows.contains_key(k) implies u.rows[k].wf(u.next) by {
        if k != key {
            assert(t.rows.contains_key(k));
        }
    }
}

/// Parking a fresh ticket keeps the table well formed.
pub proof fn lemma_park_wf<K, W>(t: Table<K, W>, key: K, notifier: W)
    requires
        t.wf(),
        t.locked(key),
        t.next < u64::MAX,
    ensures
        t.park(key, notifier).wf(),
{
    let u = t.park(key, notifier);
    assert forall|k: K| #[trigger] u.rows.contains_key(k) implies u.rows[k].wf(u.next) by {
        assert(t.rows.contains_key(k));
        if k == key {
            let q = t.rows[key].queue;
            let r = u.rows[key].queue;
            assert forall|i: int| 0 <= i < r.len() implies (#[trigger] r[i]).ticket < u.next by {
                if i < q.len() {
                    assert(r[i] == q[i]);
                }
            }
            assert forall|i: int, j: int| 0 <= i < j < r.len() implies (#[trigger] r[i]).ticket
                != (#[trigger] r[j]).ticket by {
                assert(r[i] == q[i]);
                if j < q.len() {
                    assert(r[j] == q[j]);
                }
            }
            if queued(r, u.rows[key].owner.ticket()) {
                let i = position(r, u.rows[key].owner.ticket());
                if i < q.len() {
                    assert(r[i] == q[i]);
                }
            }
        }
    }
}

/// Observing a grant keeps the table well formed.
pub proof fn lemma_claim_wf<K, W>(t: Table<K, W>, key: K)
    requires
        t.wf(),
        t.locked(key),
    ensures
        t.claim(key).wf(),
{
    let u = t.claim(key);
    assert forall|k: K| #[trigger] u.rows.contains_key(k) implies u.rows[k].wf(u.next) by {
        assert(t.rows.contains_key(k));
    }
}

/// Letting go of a key keeps the table well formed.
pub proof fn lemma_release_wf<K, W>(t: Table<K, W>, key: K)
    requires
        t.wf(),
        t.locked(key),
    ensures
        t.release(key).wf(),
{
    let u = t.release(key);
    assert forall|k: K| #[trigger] u.rows.contains_key(k) implies u.rows[k].wf(u.next) by {
        assert(t.rows.contains_key(k));
        if k == key {
            let q = t.rows[key].queue;
            let r = u.rows[key].queue;
            assert(forall|i: int| 0 <= i < r.len() ==> #[trigger] r[i] == q[i + 1]);
            if queued(r, q[0].ticket) {
                let i = position(r, q[0].ticket);
                assert(r[i] == q[i + 1]);
            }
        }
    }
}

/// A waiter that leaves its queue keeps the table well formed.
pub proof fn lemma_withdraw_wf<K, W>(t: Table<K, W>, key: K, ticket: u64)
    requires
        t.wf(),
        t.waiting(key, ticket),
    ensures
        t.withdraw(key, ticket).wf(),
        !t.withdraw(key, ticket).waiting(key, ticket),
{
    let u = t.withdraw(key, ticket);
    let q = t.rows[key].queue;
    let r = u.rows[key].queue;
    let p = position(q, ticket);
    assert(forall|i: int| 0 <= i < p ==> #[trigger] r[i] == q[i]);
    assert(forall|i: int| p <= i < r.len() ==> #[trigger] r[i] == q[i + 1]);
    assert forall|k: K| #[trigger] u.rows.contains_key(k) implies u.rows[k].wf(u.next) by {
        assert(t.rows.contains_key(k));
        if k == key {
            if queued(r, u.rows[key].owner.ticket()) {
                let i = position(r, u.rows[key].owner.ticket());
                if i < p {
                    assert(r[i] == q[i]);
                } else {
                    assert(r[i] == q[i + 1]);
                }
            }
            assert forall|i: int, j: int| 0 <= i < j < r.len() implies (#[trigger] r[i]).ticket
                != (#[trigger] r[j]).ticket by {
                let a = if i < p { i } else { i + 1 };
                let b = if j < p { j } else { j + 1 };
                assert(r[i] == q[a] && r[j] == q[b]);
            }
        }
    }
    if queued(r, ticket) {
        let i = position(r, ticket);
        if i < p {
            assert(r[i] == q[i]);
        } else {
            assert(r[i] == q[i + 1]);
        }
    }
}

/// Abandoning a party keeps the table well formed.
pub proof fn lemma_abandon_wf<K, W>(t: Table<K, W>, key: K, ticket: u64)
    requires
        t.wf(),
    ensures
        t.abandon(key, ticket).wf(),
{
    if t.waiting(key, ticket) {
        lemma_withdraw_wf(t, key, ticket);
    } else if t.granted_to(key, ticket) {
        lemma_release_wf(t, key);
    }
}

/// A poll of a wait for an idle key keeps the table well formed.
pub proof fn lemma_pass_poll_wf<K, W>(t: Table<K, W>, key: K, stage: Stage, notifier: W)
    requires
        t.wf(),
        stage is Init ==> t.next < u64::MAX,
    ensures
        t.pass_poll(key, stage, notifier).wf(),
{
    match stage {
        Stage::Init => {
            if t.locked(key) {
                lemma_park_wf(t, key, notifier);
            }
        },
        Stage::Parked(ticket) => {
            if t.granted_to(key, ticket) {
                lemma_release_wf(t, key);
            }
        },
        Stage::Done => {},
    }
}

/// A poll of an acquire keeps the table well formed.
pub proof fn lemma_lock_poll_wf<K, W>(t: Table<K, W>, key: K, stage: Stage, notifier: W)
    requires
        t.wf(),
        stage is Init ==> t.next < u64::MAX,
    ensures
        t.lock_poll(key, stage, notifier).wf(),
{
    match stage {
        Stage::Init => {
            if t.locked(key) {
                lemma_park_wf(t, key, notifier);
            } else {
                lemma_occupy_wf(t, key);
            }
        },
        Stage::Parked(ticket) => {
            if t.granted_to(key, ticket) {
                lemma_claim_wf(t, key);
            }
        },
        Stage::Done => {},
    }
}

} // verus!
