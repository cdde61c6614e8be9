//! Keyed locks for cooperative schedulers, as a sequential engine.
//!
//! A lock table maps each contended key to the party that owns it and to the
//! queue of parties waiting for it. Every operation is one atomic step on the
//! table: it takes the table by `&mut`, says in its contract how the table
//! changes, and hands back the notifiers that the caller must fire. A host
//! wraps a table in whatever exclusion it likes and drives the steps from its
//! scheduler.
use std::collections::HashMap;
use vstd::prelude::*;

pub mod laws;
pub mod mutex;
pub mod rw_lock;
pub mod rw_table;
pub mod table;

pub use mutex::{Mutex, UntilUnlocked, WaitForUnlock, WriteGuard};
pub use rw_lock::{Read, ReadGuard, RwLock, Write};
pub use rw_table::WriteStage;
pub use table::Stage;

verus! {

/// An empty map from keys to per-key state.
pub fn new_map<K, V>() -> (m: HashMap<K, V>)
    ensures
        m@ == Map::<K, V>::empty(),
{
    HashMap::new()
}

/// Outcome of polling a suspendable operation.
#[derive(Debug)]
pub enum Poll<T> {
    /// The operation has completed with this value.
    Ready(T),
    /// The operation is parked and will be notified.
    Pending,
}

impl<T> Poll<T> {
    /// True when the operation has completed.
    pub fn is_ready(&self) -> (r: bool)
        ensures
            r == (*self is Ready),
    {
        match self {
            Poll::Ready(_) => true,
            Poll::Pending => false,
        }
    }

    /// True when the operation is still parked.
    pub fn is_pending(&self) -> (r: bool)
        ensures
            r == (*self is Pending),
    {
        match self {
            Poll::Ready(_) => false,
            Poll::Pending => true,
        }
    }
}

} // verus!
