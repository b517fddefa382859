use vstd::prelude::*;
use vstd::rwlock::RwLock;
use vstd::rwlock::RwLockPredicate;

use crate::resolver;
use crate::resolver::OpError;
use crate::store::TaskStore;
use crate::store::models_of;
use crate::store::unique_ids;
use crate::task::Task;

verus! {

/// The lock invariant: only a well-formed store — one with unique
/// ids — can ever sit inside the lock.
pub struct WfStore;

impl RwLockPredicate<TaskStore> for WfStore {
    open spec fn inv(self, v: TaskStore) -> bool {
        v.wf()
    }
}

/// The one shared, process-wide task collection, behind a verified
/// reader-writer lock. Each of the five operations holds exclusive
/// access for its whole duration, so concurrent callers observe every
/// operation as atomic and never see a half-finished write; the lock
/// invariant keeps the store well-formed at every quiescent point.
///
/// Because the collection is shared, only what holds of every
/// possible current state can be promised here; the exact effect of
/// each operation is the contract of the resolver and store functions
/// this type serializes.
pub struct SharedStore {
    lock: RwLock<TaskStore, WfStore>,
}

impl SharedStore {
    /// A shared store over an empty collection.
    pub fn new() -> (r: SharedStore) {
        let store = TaskStore::new();
        SharedStore { lock: RwLock::new(store, Ghost(WfStore)) }
    }

    /// A snapshot of all current tasks; no two of them share an id.
    pub fn todos(&self) -> (r: Vec<Task>)
        ensures
            unique_ids(models_of(r@)),
    {
        let (store, handle) = self.lock.acquire_write();
        let ghost s0 = store@;
        let r = resolver::todos(&store);
        handle.release_write(store);
        proof {
            assert(models_of(r@) =~= s0);
        }
        r
    }

    /// The task with this id, or nothing; a returned task always
    /// carries the requested id.
    pub fn todo(&self, id: &String) -> (r: Option<Task>)
        ensures
            (r matches Some(t) ==> t@.id == id@),
    {
        let (store, handle) = self.lock.acquire_write();
        let r = resolver::todo(&store, id);
        handle.release_write(store);
        r
    }

    /// Creates a task with the given title, not yet completed, under
    /// a fresh id. Always succeeds.
    pub fn create_todo(&self, title: String) -> (r: Result<Task, OpError>)
        ensures
            r matches Ok(t) && t@.title == title@ && t@.completed == false,
    {
        let (mut store, handle) = self.lock.acquire_write();
        let r = resolver::create_todo(&mut store, title);
        handle.release_write(store);
        r
    }

    /// Flips the completion flag of the task with this id; a missing
    /// id yields `Ok` carrying nothing. A returned task always
    /// carries the requested id.
    pub fn toggle_todo(&self, id: &String) -> (r: Result<Option<Task>, OpError>)
        ensures
            r matches Ok(o) && (o matches Some(t) ==> t@.id == id@),
    {
        let (mut store, handle) = self.lock.acquire_write();
        let r = resolver::toggle_todo(&mut store, id);
        handle.release_write(store);
        r
    }

    /// Removes the task with this id, reporting whether a removal
    /// happened. Always succeeds; `false` means nothing matched.
    pub fn delete_todo(&self, id: &String) -> (r: Result<bool, OpError>)
        ensures
            r is Ok,
    {
        let (mut store, handle) = self.lock.acquire_write();
        let r = resolver::delete_todo(&mut store, id);
        handle.release_write(store);
        r
    }
}

} // verus!
