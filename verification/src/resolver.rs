use vstd::prelude::*;

use crate::store::TaskStore;
use crate::store::contains_id;
use crate::store::delete_model;
use crate::store::find_task;
use crate::store::flipped;
use crate::store::index_of_id;
use crate::store::toggle_model;
use crate::task::Task;

verus! {

/// Why a write operation failed. No store operation defined today
/// ever fails — the contracts below promise an `Ok` on every input —
/// but the write group reports through this type so that a future
/// fallible step has a place to surface, and so that one failed
/// operation stays isolated from the rest of a batch.
#[derive(Debug)]
pub struct OpError {
    pub message: String,
}

/// The read operation `todos`: a snapshot of all current tasks, in
/// insertion order.
pub fn todos(store: &TaskStore) -> (r: Vec<Task>)
    ensures
        r@.len() == store@.len(),
        forall|i: int| 0 <= i < r@.len() ==> (#[trigger] r@[i])@ == store@[i],
{
    store.list()
}

/// The read operation `todo`: the task with this id, or nothing.
/// A missing id is a normal result, not a failure.
pub fn todo(store: &TaskStore, id: &String) -> (r: Option<Task>)
    requires
        store.wf(),
    ensures
        match r {
            Some(t) => find_task(store@, id@) == Some(t@),
            None => find_task(store@, id@) is None,
        },
{
    store.get(id)
}

/// The write operation `create_todo`: appends a fresh task and
/// returns it. Always succeeds.
pub fn create_todo(store: &mut TaskStore, title: String) -> (r: Result<Task, OpError>)
    requires
        old(store).wf(),
    ensures
        final(store).wf(),
        r matches Ok(t) && t@.title == title@ && t@.completed == false && !contains_id(
            old(store)@,
            t@.id,
        ) && final(store)@ =~= old(store)@.push(t@),
{
    Ok(store.create(title))
}

/// The write operation `toggle_todo`: flips the completion flag of
/// the task with this id. A missing id yields a successful result
/// carrying nothing, distinct from an execution failure.
pub fn toggle_todo(store: &mut TaskStore, id: &String) -> (r: Result<Option<Task>, OpError>)
    requires
        old(store).wf(),
    ensures
        final(store).wf(),
        final(store)@ =~= toggle_model(old(store)@, id@),
        r matches Ok(o) && (match o {
            Some(t) => contains_id(old(store)@, id@) && t@ == flipped(
                old(store)@[index_of_id(old(store)@, id@)],
            ),
            None => !contains_id(old(store)@, id@),
        }),
{
    Ok(store.toggle(id))
}

/// The write operation `delete_todo`: removes the task with this id,
/// reporting whether a removal happened. `false` (nothing found) is
/// a successful result, not a failure.
pub fn delete_todo(store: &mut TaskStore, id: &String) -> (r: Result<bool, OpError>)
    requires
        old(store).wf(),
    ensures
        final(store).wf(),
        final(store)@ =~= delete_model(old(store)@, id@),
        !contains_id(final(store)@, id@),
        r matches Ok(b) && b == contains_id(old(store)@, id@),
{
    Ok(store.delete(id))
}

} // verus!
