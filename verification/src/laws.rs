use vstd::prelude::*;

use crate::store::contains_id;
use crate::store::delete_model;
use crate::store::find_task;
use crate::store::flipped;
use crate::store::index_of_id;
use crate::store::lemma_delete_unique;
use crate::store::lemma_push_fresh_unique;
use crate::store::lemma_toggle_unique;
use crate::store::lemma_unique_index;
use crate::store::toggle_model;
use crate::store::unique_ids;
use crate::task::TaskModel;

verus! {

/// Creating a task and immediately looking its id up always finds
/// exactly the created task: appending a task under a fresh id and
/// then searching for that id returns that task.
pub proof fn lemma_create_then_get(s: Seq<TaskModel>, t: TaskModel)
    requires
        unique_ids(s),
        !contains_id(s, t.id),
    ensures
        find_task(s.push(t), t.id) == Some(t),
{
    lemma_push_fresh_unique(s, t);
    lemma_unique_index(s.push(t), t.id, s.len() as int);
}

/// Toggling the same id twice restores the collection, and the
/// second toggle hands back the task with its completion flag at its
/// original value: a toggle pair is idempotent although one toggle
/// is not.
pub proof fn lemma_toggle_twice(s: Seq<TaskModel>, id: Seq<char>)
    requires
        unique_ids(s),
    ensures
        toggle_model(toggle_model(s, id), id) =~= s,
        contains_id(s, id) ==> flipped(
            toggle_model(s, id)[index_of_id(toggle_model(s, id), id)],
        ) == s[index_of_id(s, id)],
{
    if contains_id(s, id) {
        let k = index_of_id(s, id);
        let s1 = toggle_model(s, id);
        lemma_toggle_unique(s, id);
        assert(s1[k].id == id);
        lemma_unique_index(s1, id, k);
        assert(toggle_model(s1, id) =~= s);
    }
}

/// A delete removes the id for good: afterwards no task carries it,
/// so a second delete of the same id reports nothing removed and
/// changes nothing. With the store's contract — delete returns
/// whether the id was present — this says the delete of an existing
/// id returns true exactly once, and false ever after.
pub proof fn lemma_delete_once(s: Seq<TaskModel>, id: Seq<char>)
    requires
        unique_ids(s),
    ensures
        !contains_id(delete_model(s, id), id),
        delete_model(delete_model(s, id), id) == delete_model(s, id),
{
    lemma_delete_unique(s, id);
}

/// One write operation against the collection, in its model form.
pub ghost enum WriteOp {
    Create(TaskModel),
    Toggle(Seq<char>),
    Delete(Seq<char>),
}

/// The collection after one write operation.
pub open spec fn apply_op(s: Seq<TaskModel>, op: WriteOp) -> Seq<TaskModel> {
    match op {
        WriteOp::Create(t) => s.push(t),
        WriteOp::Toggle(id) => toggle_model(s, id),
        WriteOp::Delete(id) => delete_model(s, id),
    }
}

/// The collection after a sequence of write operations, applied one
/// after the other — which is exactly how the shared store admits
/// them, since every operation holds the lock for its whole duration.
pub open spec fn apply_ops(s: Seq<TaskModel>, ops: Seq<WriteOp>) -> Seq<TaskModel>
    decreases ops.len(),
{
    if ops.len() == 0 {
        s
    } else {
        apply_ops(apply_op(s, ops[0]), ops.drop_first())
    }
}

/// How many of the operations are creates. Every create succeeds.
pub open spec fn count_creates(ops: Seq<WriteOp>) -> nat
    decreases ops.len(),
{
    if ops.len() == 0 {
        0
    } else {
        (if ops[0] is Create {
            1nat
        } else {
            0nat
        }) + count_creates(ops.drop_first())
    }
}

/// How many deletes succeed — hit an id present at their moment —
/// when the operations run from this starting collection.
pub open spec fn count_successful_deletes(s: Seq<TaskModel>, ops: Seq<WriteOp>) -> nat
    decreases ops.len(),
{
    if ops.len() == 0 {
        0
    } else {
        (match ops[0] {
            WriteOp::Delete(id) => if contains_id(s, id) {
                1nat
            } else {
                0nat
            },
            _ => 0nat,
        }) + count_successful_deletes(apply_op(s, ops[0]), ops.drop_first())
    }
}

/// Every create in the run uses an id fresh at its moment — which
/// the store's create operation guarantees of itself.
pub open spec fn creates_fresh(s: Seq<TaskModel>, ops: Seq<WriteOp>) -> bool
    decreases ops.len(),
{
    if ops.len() == 0 {
        true
    } else {
        (ops[0] matches WriteOp::Create(t) ==> !contains_id(s, t.id)) && creates_fresh(
            apply_op(s, ops[0]),
            ops.drop_first(),
        )
    }
}

/// After any sequence of write operations, the collection's length
/// is its starting length plus the creates minus the successful
/// deletes: toggles never change it, failed deletes change nothing.
pub proof fn lemma_list_length(s: Seq<TaskModel>, ops: Seq<WriteOp>)
    ensures
        apply_ops(s, ops).len() == s.len() + count_creates(ops) - count_successful_deletes(s, ops),
    decreases ops.len(),
{
    if ops.len() > 0 {
        let s1 = apply_op(s, ops[0]);
        match ops[0] {
            WriteOp::Create(t) => {
                assert(s1.len() == s.len() + 1);
            },
            WriteOp::Toggle(id) => {
                assert(s1.len() == s.len());
            },
            WriteOp::Delete(id) => {
                if contains_id(s, id) {
                    assert(s1.len() == s.len() - 1);
                } else {
                    assert(s1.len() == s.len());
                }
            },
        }
        lemma_list_length(s1, ops.drop_first());
    }
}

/// The task under this id after one write operation, computed from
/// the task under it before: a create of the id installs its task, a
/// toggle of the id flips its flag, a delete of the id removes it,
/// and an operation on any other id leaves it alone.
pub open spec fn step_task(cur: Option<TaskModel>, op: WriteOp, id: Seq<char>) -> Option<
    TaskModel,
> {
    match op {
        WriteOp::Create(t) => if t.id == id {
            Some(t)
        } else {
            cur
        },
        WriteOp::Toggle(i) => if i == id {
            match cur {
                Some(t) => Some(flipped(t)),
                None => None,
            }
        } else {
            cur
        },
        WriteOp::Delete(i) => if i == id {
            None
        } else {
            cur
        },
    }
}

/// The task under this id after a run of write operations: the fold
/// of the id's own events over its starting value.
pub open spec fn task_after(cur: Option<TaskModel>, ops: Seq<WriteOp>, id: Seq<char>) -> Option<
    TaskModel,
>
    decreases ops.len(),
{
    if ops.len() == 0 {
        cur
    } else {
        task_after(step_task(cur, ops[0], id), ops.drop_first(), id)
    }
}

/// One write operation changes the task under each id exactly as
/// `step_task` says, provided ids are unique and a create's id is
/// fresh.
proof fn lemma_step_task(s: Seq<TaskModel>, op: WriteOp, id: Seq<char>)
    requires
        unique_ids(s),
        op matches WriteOp::Create(t) ==> !contains_id(s, t.id),
    ensures
        find_task(apply_op(s, op), id) == step_task(find_task(s, id), op, id),
{
    match op {
        WriteOp::Create(t) => {
            lemma_push_fresh_unique(s, t);
            let s1 = s.push(t);
            if t.id == id {
                lemma_unique_index(s1, id, s.len() as int);
            } else {
                if contains_id(s, id) {
                    let k = index_of_id(s, id);
                    assert(0 <= k < s.len() && s[k].id == id);
                    assert(s1[k] == s[k]);
                    lemma_unique_index(s1, id, k);
                } else {
                    assert forall|a: int| 0 <= a < s1.len() implies s1[a].id != id by {
                        if a < s.len() {
                            assert(!(0 <= a < s.len() && s[a].id == id));
                        }
                    }
                }
            }
        },
        WriteOp::Toggle(i2) => {
            lemma_toggle_unique(s, i2);
            let s1 = toggle_model(s, i2);
            if contains_id(s, i2) {
                let k2 = index_of_id(s, i2);
                assert(0 <= k2 < s.len() && s[k2].id == i2);
                if i2 == id {
                    assert(s1[k2] == flipped(s[k2]));
                    lemma_unique_index(s1, id, k2);
                } else {
                    if contains_id(s, id) {
                        let k = index_of_id(s, id);
                        assert(0 <= k < s.len() && s[k].id == id);
                        assert(k != k2);
                        assert(s1[k] == s[k]);
                        lemma_unique_index(s1, id, k);
                    } else {
                        assert forall|a: int| 0 <= a < s1.len() implies s1[a].id != id by {
                            assert(s1[a].id == s[a].id);
                            assert(!(0 <= a < s.len() && s[a].id == id));
                        }
                    }
                }
            }
        },
        WriteOp::Delete(i2) => {
            lemma_delete_unique(s, i2);
            let s1 = delete_model(s, i2);
            if contains_id(s, i2) {
                let k2 = index_of_id(s, i2);
                assert(0 <= k2 < s.len() && s[k2].id == i2);
                if i2 == id {
                    assert(find_task(s1, id) is None);
                } else {
                    if contains_id(s, id) {
                        let k = index_of_id(s, id);
                        assert(0 <= k < s.len() && s[k].id == id);
                        assert(k != k2);
                        let kp: int = if k < k2 {
                            k
                        } else {
                            k - 1
                        };
                        assert(s1[kp] == s[k]);
                        lemma_unique_index(s1, id, kp);
                        lemma_unique_index(s, id, k);
                    } else {
                        assert forall|a: int| 0 <= a < s1.len() implies s1[a].id != id by {
                            let a0: int = if a < k2 {
                                a
                            } else {
                                a + 1
                            };
                            assert(s1[a] == s[a0]);
                            assert(!(0 <= a0 < s.len() && s[a0].id == id));
                        }
                    }
                }
            }
        },
    }
}

/// After any serialized run of write operations whose creates use
/// fresh ids, the collection holds, under every id, exactly the task
/// that the fold of that id's own events yields: membership is
/// created-and-not-deleted, the completion flag reflects precisely
/// the toggles applied, and no update is lost.
pub proof fn lemma_final_task(s: Seq<TaskModel>, ops: Seq<WriteOp>, id: Seq<char>)
    requires
        unique_ids(s),
        creates_fresh(s, ops),
    ensures
        find_task(apply_ops(s, ops), id) == task_after(find_task(s, id), ops, id),
    decreases ops.len(),
{
    if ops.len() > 0 {
        lemma_step_task(s, ops[0], id);
        match ops[0] {
            WriteOp::Create(t) => lemma_push_fresh_unique(s, t),
            WriteOp::Toggle(i) => lemma_toggle_unique(s, i),
            WriteOp::Delete(i) => lemma_delete_unique(s, i),
        }
        lemma_final_task(apply_op(s, ops[0]), ops.drop_first(), id);
    }
}

/// No sequence of write operations ever produces a duplicate id, as
/// long as every create's id is fresh at its moment: the store's one
/// invariant survives every serialized run.
pub proof fn lemma_run_keeps_ids_unique(s: Seq<TaskModel>, ops: Seq<WriteOp>)
    requires
        unique_ids(s),
        creates_fresh(s, ops),
    ensures
        unique_ids(apply_ops(s, ops)),
    decreases ops.len(),
{
    if ops.len() > 0 {
        let s1 = apply_op(s, ops[0]);
        match ops[0] {
            WriteOp::Create(t) => {
                lemma_push_fresh_unique(s, t);
            },
            WriteOp::Toggle(id) => {
                lemma_toggle_unique(s, id);
            },
            WriteOp::Delete(id) => {
                lemma_delete_unique(s, id);
            },
        }
        lemma_run_keeps_ids_unique(s1, ops.drop_first());
    }
}

} // verus!
