use vstd::prelude::*;
use vstd::string::StringExecFns;

use crate::ids::fresh_id;
use crate::task::Task;
use crate::task::TaskModel;

verus! {

/// The models of a sequence of tasks.
pub open spec fn models_of(s: Seq<Task>) -> Seq<TaskModel> {
    s.map_values(|t: Task| t@)
}

/// No two tasks in the sequence share an id.
pub open spec fn unique_ids(s: Seq<TaskModel>) -> bool {
    forall|i: int, j: int| 0 <= i < j < s.len() ==> s[i].id != s[j].id
}

/// Some task in the sequence carries this id.
pub open spec fn contains_id(s: Seq<TaskModel>, id: Seq<char>) -> bool {
    exists|i: int| 0 <= i < s.len() && s[i].id == id
}

/// The index of the task carrying this id; meaningful only when
/// `contains_id` holds, and then, with unique ids, the one such index.
pub open spec fn index_of_id(s: Seq<TaskModel>, id: Seq<char>) -> int {
    choose|i: int| 0 <= i < s.len() && s[i].id == id
}

/// The task carrying this id, if any.
pub open spec fn find_task(s: Seq<TaskModel>, id: Seq<char>) -> Option<TaskModel> {
    if contains_id(s, id) {
        Some(s[index_of_id(s, id)])
    } else {
        None
    }
}

/// The same task with its completion flag flipped.
pub open spec fn flipped(t: TaskModel) -> TaskModel {
    TaskModel { id: t.id, title: t.title, completed: !t.completed }
}

/// The collection after a toggle of this id: the one matching task is
/// replaced in place by its flipped copy; a missing id changes nothing.
pub open spec fn toggle_model(s: Seq<TaskModel>, id: Seq<char>) -> Seq<TaskModel> {
    if contains_id(s, id) {
        s.update(index_of_id(s, id), flipped(s[index_of_id(s, id)]))
    } else {
        s
    }
}

/// The collection after a delete of this id: the one matching task is
/// removed; a missing id changes nothing.
pub open spec fn delete_model(s: Seq<TaskModel>, id: Seq<char>) -> Seq<TaskModel> {
    if contains_id(s, id) {
        s.remove(index_of_id(s, id))
    } else {
        s
    }
}

/// With unique ids, any index that matches is the `index_of_id`.
pub proof fn lemma_unique_index(s: Seq<TaskModel>, id: Seq<char>, i: int)
    requires
        unique_ids(s),
        0 <= i < s.len(),
        s[i].id == id,
    ensures
        contains_id(s, id),
        index_of_id(s, id) == i,
{
    assert(contains_id(s, id));
    let k = index_of_id(s, id);
    assert(0 <= k < s.len() && s[k].id == id);
    if k < i {
        assert(s[k].id != s[i].id);
    } else if i < k {
        assert(s[i].id != s[k].id);
    }
}

/// Appending a task whose id is fresh keeps ids unique.
pub proof fn lemma_push_fresh_unique(s: Seq<TaskModel>, t: TaskModel)
    requires
        unique_ids(s),
        !contains_id(s, t.id),
    ensures
        unique_ids(s.push(t)),
{
    assert forall|i: int, j: int| 0 <= i < j < s.push(t).len() implies s.push(t)[i].id != s.push(
        t,
    )[j].id by {
        if j < s.len() {
            assert(s[i].id != s[j].id);
        } else {
            assert(!(0 <= i < s.len() && s[i].id == t.id));
        }
    }
}

/// A toggle never changes any id, so it keeps ids unique.
pub proof fn lemma_toggle_unique(s: Seq<TaskModel>, id: Seq<char>)
    requires
        unique_ids(s),
    ensures
        unique_ids(toggle_model(s, id)),
{
    let s1 = toggle_model(s, id);
    assert forall|a: int, b: int| 0 <= a < b < s1.len() implies s1[a].id != s1[b].id by {
        assert(s[a].id != s[b].id);
    }
}

/// A delete removes one task and moves the rest, so it keeps ids
/// unique, and afterwards the deleted id matches no task at all.
pub proof fn lemma_delete_unique(s: Seq<TaskModel>, id: Seq<char>)
    requires
        unique_ids(s),
    ensures
        unique_ids(delete_model(s, id)),
        !contains_id(delete_model(s, id), id),
{
    if contains_id(s, id) {
        let k = index_of_id(s, id);
        let s1 = delete_model(s, id);
        assert(s1 =~= s.remove(k));
        assert forall|a: int, b: int| 0 <= a < b < s1.len() implies s1[a].id != s1[b].id by {
            let a0: int = if a < k {
                a
            } else {
                a + 1
            };
            let b0: int = if b < k {
                b
            } else {
                b + 1
            };
            assert(s1[a] == s[a0] && s1[b] == s[b0]);
            assert(s[a0].id != s[b0].id);
        }
        assert forall|a: int| 0 <= a < s1.len() implies s1[a].id != id by {
            let a0: int = if a < k {
                a
            } else {
                a + 1
            };
            assert(s1[a] == s[a0]);
            if s[a0].id == id {
                lemma_unique_index(s, id, a0);
            }
        }
    }
}

/// The in-memory task collection. All operations keep its one
/// invariant: ids are unique.
pub struct TaskStore {
    tasks: Vec<Task>,
}

impl View for TaskStore {
    type V = Seq<TaskModel>;

    closed spec fn view(&self) -> Seq<TaskModel> {
        self.tasks@.map_values(|t: Task| t@)
    }
}

impl TaskStore {
    /// Well-formed: no two live tasks share an id.
    pub open spec fn wf(&self) -> bool {
        unique_ids(self@)
    }

    /// An empty store.
    pub fn new() -> (r: TaskStore)
        ensures
            r.wf(),
            r@ =~= Seq::<TaskModel>::empty(),
    {
        TaskStore { tasks: Vec::new() }
    }

    /// The index of the task with this id, if one is present.
    fn position_of(&self, id: &String) -> (r: Option<usize>)
        ensures
            match r {
                Some(i) => 0 <= i < self@.len() && self@[i as int].id == id@,
                None => !contains_id(self@, id@),
            },
    {
        let mut k: usize = 0;
        while k < self.tasks.len()
            invariant
                0 <= k <= self.tasks.len(),
                forall|j: int| 0 <= j < k ==> self@[j].id != id@,
            decreases self.tasks.len() - k,
        {
            if self.tasks[k].id == *id {
                return Some(k);
            }
            k = k + 1;
        }
        None
    }

    /// A snapshot copy of all current tasks, in insertion order.
    pub fn list(&self) -> (r: Vec<Task>)
        ensures
            r@.len() == self@.len(),
            forall|i: int| 0 <= i < r@.len() ==> (#[trigger] r@[i])@ == self@[i],
    {
        let mut out: Vec<Task> = Vec::new();
        let mut k: usize = 0;
        while k < self.tasks.len()
            invariant
                0 <= k <= self.tasks.len(),
                out@.len() == k,
                forall|i: int| 0 <= i < k ==> (#[trigger] out@[i])@ == self@[i],
            decreases self.tasks.len() - k,
        {
            out.push(self.tasks[k].duplicate());
            k = k + 1;
        }
        out
    }

    /// A copy of the task with this id, or nothing if no task matches.
    pub fn get(&self, id: &String) -> (r: Option<Task>)
        requires
            self.wf(),
        ensures
            match r {
                Some(t) => find_task(self@, id@) == Some(t@),
                None => find_task(self@, id@) is None,
            },
    {
        match self.position_of(id) {
            Some(i) => {
                proof {
                    lemma_unique_index(self@, id@, i as int);
                }
                Some(self.tasks[i].duplicate())
            },
            None => None,
        }
    }

    /// Creates a task with a fresh id and the given title, not yet
    /// completed, and appends it to the collection.
    pub fn create(&mut self, title: String) -> (r: Task)
        requires
            old(self).wf(),
        ensures
            final(self).wf(),
            r@.title == title@,
            r@.completed == false,
            !contains_id(old(self)@, r@.id),
            final(self)@ =~= old(self)@.push(r@),
    {
        let candidate = fresh_id();
        let id = match self.position_of(&candidate) {
            None => candidate,
            Some(_) => self.unused_id(),
        };
        let t = Task { id, title, completed: false };
        let copy = t.duplicate();
        proof {
            lemma_push_fresh_unique(self@, t@);
        }
        self.tasks.push(t);
        assert(self@ =~= old(self)@.push(copy@));
        copy
    }

    /// An id that no current task carries, built deterministically:
    /// the concatenation of every current id plus one more character
    /// is longer than each of them, so it equals none of them. Only
    /// the (in practice unreached) case of a random id collision ever
    /// asks for it.
    fn unused_id(&self) -> (r: String)
        ensures
            !contains_id(self@, r@),
    {
        let mut s = String::new();
        let mut k: usize = 0;
        while k < self.tasks.len()
            invariant
                0 <= k <= self.tasks.len(),
                forall|j: int| 0 <= j < k ==> s@.len() >= self@[j].id.len(),
            decreases self.tasks.len() - k,
        {
            s.append(self.tasks[k].id.as_str());
            k = k + 1;
        }
        proof {
            reveal_strlit("x");
        }
        s.append("x");
        proof {
            assert forall|j: int| 0 <= j < self@.len() implies self@[j].id != s@ by {
                assert(s@.len() > self@[j].id.len());
            }
        }
        s
    }

    /// Flips the completion flag of the task with this id and returns
    /// a copy of the updated task; a missing id leaves the store
    /// unchanged and returns nothing.
    pub fn toggle(&mut self, id: &String) -> (r: Option<Task>)
        requires
            old(self).wf(),
        ensures
            final(self).wf(),
            final(self)@ =~= toggle_model(old(self)@, id@),
            match r {
                Some(t) => contains_id(old(self)@, id@) && t@ == flipped(
                    old(self)@[index_of_id(old(self)@, id@)],
                ),
                None => !contains_id(old(self)@, id@),
            },
    {
        match self.position_of(id) {
            Some(i) => {
                proof {
                    lemma_unique_index(self@, id@, i as int);
                }
                let t = self.tasks.remove(i);
                let t_new = Task { id: t.id, title: t.title, completed: !t.completed };
                let copy = t_new.duplicate();
                self.tasks.insert(i, t_new);
                assert(self@ =~= toggle_model(old(self)@, id@));
                proof {
                    lemma_toggle_unique(old(self)@, id@);
                }
                Some(copy)
            },
            None => None,
        }
    }

    /// Removes the task with this id, reporting whether a removal
    /// happened; a missing id leaves the store unchanged. Afterwards
    /// no task carries the id, so a repeated delete reports nothing
    /// removed.
    pub fn delete(&mut self, id: &String) -> (r: bool)
        requires
            old(self).wf(),
        ensures
            final(self).wf(),
            r == contains_id(old(self)@, id@),
            final(self)@ =~= delete_model(old(self)@, id@),
            !contains_id(final(self)@, id@),
    {
        match self.position_of(id) {
            Some(i) => {
                proof {
                    lemma_unique_index(self@, id@, i as int);
                }
                let _ = self.tasks.remove(i);
                proof {
                    assert(self@ =~= delete_model(old(self)@, id@));
                    lemma_delete_unique(old(self)@, id@);
                }
                true
            },
            None => false,
        }
    }
}

} // verus!
