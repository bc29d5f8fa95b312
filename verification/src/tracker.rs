//! The task registry.

use crate::history::{step, Call};
use crate::model::TrackerView;
use crate::storage::{
    by_id, distinct_ids, holds, lemma_by_id_absent, lemma_by_id_at, lemma_by_id_empty,
    lemma_by_id_len, lemma_by_id_push, lemma_by_id_remove, lemma_by_id_update, position,
};
use crate::task::{rejection, validate, view_of, Task, TaskStatus, TaskView, ValidationError};
use vstd::prelude::*;

verus! {

/// Owns every task and the counter from which identifiers are minted.
///
/// All access goes through `&self` and `&mut self`, so whoever shares a
/// registry between callers has to hand out exclusive access for each
/// mutation; each call then runs to completion on a consistent registry and
/// leaves a consistent one.
pub struct TaskTracker {
    tasks: Vec<Task>,
    next_id: u64,
}

impl View for TaskTracker {
    type V = TrackerView;

    closed spec fn view(&self) -> TrackerView {
        TrackerView { tasks: by_id(self.tasks@), next_id: self.next_id as nat }
    }
}

/// The position of the record that carries `id`, if there is one.
fn find(tasks: &Vec<Task>, id: u64) -> (found: Option<usize>)
    ensures
        match found {
            Some(k) => k < tasks@.len() && tasks@[k as int].id == id,
            None => forall|i: int| 0 <= i < tasks@.len() ==> tasks@[i].id != id,
        },
{
    let mut k: usize = 0;
    while k < tasks.len()
        invariant
            k <= tasks@.len(),
            forall|i: int| 0 <= i < k ==> tasks@[i].id != id,
        decreases tasks@.len() - k,
    {
        if tasks[k].id == id {
            return Some(k);
        }
        k += 1;
    }
    None
}

impl TaskTracker {
    /// What the fields satisfy at every moment: no identifier occurs twice,
    /// every identifier in use is below the counter, and every stored task
    /// is well formed.
    #[verifier::type_invariant]
    spec fn consistent(&self) -> bool {
        &&& self.next_id >= 1
        &&& distinct_ids(self.tasks@)
        &&& forall|i: int|
            0 <= i < self.tasks@.len() ==> {
                &&& (#[trigger] self.tasks@[i]).id < self.next_id
                &&& self.tasks@[i]@.well_formed()
            }
    }

    /// A consistent registry stands for a reachable model with as many tasks
    /// as it holds records.
    proof fn lemma_view_inv(&self)
        requires
            self.consistent(),
        ensures
            self@.inv(),
            self@.len() == self.tasks@.len(),
    {
        lemma_by_id_len(self.tasks@);
        assert forall|id: nat| #[trigger] self@.tasks.contains_key(id) implies {
            &&& id < self@.next_id
            &&& self@.tasks[id].id == id
            &&& self@.tasks[id].well_formed()
        } by {
            let i = position(self.tasks@, id);
            lemma_by_id_at(self.tasks@, i);
        }
    }

    /// Moves the records out and leaves an empty vector behind, so that they
    /// can be changed while the registry itself stays consistent. Callers put
    /// them back before they do anything that can fail.
    fn take_tasks(&mut self) -> (tasks: Vec<Task>)
        ensures
            tasks == old(self).tasks,
            final(self).tasks@ == Seq::<Task>::empty(),
            final(self).next_id == old(self).next_id,
    {
        proof {
            use_type_invariant(&*self);
        }
        let mut tasks = Vec::new();
        std::mem::swap(&mut tasks, &mut self.tasks);
        tasks
    }

    /// An empty registry whose first task will receive identifier 1.
    pub fn new() -> (tracker: TaskTracker)
        ensures
            tracker@ == TrackerView::empty(),
    {
        proof {
            lemma_by_id_empty();
        }
        TaskTracker { tasks: Vec::new(), next_id: 1 }
    }

    /// The identifier that the next created task receives.
    pub fn next_id(&self) -> (id: u64)
        ensures
            id == self@.next_id,
            self@.inv(),
    {
        proof {
            use_type_invariant(self);
            self.lemma_view_inv();
        }
        self.next_id
    }

    /// A copy of the task stored under `id`, if there is one.
    pub fn get_task(&self, id: u64) -> (found: Option<Task>)
        ensures
            view_of(found) == self@.get(id as nat),
            self@.inv(),
    {
        proof {
            use_type_invariant(self);
            self.lemma_view_inv();
        }
        match find(&self.tasks, id) {
            Some(k) => {
                proof {
                    lemma_by_id_at(self.tasks@, k as int);
                }
                Some(self.tasks[k].clone())
            },
            None => {
                proof {
                    lemma_by_id_absent(self.tasks@, id as nat);
                }
                None
            },
        }
    }

    /// Stores a new pending task under the next identifier and returns a
    /// copy of it; turns the fields down, and changes nothing, when the
    /// title or the description is empty.
    ///
    /// The counter must not be exhausted when the fields are acceptable:
    /// identifiers are never reused, so there is nothing to hand out after
    /// `u64::MAX - 1`.
    pub fn add_task(&mut self, title: String, description: String, due_date: Option<u64>) -> (res:
        Result<Task, ValidationError>)
        requires
            rejection(title@, description@) is None ==> old(self)@.next_id < u64::MAX,
        ensures
            final(self)@.inv(),
            match rejection(title@, description@) {
                Some(e) => res == Err::<Task, ValidationError>(e) && final(self)@ == old(self)@,
                None => {
                    &&& res is Ok
                    &&& res->Ok_0@ == TaskView::pending(
                        old(self)@.next_id,
                        title@,
                        description@,
                        due_date,
                    )
                    &&& final(self)@ == old(self)@.add(title@, description@, due_date)
                },
            },
            final(self)@ == step(
                old(self)@,
                (Call::Add { title: title@, description: description@, due_date }),
            ),
            res is Ok <==> (Call::Add {
                title: title@,
                description: description@,
                due_date,
            }).creates(),
            res is Ok ==> {
                &&& !old(self)@.tasks.contains_key(res->Ok_0@.id)
                &&& forall|id: nat| old(self)@.tasks.contains_key(id) ==> id < res->Ok_0@.id
                &&& final(self)@.next_id == old(self)@.next_id + 1
                &&& final(self)@.len() == old(self)@.len() + 1
            },
    {
        proof {
            use_type_invariant(&*self);
            self.lemma_view_inv();
        }
        match validate(&title, &description) {
            Err(e) => Err(e),
            Ok(()) => {
                let id = self.next_id;
                let task = Task::new(id, title, description, due_date);
                let copy = task.clone();
                proof {
                    lemma_by_id_absent(self.tasks@, id as nat);
                    lemma_by_id_push(self.tasks@, task);
                }
                let mut tasks = self.take_tasks();
                tasks.push(task);
                self.next_id = id + 1;
                self.tasks = tasks;
                proof {
                    self.lemma_view_inv();
                }
                Ok(copy)
            },
        }
    }

    /// Replaces the title, the description and the due date of the task stored
    /// under `id` and returns a copy of the result; the status stays as it is.
    /// Returns `Ok(None)` and changes nothing when no task is stored under
    /// `id`. Turns the fields down, and changes nothing, when the title or the
    /// description is empty, whether or not `id` is in use.
    pub fn update_task(
        &mut self,
        id: u64,
        title: String,
        description: String,
        due_date: Option<u64>,
    ) -> (res: Result<Option<Task>, ValidationError>)
        ensures
            final(self)@.inv(),
            match rejection(title@, description@) {
                Some(e) => res == Err::<Option<Task>, ValidationError>(e) && final(self)@ == old(
                    self,
                )@,
                None => {
                    &&& res is Ok
                    &&& view_of(res->Ok_0) == match old(self)@.get(id as nat) {
                        Some(t) => Some(t.edited(title@, description@, due_date)),
                        None => None,
                    }
                    &&& final(self)@ == old(self)@.update(id as nat, title@, description@, due_date)
                },
            },
            final(self)@ == step(
                old(self)@,
                (Call::Update { id: id as nat, title: title@, description: description@, due_date }),
            ),
            !old(self)@.tasks.contains_key(id as nat) ==> {
                &&& final(self)@ == old(self)@
                &&& rejection(title@, description@) is None ==> res == Ok::<
                    Option<Task>,
                    ValidationError,
                >(None)
            },
            final(self)@.next_id == old(self)@.next_id,
            final(self)@.tasks.dom() == old(self)@.tasks.dom(),
    {
        proof {
            use_type_invariant(&*self);
            self.lemma_view_inv();
        }
        match validate(&title, &description) {
            Err(e) => Err(e),
            Ok(()) => match find(&self.tasks, id) {
                None => {
                    proof {
                        lemma_by_id_absent(self.tasks@, id as nat);
                    }
                    Ok(None)
                },
                Some(k) => {
                    let ghost before = self.tasks@;
                    let mut tasks = self.take_tasks();
                    tasks[k].title = title;
                    tasks[k].description = description;
                    tasks[k].due_date = due_date;
                    proof {
                        lemma_by_id_at(before, k as int);
                        lemma_by_id_update(before, k as int, tasks@[k as int]);
                        assert(tasks@ =~= before.update(k as int, tasks@[k as int]));
                    }
                    self.tasks = tasks;
                    proof {
                        self.lemma_view_inv();
                        assert(self@.tasks.dom() =~= old(self)@.tasks.dom());
                    }
                    Ok(Some(self.tasks[k].clone()))
                },
            },
        }
    }

    /// Gives the task stored under `id` another status and returns a copy of
    /// the result; every other field stays as it is. Returns `None` and
    /// changes nothing when no task is stored under `id`.
    pub fn set_status(&mut self, id: u64, status: TaskStatus) -> (res: Option<Task>)
        ensures
            final(self)@.inv(),
            view_of(res) == match old(self)@.get(id as nat) {
                Some(t) => Some(t.with_status(status)),
                None => None,
            },
            final(self)@ == old(self)@.set_status(id as nat, status),
            final(self)@ == step(old(self)@, (Call::SetStatus { id: id as nat, status })),
            !old(self)@.tasks.contains_key(id as nat) ==> final(self)@ == old(self)@,
            final(self)@.next_id == old(self)@.next_id,
            final(self)@.tasks.dom() == old(self)@.tasks.dom(),
    {
        proof {
            use_type_invariant(&*self);
            self.lemma_view_inv();
        }
        match find(&self.tasks, id) {
            None => {
                proof {
                    lemma_by_id_absent(self.tasks@, id as nat);
                }
                None
            },
            Some(k) => {
                let ghost before = self.tasks@;
                let mut tasks = self.take_tasks();
                tasks[k].status = status;
                proof {
                    lemma_by_id_at(before, k as int);
                    lemma_by_id_update(before, k as int, tasks@[k as int]);
                    assert(tasks@ =~= before.update(k as int, tasks@[k as int]));
                }
                self.tasks = tasks;
                proof {
                    self.lemma_view_inv();
                    assert(self@.tasks.dom() =~= old(self)@.tasks.dom());
                }
                Some(self.tasks[k].clone())
            },
        }
    }

    /// Removes the task stored under `id` and returns it. Returns `None` and
    /// changes nothing when no task is stored under `id`. The identifier is
    /// not in use afterwards and is never handed out again.
    pub fn delete_task(&mut self, id: u64) -> (removed: Option<Task>)
        ensures
            final(self)@.inv(),
            view_of(removed) == old(self)@.get(id as nat),
            final(self)@ == old(self)@.delete(id as nat),
            final(self)@ == step(old(self)@, (Call::Delete { id: id as nat })),
            removed is Some <==> (Call::Delete { id: id as nat }).removes_from(old(self)@),
            !final(self)@.tasks.contains_key(id as nat),
            removed is None ==> final(self)@ == old(self)@,
            final(self)@.next_id == old(self)@.next_id,
            final(self)@.len() == if removed is Some {
                old(self)@.len() - 1
            } else {
                old(self)@.len() as int
            },
    {
        proof {
            use_type_invariant(&*self);
            self.lemma_view_inv();
        }
        match find(&self.tasks, id) {
            None => {
                proof {
                    lemma_by_id_absent(self.tasks@, id as nat);
                    assert(self@.tasks.remove(id as nat) =~= self@.tasks);
                }
                None
            },
            Some(k) => {
                let ghost before = self.tasks@;
                let mut tasks = self.take_tasks();
                let task = tasks.remove(k);
                proof {
                    lemma_by_id_at(before, k as int);
                    lemma_by_id_remove(before, k as int);
                }
                self.tasks = tasks;
                proof {
                    self.lemma_view_inv();
                }
                Some(task)
            },
        }
    }

    /// A copy of every stored task. Each stored task occurs exactly once; the
    /// order in which they come is not part of the contract.
    pub fn list_tasks(&self) -> (all: Vec<Task>)
        ensures
            self@.inv(),
            all@.len() == self@.len(),
            distinct_ids(all@),
            forall|i: int|
                0 <= i < all@.len() ==> self@.get((#[trigger] all@[i]).id as nat) == Some(
                    all@[i]@,
                ),
            forall|id: nat| self@.tasks.contains_key(id) ==> holds(all@, id),
    {
        proof {
            use_type_invariant(self);
            self.lemma_view_inv();
        }
        let mut all: Vec<Task> = Vec::new();
        let mut k: usize = 0;
        while k < self.tasks.len()
            invariant
                k <= self.tasks@.len(),
                all@.len() == k,
                forall|i: int| 0 <= i < k ==> all@[i] == self.tasks@[i],
            decreases self.tasks@.len() - k,
        {
            all.push(self.tasks[k].clone());
            k += 1;
        }
        proof {
            assert(all@ =~= self.tasks@);
            assert forall|i: int| 0 <= i < all@.len() implies self@.get(
                (#[trigger] all@[i]).id as nat,
            ) == Some(all@[i]@) by {
                lemma_by_id_at(self.tasks@, i);
            }
        }
        all
    }
}

} // verus!
