//! The registry as a mathematical object: a finite map from identifiers to
//! tasks together with the next identifier to hand out.
//!
//! The operations here say what each call of [`crate::tracker::TaskTracker`]
//! does to the registry once its arguments have been accepted. Identifiers are
//! natural numbers, so nothing in this file can overflow.

use crate::task::{acceptable, TaskStatus, TaskView};
use vstd::prelude::*;

verus! {

/// The state of a registry.
pub struct TrackerView {
    /// The stored tasks, each under its identifier.
    pub tasks: Map<nat, TaskView>,
    /// The identifier that the next created task receives.
    pub next_id: nat,
}

impl TrackerView {
    /// The registry that holds nothing and has issued no identifier.
    pub open spec fn empty() -> TrackerView {
        TrackerView { tasks: Map::empty(), next_id: 1 }
    }

    /// What holds of every registry that can be reached: finitely many
    /// tasks, each stored under its own identifier, each well formed, and
    /// every identifier in use below the next one to be issued.
    pub open spec fn inv(self) -> bool {
        &&& self.tasks.dom().finite()
        &&& self.next_id >= 1
        &&& forall|id: nat| #[trigger]
            self.tasks.contains_key(id) ==> {
                &&& id < self.next_id
                &&& self.tasks[id].id == id
                &&& self.tasks[id].well_formed()
            }
    }

    /// How many tasks are stored.
    pub open spec fn len(self) -> nat {
        self.tasks.dom().len()
    }

    /// The task stored under `id`, if there is one.
    pub open spec fn get(self, id: nat) -> Option<TaskView> {
        if self.tasks.contains_key(id) {
            Some(self.tasks[id])
        } else {
            None
        }
    }

    /// The registry after a pending task with the given fields was stored
    /// under the next identifier.
    pub open spec fn add(
        self,
        title: Seq<char>,
        description: Seq<char>,
        due_date: Option<u64>,
    ) -> TrackerView {
        TrackerView {
            tasks: self.tasks.insert(
                self.next_id,
                TaskView::pending(self.next_id, title, description, due_date),
            ),
            next_id: self.next_id + 1,
        }
    }

    /// The registry after the task under `id`, if any, had its editable
    /// fields replaced.
    pub open spec fn update(
        self,
        id: nat,
        title: Seq<char>,
        description: Seq<char>,
        due_date: Option<u64>,
    ) -> TrackerView {
        if self.tasks.contains_key(id) {
            TrackerView {
                tasks: self.tasks.insert(id, self.tasks[id].edited(title, description, due_date)),
                ..self
            }
        } else {
            self
        }
    }

    /// The registry after the task under `id`, if any, received `status`.
    pub open spec fn set_status(self, id: nat, status: TaskStatus) -> TrackerView {
        if self.tasks.contains_key(id) {
            TrackerView { tasks: self.tasks.insert(id, self.tasks[id].with_status(status)), ..self }
        } else {
            self
        }
    }

    /// The registry without the task under `id`.
    pub open spec fn delete(self, id: nat) -> TrackerView {
        TrackerView { tasks: self.tasks.remove(id), ..self }
    }
}

/// The empty registry is a reachable one.
pub proof fn lemma_empty_inv()
    ensures
        TrackerView::empty().inv(),
        TrackerView::empty().len() == 0,
{
}

/// Creating a task with acceptable fields keeps the registry reachable,
/// stores one task more, and uses an identifier that was never in use.
pub proof fn lemma_add_inv(
    s: TrackerView,
    title: Seq<char>,
    description: Seq<char>,
    due_date: Option<u64>,
)
    requires
        s.inv(),
        acceptable(title, description),
    ensures
        s.add(title, description, due_date).inv(),
        !s.tasks.contains_key(s.next_id),
        s.add(title, description, due_date).len() == s.len() + 1,
        s.add(title, description, due_date).get(s.next_id) == Some(
            TaskView::pending(s.next_id, title, description, due_date),
        ),
{
}

/// Editing with acceptable fields keeps the registry reachable and stores
/// as many tasks as before.
pub proof fn lemma_update_inv(
    s: TrackerView,
    id: nat,
    title: Seq<char>,
    description: Seq<char>,
    due_date: Option<u64>,
)
    requires
        s.inv(),
        acceptable(title, description),
    ensures
        s.update(id, title, description, due_date).inv(),
        s.update(id, title, description, due_date).tasks.dom() == s.tasks.dom(),
        s.update(id, title, description, due_date).len() == s.len(),
{
    let after = s.update(id, title, description, due_date);
    assert(after.tasks.dom() =~= s.tasks.dom());
}

/// Changing a status keeps the registry reachable and stores as many tasks
/// as before.
pub proof fn lemma_set_status_inv(s: TrackerView, id: nat, status: TaskStatus)
    requires
        s.inv(),
    ensures
        s.set_status(id, status).inv(),
        s.set_status(id, status).tasks.dom() == s.tasks.dom(),
        s.set_status(id, status).len() == s.len(),
{
    let after = s.set_status(id, status);
    assert(after.tasks.dom() =~= s.tasks.dom());
}

/// Deleting keeps the registry reachable; it stores one task fewer if the
/// identifier was in use and as many as before if it was not.
pub proof fn lemma_delete_inv(s: TrackerView, id: nat)
    requires
        s.inv(),
    ensures
        s.delete(id).inv(),
        s.delete(id).len() == if s.tasks.contains_key(id) {
            s.len() - 1
        } else {
            s.len() as int
        },
{
}

/// Editing under an identifier that is not in use changes nothing, and the
/// identifier is still not in use afterwards.
pub proof fn lemma_update_absent(
    s: TrackerView,
    id: nat,
    title: Seq<char>,
    description: Seq<char>,
    due_date: Option<u64>,
)
    requires
        !s.tasks.contains_key(id),
    ensures
        s.update(id, title, description, due_date) == s,
        s.update(id, title, description, due_date).get(id) is None,
{
}

/// After a deletion the identifier is not in use, whatever was there before.
pub proof fn lemma_get_after_delete(s: TrackerView, id: nat)
    ensures
        s.delete(id).get(id) is None,
{
}

/// Deleting twice is the same as deleting once.
pub proof fn lemma_delete_idempotent(s: TrackerView, id: nat)
    ensures
        s.delete(id).delete(id) == s.delete(id),
{
    assert(s.tasks.remove(id).remove(id) =~= s.tasks.remove(id));
}

} // verus!
