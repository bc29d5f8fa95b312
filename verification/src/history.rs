//! What holds of a registry over a whole sequence of calls.
//!
//! A [`Call`] records one call with its arguments; [`run`] replays a sequence
//! of them on the model. Each step is the state change that the contract of
//! the corresponding method of [`crate::tracker::TaskTracker`] promises, so
//! what is proved here of every sequence holds of every use of a registry.

use crate::model::{
    lemma_add_inv, lemma_delete_inv, lemma_empty_inv, lemma_set_status_inv, lemma_update_inv,
    TrackerView,
};
use crate::task::{lemma_acceptable_iff_not_rejected, rejection, TaskStatus};
use vstd::prelude::*;

verus! {

/// One call on a registry, with its arguments as plain values.
pub enum Call {
    Add { title: Seq<char>, description: Seq<char>, due_date: Option<u64> },
    Update { id: nat, title: Seq<char>, description: Seq<char>, due_date: Option<u64> },
    SetStatus { id: nat, status: TaskStatus },
    Delete { id: nat },
    Get { id: nat },
    List,
}

impl Call {
    /// The call is an `add` whose fields are accepted: it creates a task.
    pub open spec fn creates(self) -> bool {
        self matches Call::Add { title, description, .. } && rejection(title, description) is None
    }

    /// The call is a `delete` of an identifier that is in use in `s`: it
    /// removes a task.
    pub open spec fn removes_from(self, s: TrackerView) -> bool {
        self matches Call::Delete { id } && s.tasks.contains_key(id)
    }
}

/// The registry after one call.
pub open spec fn step(s: TrackerView, call: Call) -> TrackerView {
    match call {
        Call::Add { title, description, due_date } => if rejection(title, description) is None {
            s.add(title, description, due_date)
        } else {
            s
        },
        Call::Update { id, title, description, due_date } => if rejection(title, description)
            is None {
            s.update(id, title, description, due_date)
        } else {
            s
        },
        Call::SetStatus { id, status } => s.set_status(id, status),
        Call::Delete { id } => s.delete(id),
        Call::Get { .. } => s,
        Call::List => s,
    }
}

/// The registry after a sequence of calls, first call first.
pub open spec fn run(s: TrackerView, calls: Seq<Call>) -> TrackerView
    decreases calls.len(),
{
    if calls.len() == 0 {
        s
    } else {
        step(run(s, calls.drop_last()), calls.last())
    }
}

/// How many of the calls create a task.
pub open spec fn created(calls: Seq<Call>) -> nat
    decreases calls.len(),
{
    if calls.len() == 0 {
        0
    } else {
        created(calls.drop_last()) + if calls.last().creates() {
            1nat
        } else {
            0nat
        }
    }
}

/// How many of the calls, made in turn from `s`, remove a task.
pub open spec fn removed(s: TrackerView, calls: Seq<Call>) -> nat
    decreases calls.len(),
{
    if calls.len() == 0 {
        0
    } else {
        removed(s, calls.drop_last()) + if calls.last().removes_from(run(s, calls.drop_last())) {
            1nat
        } else {
            0nat
        }
    }
}

/// The identifier that call number `k` receives if it creates a task: the
/// next identifier of the registry as the calls before it left it.
pub open spec fn issued(s: TrackerView, calls: Seq<Call>, k: int) -> nat {
    run(s, calls.take(k)).next_id
}

/// Every call leads from a reachable registry to a reachable registry.
pub proof fn lemma_step_inv(s: TrackerView, call: Call)
    requires
        s.inv(),
    ensures
        step(s, call).inv(),
{
    match call {
        Call::Add { title, description, due_date } => {
            lemma_acceptable_iff_not_rejected(title, description);
            if rejection(title, description) is None {
                lemma_add_inv(s, title, description, due_date);
            }
        },
        Call::Update { id, title, description, due_date } => {
            lemma_acceptable_iff_not_rejected(title, description);
            if rejection(title, description) is None {
                lemma_update_inv(s, id, title, description, due_date);
            }
        },
        Call::SetStatus { id, status } => {
            lemma_set_status_inv(s, id, status);
        },
        Call::Delete { id } => {
            lemma_delete_inv(s, id);
        },
        Call::Get { .. } => {},
        Call::List => {},
    }
}

/// Every sequence of calls leads from a reachable registry to a reachable
/// registry.
pub proof fn lemma_run_inv(s: TrackerView, calls: Seq<Call>)
    requires
        s.inv(),
    ensures
        run(s, calls).inv(),
    decreases calls.len(),
{
    if calls.len() > 0 {
        lemma_run_inv(s, calls.drop_last());
        lemma_step_inv(run(s, calls.drop_last()), calls.last());
    }
}

/// The counter advances by exactly one for each call that creates a task and
/// stands still on every other call.
pub proof fn lemma_counter_counts_creations(s: TrackerView, calls: Seq<Call>)
    ensures
        run(s, calls).next_id == s.next_id + created(calls),
    decreases calls.len(),
{
    if calls.len() > 0 {
        lemma_counter_counts_creations(s, calls.drop_last());
    }
}

/// A longer prefix of a sequence of calls creates at least as many tasks as
/// a shorter one.
pub proof fn lemma_created_grows(calls: Seq<Call>, i: int, j: int)
    requires
        0 <= i <= j <= calls.len(),
    ensures
        created(calls.take(i)) <= created(calls.take(j)),
    decreases j - i,
{
    if i < j {
        lemma_created_grows(calls, i, j - 1);
        assert(calls.take(j).drop_last() =~= calls.take(j - 1));
    }
}

/// Identifiers are handed out in strictly increasing order: of two calls
/// that create a task, the later one receives the larger identifier, whatever
/// calls, deletions among them, are made before, between and after them.
/// So no identifier is handed out twice.
pub proof fn lemma_issued_ids_increase(s: TrackerView, calls: Seq<Call>, i: int, j: int)
    requires
        0 <= i < j < calls.len(),
        calls[i].creates(),
        calls[j].creates(),
    ensures
        issued(s, calls, i) < issued(s, calls, j),
{
    lemma_counter_counts_creations(s, calls.take(i));
    lemma_counter_counts_creations(s, calls.take(j));
    lemma_created_grows(calls, i + 1, j);
    assert(calls.take(i + 1).drop_last() =~= calls.take(i));
    assert(calls.take(i + 1).last() == calls[i]);
}

/// The identifier that a creating call receives is the one under which the
/// registry stores the new task, and it was not in use, nor was any larger
/// one, when the call was made.
pub proof fn lemma_issued_id_is_new(s: TrackerView, calls: Seq<Call>, k: int)
    requires
        s.inv(),
        0 <= k < calls.len(),
        calls[k].creates(),
    ensures
        !run(s, calls.take(k)).tasks.contains_key(issued(s, calls, k)),
        forall|id: nat| #[trigger]
            run(s, calls.take(k)).tasks.contains_key(id) ==> id < issued(s, calls, k),
        run(s, calls.take(k + 1)).tasks.contains_key(issued(s, calls, k)),
        run(s, calls.take(k + 1)).tasks[issued(s, calls, k)].id == issued(s, calls, k),
{
    lemma_run_inv(s, calls.take(k));
    assert(calls.take(k + 1).drop_last() =~= calls.take(k));
    assert(calls.take(k + 1).last() == calls[k]);
}

/// The number of stored tasks after a sequence of calls is the number
/// before it, plus the calls that created a task, minus the calls that
/// removed one.
pub proof fn lemma_len_counts_from(s: TrackerView, calls: Seq<Call>)
    requires
        s.inv(),
    ensures
        run(s, calls).len() == s.len() + created(calls) - removed(s, calls),
    decreases calls.len(),
{
    if calls.len() > 0 {
        let before = run(s, calls.drop_last());
        lemma_len_counts_from(s, calls.drop_last());
        lemma_run_inv(s, calls.drop_last());
        match calls.last() {
            Call::Add { title, description, due_date } => {
                lemma_acceptable_iff_not_rejected(title, description);
                if rejection(title, description) is None {
                    lemma_add_inv(before, title, description, due_date);
                }
            },
            Call::Update { id, title, description, due_date } => {
                lemma_acceptable_iff_not_rejected(title, description);
                if rejection(title, description) is None {
                    lemma_update_inv(before, id, title, description, due_date);
                }
            },
            Call::SetStatus { id, status } => {
                lemma_set_status_inv(before, id, status);
            },
            Call::Delete { id } => {
                lemma_delete_inv(before, id);
            },
            Call::Get { .. } => {},
            Call::List => {},
        }
    }
}

/// In a registry that started empty, the number of stored tasks is the
/// number of calls that created a task minus the number of calls that removed
/// one.
pub proof fn lemma_len_counts(calls: Seq<Call>)
    ensures
        run(TrackerView::empty(), calls).len() == created(calls) - removed(
            TrackerView::empty(),
            calls,
        ),
{
    lemma_empty_inv();
    lemma_len_counts_from(TrackerView::empty(), calls);
}

} // verus!
