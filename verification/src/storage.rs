//! How a sequence of task records stands for a map from identifiers to tasks.
//!
//! The registry keeps its tasks in a vector in which no identifier occurs
//! twice. The lemmas here relate pushing to, overwriting in and removing from
//! such a sequence to inserting into and removing from the map it stands for.

use crate::task::{Task, TaskView};
use vstd::prelude::*;

verus! {

/// No identifier occurs at two positions.
pub open spec fn distinct_ids(s: Seq<Task>) -> bool {
    forall|i: int, j: int| 0 <= i < j < s.len() ==> s[i].id != s[j].id
}

/// Some record in `s` carries `id`.
pub open spec fn holds(s: Seq<Task>, id: nat) -> bool {
    exists|i: int| 0 <= i < s.len() && #[trigger] s[i].id == id
}

/// A position at which `s` carries `id`, where there is one.
pub open spec fn position(s: Seq<Task>, id: nat) -> int {
    choose|i: int| 0 <= i < s.len() && #[trigger] s[i].id == id
}

/// The map that `s` stands for: every identifier that occurs, with the view
/// of the record that carries it.
pub open spec fn by_id(s: Seq<Task>) -> Map<nat, TaskView> {
    Map::new(|id: nat| holds(s, id), |id: nat| s[position(s, id)]@)
}

/// Each record is found under its own identifier.
pub proof fn lemma_by_id_at(s: Seq<Task>, i: int)
    requires
        distinct_ids(s),
        0 <= i < s.len(),
    ensures
        holds(s, s[i].id as nat),
        position(s, s[i].id as nat) == i,
        by_id(s).contains_key(s[i].id as nat),
        by_id(s)[s[i].id as nat] == s[i]@,
{
    let id = s[i].id as nat;
    assert(s[i].id == id);
    let p = position(s, id);
    assert(0 <= p < s.len() && s[p].id == id);
    if p < i {
        assert(s[p].id != s[i].id);
    } else if i < p {
        assert(s[i].id != s[p].id);
    }
}

/// An identifier that no record carries is not in the map.
pub proof fn lemma_by_id_absent(s: Seq<Task>, id: nat)
    requires
        forall|i: int| 0 <= i < s.len() ==> s[i].id != id,
    ensures
        !holds(s, id),
        !by_id(s).contains_key(id),
{
}

/// The empty sequence stands for the empty map.
pub proof fn lemma_by_id_empty()
    ensures
        by_id(Seq::<Task>::empty()) == Map::<nat, TaskView>::empty(),
{
    assert(by_id(Seq::<Task>::empty()) =~= Map::<nat, TaskView>::empty());
}

/// Appending a record with a new identifier inserts it into the map.
pub proof fn lemma_by_id_push(s: Seq<Task>, t: Task)
    requires
        distinct_ids(s),
        !holds(s, t.id as nat),
    ensures
        distinct_ids(s.push(t)),
        by_id(s.push(t)) == by_id(s).insert(t.id as nat, t@),
{
    let after = s.push(t);
    assert(distinct_ids(after)) by {
        assert forall|i: int, j: int| 0 <= i < j < after.len() implies after[i].id
            != after[j].id by {
            if j == s.len() {
                assert(s[i].id == s[i].id as nat);
            }
        }
    }
    assert forall|id: nat| holds(after, id) <==> (holds(s, id) || id == t.id) by {
        if holds(s, id) {
            let i = position(s, id);
            assert(after[i].id == id);
        }
        if id == t.id {
            assert(after[s.len() as int].id == id);
        }
        if holds(after, id) {
            let i = position(after, id);
            if i < s.len() {
                assert(s[i].id == id);
            }
        }
    }
    assert forall|id: nat| holds(after, id) implies by_id(after)[id] == by_id(s).insert(
        t.id as nat,
        t@,
    )[id] by {
        let i = position(after, id);
        lemma_by_id_at(after, i);
        if i < s.len() {
            lemma_by_id_at(s, i);
        }
    }
    assert(by_id(after) =~= by_id(s).insert(t.id as nat, t@));
}

/// Overwriting a record with one of the same identifier replaces its
/// entry in the map.
pub proof fn lemma_by_id_update(s: Seq<Task>, k: int, t: Task)
    requires
        distinct_ids(s),
        0 <= k < s.len(),
        t.id == s[k].id,
    ensures
        distinct_ids(s.update(k, t)),
        by_id(s.update(k, t)) == by_id(s).insert(t.id as nat, t@),
{
    let after = s.update(k, t);
    assert(distinct_ids(after)) by {
        assert forall|i: int, j: int| 0 <= i < j < after.len() implies after[i].id
            != after[j].id by {
            assert(s[i].id != s[j].id);
        }
    }
    assert forall|id: nat| holds(after, id) <==> holds(s, id) by {
        if holds(s, id) {
            let i = position(s, id);
            assert(after[i].id == id);
        }
        if holds(after, id) {
            let i = position(after, id);
            assert(s[i].id == id);
        }
    }
    lemma_by_id_at(s, k);
    assert forall|id: nat| holds(after, id) implies by_id(after)[id] == by_id(s).insert(
        t.id as nat,
        t@,
    )[id] by {
        let i = position(after, id);
        lemma_by_id_at(after, i);
        lemma_by_id_at(s, i);
    }
    assert(by_id(after) =~= by_id(s).insert(t.id as nat, t@));
}

/// Taking a record out removes its identifier from the map.
pub proof fn lemma_by_id_remove(s: Seq<Task>, k: int)
    requires
        distinct_ids(s),
        0 <= k < s.len(),
    ensures
        distinct_ids(s.remove(k)),
        by_id(s.remove(k)) == by_id(s).remove(s[k].id as nat),
{
    let after = s.remove(k);
    let gone = s[k].id as nat;
    assert forall|i: int| 0 <= i < after.len() implies after[i] == s[if i < k {
        i
    } else {
        i + 1
    }] by {}
    assert(distinct_ids(after)) by {
        assert forall|i: int, j: int| 0 <= i < j < after.len() implies after[i].id
            != after[j].id by {
            let si = if i < k { i } else { i + 1 };
            let sj = if j < k { j } else { j + 1 };
            assert(s[si].id != s[sj].id);
        }
    }
    assert forall|id: nat| holds(after, id) <==> (holds(s, id) && id != gone) by {
        if holds(s, id) && id != gone {
            let i = position(s, id);
            let ai = if i < k { i } else { i - 1 };
            assert(after[ai].id == id);
        }
        if holds(after, id) {
            let i = position(after, id);
            let si = if i < k { i } else { i + 1 };
            assert(s[si].id == id);
            if si < k {
                assert(s[si].id != s[k].id);
            } else {
                assert(s[k].id != s[si].id);
            }
        }
    }
    assert forall|id: nat| holds(after, id) implies by_id(after)[id] == by_id(s).remove(gone)[id] by {
        let i = position(after, id);
        let si = if i < k { i } else { i + 1 };
        lemma_by_id_at(after, i);
        lemma_by_id_at(s, si);
    }
    assert(by_id(after) =~= by_id(s).remove(gone));
}

/// The map has as many entries as the sequence has records.
pub proof fn lemma_by_id_len(s: Seq<Task>)
    requires
        distinct_ids(s),
    ensures
        by_id(s).dom().finite(),
        by_id(s).dom().len() == s.len(),
    decreases s.len(),
{
    if s.len() == 0 {
        assert(by_id(s).dom() =~= Set::<nat>::empty());
    } else {
        let front = s.drop_last();
        let t = s.last();
        assert(s =~= front.push(t));
        assert(distinct_ids(front)) by {
            assert forall|i: int, j: int| 0 <= i < j < front.len() implies front[i].id
                != front[j].id by {
                assert(s[i].id != s[j].id);
            }
        }
        assert(!holds(front, t.id as nat)) by {
            if holds(front, t.id as nat) {
                let i = position(front, t.id as nat);
                assert(s[i].id != s[s.len() - 1].id);
            }
        }
        lemma_by_id_len(front);
        lemma_by_id_push(front, t);
        assert(by_id(s).dom() =~= by_id(front).dom().insert(t.id as nat));
    }
}

} // verus!
