//! The dispatch/aggregation engine: deduplication of the input identifiers
//! before dispatch, and aggregation of the collected outcomes into output
//! records, together with the laws the engine obeys.

use vstd::prelude::*;
use vstd::seq_lib::group_to_multiset_ensures;
use vstd::multiset::group_multiset_axioms;
use crate::records::ExecutionOutcome;
use crate::records::InputTask;
use crate::records::RecordModel;
use crate::records::TaskResult;
use crate::records::TaskStatus;
use crate::records::record_for;

verus! {

/// The identifiers of a sequence of input tasks, in input order.
pub open spec fn ids_of(tasks: Seq<InputTask>) -> Seq<u64> {
    Seq::new(tasks.len(), |i: int| tasks[i].task_id)
}

/// The identifiers of a sequence of identifiers with duplicates removed,
/// keeping the first occurrence of each and the order of first occurrences.
pub open spec fn dedup_seq(ids: Seq<u64>) -> Seq<u64>
    decreases ids.len(),
{
    if ids.len() == 0 {
        Seq::empty()
    } else {
        let rest = dedup_seq(ids.drop_last());
        if rest.contains(ids.last()) {
            rest
        } else {
            rest.push(ids.last())
        }
    }
}

/// The number of occurrences of `t` in `ids`.
pub open spec fn count_of(ids: Seq<u64>, t: u64) -> nat
    decreases ids.len(),
{
    if ids.len() == 0 {
        0
    } else {
        count_of(ids.drop_last(), t) + if ids.last() == t {
            1nat
        } else {
            0nat
        }
    }
}

/// The identifier of each collected (identifier, outcome) pair, in
/// collection order.
pub open spec fn pair_ids(pairs: Seq<(u64, ExecutionOutcome)>) -> Seq<u64> {
    Seq::new(pairs.len(), |i: int| pairs[i].0)
}

/// The records that a sequence of collected pairs folds into, pointwise and
/// in collection order.
pub open spec fn records_of_pairs(pairs: Seq<(u64, ExecutionOutcome)>) -> Seq<RecordModel> {
    Seq::new(pairs.len(), |i: int| record_for(pairs[i].0, pairs[i].1))
}

/// The models of a sequence of output records.
pub open spec fn views_of(rs: Seq<TaskResult>) -> Seq<RecordModel> {
    Seq::new(rs.len(), |i: int| rs[i]@)
}

/// The number of records in `rs` that carry the identifier `t`.
pub open spec fn count_records_for(rs: Seq<RecordModel>, t: u64) -> nat
    decreases rs.len(),
{
    if rs.len() == 0 {
        0
    } else {
        count_records_for(rs.drop_last(), t) + if rs.last().task_id == t {
            1nat
        } else {
            0nat
        }
    }
}

/// Whether `x` occurs in `v`.
fn contains_id(v: &Vec<u64>, x: u64) -> (b: bool)
    ensures
        b == v@.contains(x),
{
    let mut i: usize = 0;
    while i < v.len()
        invariant
            i <= v.len(),
            forall|j: int| 0 <= j < i ==> v@[j] != x,
        decreases v.len() - i,
    {
        if v[i] == x {
            return true;
        }
        i = i + 1;
    }
    false
}

/// Deduplicates the input: one identifier per distinct `task_id`, first
/// occurrences in input order. This single pass runs before any dispatch, so
/// each distinct identifier is handed to exactly one execution.
pub fn dedup_tasks(tasks: &Vec<InputTask>) -> (ids: Vec<u64>)
    ensures
        ids@ == dedup_seq(ids_of(tasks@)),
{
    let ghost all_ids = ids_of(tasks@);
    let mut out: Vec<u64> = Vec::new();
    let mut i: usize = 0;
    while i < tasks.len()
        invariant
            i <= tasks@.len(),
            all_ids == ids_of(tasks@),
            out@ == dedup_seq(all_ids.take(i as int)),
        decreases tasks.len() - i,
    {
        let id = tasks[i].task_id;
        let seen = contains_id(&out, id);
        proof {
            let pre = all_ids.take(i as int);
            let post = all_ids.take(i as int + 1);
            assert(post.drop_last() =~= pre);
            assert(post.last() == id);
        }
        if !seen {
            out.push(id);
        }
        i = i + 1;
    }
    proof {
        assert(all_ids.take(tasks@.len() as int) =~= all_ids);
    }
    out
}

/// Aggregates the collected pairs: one record per pair, in collection
/// order, each depending on its own pair alone.
pub fn collect_records(pairs: &Vec<(u64, ExecutionOutcome)>) -> (rs: Vec<TaskResult>)
    ensures
        views_of(rs@) == records_of_pairs(pairs@),
{
    let mut rs: Vec<TaskResult> = Vec::new();
    let mut i: usize = 0;
    while i < pairs.len()
        invariant
            i <= pairs@.len(),
            rs@.len() == i,
            forall|j: int| 0 <= j < i ==> #[trigger] rs@[j]@ == record_for(pairs@[j].0, pairs@[j].1),
        decreases pairs.len() - i,
    {
        let p = &pairs[i];
        let r = match &p.1 {
            ExecutionOutcome::Success => TaskResult {
                task_id: p.0,
                final_status: TaskStatus::Completed,
                error_info: String::new(),
            },
            ExecutionOutcome::Failure(m) => TaskResult {
                task_id: p.0,
                final_status: TaskStatus::Failed,
                error_info: m.clone(),
            },
        };
        proof {
            assert(r@ =~= record_for(pairs@[i as int].0, pairs@[i as int].1));
        }
        rs.push(r);
        i = i + 1;
    }
    proof {
        assert(views_of(rs@) =~= records_of_pairs(pairs@));
    }
    rs
}

/// Law: deduplication never keeps an identifier twice, so no task is ever
/// dispatched — and its remote operation never invoked — more than once per
/// run.
pub proof fn lemma_dedup_no_duplicates(ids: Seq<u64>)
    ensures
        dedup_seq(ids).no_duplicates(),
    decreases ids.len(),
{
    if ids.len() > 0 {
        lemma_dedup_no_duplicates(ids.drop_last());
        let rest = dedup_seq(ids.drop_last());
        let x = ids.last();
        if !rest.contains(x) {
            let p = rest.push(x);
            assert forall|i: int, j: int|
                0 <= i < p.len() && 0 <= j < p.len() && i != j implies p[i] != p[j] by {
                if i < p.len() - 1 && j < p.len() - 1 {
                    assert(p[i] == rest[i] && p[j] == rest[j]);
                } else if j == p.len() - 1 {
                    assert(p[i] == rest[i]);
                    if rest[i] == x {
                        assert(rest.contains(x));
                    }
                } else {
                    assert(p[j] == rest[j]);
                    if rest[j] == x {
                        assert(rest.contains(x));
                    }
                }
            }
        }
    }
}

/// Law: deduplication keeps exactly the identifiers that occur in the
/// input — none is dropped, none is invented.
pub proof fn lemma_dedup_membership(ids: Seq<u64>, t: u64)
    ensures
        dedup_seq(ids).contains(t) <==> ids.contains(t),
    decreases ids.len(),
{
    if ids.len() > 0 {
        let rest = ids.drop_last();
        let x = ids.last();
        let d = dedup_seq(ids);
        let dr = dedup_seq(rest);
        lemma_dedup_membership(rest, t);
        if ids.contains(t) {
            let k = choose|k: int| 0 <= k < ids.len() && ids[k] == t;
            if k < ids.len() - 1 {
                assert(rest[k] == t);
                assert(rest.contains(t));
                if dr.contains(x) {
                    assert(d == dr);
                } else {
                    let j = choose|j: int| 0 <= j < dr.len() && dr[j] == t;
                    assert(d[j] == t);
                }
                assert(d.contains(t));
            } else {
                assert(t == x);
                if dr.contains(x) {
                    assert(d == dr);
                } else {
                    assert(d[d.len() - 1] == x);
                }
                assert(d.contains(t));
            }
        }
        if d.contains(t) {
            let k = choose|k: int| 0 <= k < d.len() && d[k] == t;
            if dr.contains(x) || k < d.len() - 1 {
                if !dr.contains(x) {
                    assert(d == dr.push(x));
                }
                assert(dr[k] == t);
                assert(dr.contains(t));
                assert(rest.contains(t));
                let j = choose|j: int| 0 <= j < rest.len() && rest[j] == t;
                assert(ids[j] == t);
            } else {
                assert(d == dr.push(x));
                assert(t == x);
                assert(ids[ids.len() - 1] == t);
            }
            assert(ids.contains(t));
        }
    }
}

/// Law: in a sequence without duplicates, an identifier that occurs occurs
/// exactly once.
pub proof fn lemma_count_no_duplicates(ids: Seq<u64>, t: u64)
    requires
        ids.no_duplicates(),
    ensures
        count_of(ids, t) == if ids.contains(t) {
            1nat
        } else {
            0nat
        },
    decreases ids.len(),
{
    if ids.len() > 0 {
        let rest = ids.drop_last();
        let x = ids.last();
        assert(rest.no_duplicates());
        lemma_count_no_duplicates(rest, t);
        if x == t {
            if rest.contains(t) {
                let k = choose|k: int| 0 <= k < rest.len() && rest[k] == t;
                assert(ids[k] == t && ids[ids.len() - 1] == t);
            }
            assert(ids[ids.len() - 1] == t);
            assert(ids.contains(t));
        } else {
            if rest.contains(t) {
                let k = choose|k: int| 0 <= k < rest.len() && rest[k] == t;
                assert(ids[k] == t);
                assert(ids.contains(t));
            }
            if ids.contains(t) {
                let k = choose|k: int| 0 <= k < ids.len() && ids[k] == t;
                assert(rest[k] == t);
                assert(rest.contains(t));
            }
        }
    }
}

/// Law: the occurrence count of an identifier is its multiset count, so the
/// count is invariant under any reordering of the sequence.
pub proof fn lemma_count_is_multiset_count(ids: Seq<u64>, t: u64)
    ensures
        count_of(ids, t) == ids.to_multiset().count(t),
    decreases ids.len(),
{
    broadcast use group_to_multiset_ensures;
    broadcast use group_multiset_axioms;

    if ids.len() == 0 {
        assert(ids.to_multiset().len() == 0);
    } else {
        let rest = ids.drop_last();
        lemma_count_is_multiset_count(rest, t);
        assert(rest.push(ids.last()) =~= ids);
        assert(rest.push(ids.last()).to_multiset() =~= rest.to_multiset().insert(ids.last()));
    }
}

/// Law: the record folded from a pair carries that pair's identifier, so
/// per-identifier record counts equal per-identifier pair counts.
pub proof fn lemma_record_count_is_id_count(pairs: Seq<(u64, ExecutionOutcome)>, t: u64)
    ensures
        count_records_for(records_of_pairs(pairs), t) == count_of(pair_ids(pairs), t),
    decreases pairs.len(),
{
    if pairs.len() > 0 {
        let rest = pairs.drop_last();
        lemma_record_count_is_id_count(rest, t);
        assert(records_of_pairs(pairs).drop_last() =~= records_of_pairs(rest));
        assert(pair_ids(pairs).drop_last() =~= pair_ids(rest));
        assert(records_of_pairs(pairs).last().task_id == pairs.last().0);
    }
}

/// Law (dedup and completeness): whatever order the executions complete in,
/// as long as the collected pairs carry exactly the deduplicated identifiers
/// (each execution finishes once and none is dropped), the output holds
/// exactly one record for every identifier that occurs in the input — however
/// often it occurs — and no record for any other.
pub proof fn lemma_one_record_per_task(
    tasks: Seq<InputTask>,
    pairs: Seq<(u64, ExecutionOutcome)>,
    t: u64,
)
    requires
        pair_ids(pairs).to_multiset() == dedup_seq(ids_of(tasks)).to_multiset(),
    ensures
        count_records_for(records_of_pairs(pairs), t) == if ids_of(tasks).contains(t) {
            1nat
        } else {
            0nat
        },
{
    lemma_record_count_is_id_count(pairs, t);
    lemma_count_is_multiset_count(pair_ids(pairs), t);
    lemma_count_is_multiset_count(dedup_seq(ids_of(tasks)), t);
    lemma_dedup_no_duplicates(ids_of(tasks));
    lemma_count_no_duplicates(dedup_seq(ids_of(tasks)), t);
    lemma_dedup_membership(ids_of(tasks), t);
}

/// Law (status/error-info coupling): every record folded from a well-formed
/// outcome is `Completed` with an empty diagnostic or `Failed` with a
/// non-empty one.
pub proof fn lemma_status_error_coupling(pairs: Seq<(u64, ExecutionOutcome)>, i: int)
    requires
        0 <= i < pairs.len(),
        pairs[i].1.wf(),
    ensures
        records_of_pairs(pairs)[i].coupled(),
{
}

/// Law (independence): a task's record depends on that task's own collected
/// pair alone — changing every other task's outcome, including to a failure,
/// never changes it.
pub proof fn lemma_outcome_independence(
    pairs1: Seq<(u64, ExecutionOutcome)>,
    pairs2: Seq<(u64, ExecutionOutcome)>,
    i: int,
)
    requires
        0 <= i < pairs1.len(),
        0 <= i < pairs2.len(),
        pairs1[i] == pairs2[i],
    ensures
        records_of_pairs(pairs1)[i] == records_of_pairs(pairs2)[i],
{
}

} // verus!
