use vstd::prelude::*;
use vstd::seq_lib::lemma_multiset_commutative;

use crate::jira::FetchError;
use crate::task::{
    lemma_task_le_reflexive, lemma_task_le_total, lemma_task_le_transitive, task_le, tasks_sorted,
    Task,
};

verus! {

broadcast use
    vstd::seq_lib::group_to_multiset_ensures,
    vstd::multiset::group_multiset_axioms,
;

/// What one fetch outcome contributes to the run: its tasks on success,
/// nothing on failure. A failing source is absorbed here, never surfaced.
pub open spec fn ok_tasks(o: Result<Vec<Task>, FetchError>) -> Seq<Task> {
    match o {
        Ok(ts) => ts@,
        Err(_) => Seq::<Task>::empty(),
    }
}

/// The tasks one run works with: the concatenation, in source order, of
/// what the successful fetches returned.
pub open spec fn merged(outcomes: Seq<Result<Vec<Task>, FetchError>>) -> Seq<Task>
    decreases outcomes.len(),
{
    if outcomes.len() == 0 {
        Seq::<Task>::empty()
    } else {
        ok_tasks(outcomes[0]) + merged(outcomes.drop_first())
    }
}

/// Inserting into a sequence adds one occurrence to its multiset.
proof fn lemma_insert_multiset(s: Seq<Task>, i: int, a: Task)
    requires
        0 <= i <= s.len(),
    ensures
        s.insert(i, a).to_multiset() == s.to_multiset().insert(a),
{
    let pre = s.subrange(0, i);
    let post = s.subrange(i, s.len() as int);
    lemma_multiset_commutative(pre.push(a), post);
    lemma_multiset_commutative(pre, post);
    assert(s =~= pre + post);
    assert(s.insert(i, a).to_multiset() =~= s.to_multiset().insert(a));
}

/// Inserts `t` into a vector already in merge order, keeping the order.
fn insert_in_order(out: &mut Vec<Task>, t: Task)
    requires
        tasks_sorted(old(out)@),
    ensures
        tasks_sorted(final(out)@),
        final(out)@.to_multiset() == old(out)@.to_multiset().insert(t),
{
    let ghost prev = old(out)@;
    let mut i: usize = 0;
    while i < out.len() && out[i].precedes_eq(&t)
        invariant
            i <= prev.len(),
            out@ == prev,
            forall|j: int| 0 <= j < i ==> task_le(#[trigger] prev[j], t),
        decreases prev.len() - i,
    {
        i = i + 1;
    }
    proof {
        if (i as int) < prev.len() {
            lemma_task_le_total(prev[i as int], t);
        }
        assert forall|j: int| i <= j < prev.len() implies task_le(t, #[trigger] prev[j]) by {
            if j > i {
                lemma_task_le_transitive(t, prev[i as int], prev[j]);
            }
        }
        prev.insert_ensures(i as int, t);
        lemma_insert_multiset(prev, i as int, t);
    }
    out.insert(i, t);
    proof {
        let new = out@;
        assert forall|p: int, q: int| 0 <= p < q < new.len() implies task_le(
            #[trigger] new[p],
            #[trigger] new[q],
        ) by {
            if q < i {
                assert(task_le(prev[p], prev[q]));
            } else if q == i {
                assert(task_le(prev[p], t));
            } else if p < i {
                assert(task_le(prev[p], prev[q - 1]));
            } else if p == i {
                assert(task_le(t, prev[q - 1]));
            } else {
                assert(task_le(prev[p - 1], prev[q - 1]));
            }
        }
    }
}

/// Merges the outcomes of one run's fetches: failed sources are dropped
/// silently, the surviving tasks are flattened in source order and put in
/// the merge order. Aggregation itself never fails: with no successful
/// source it returns the empty list.
pub fn aggregate(outcomes: Vec<Result<Vec<Task>, FetchError>>) -> (r: Vec<Task>)
    ensures
        tasks_sorted(r@),
        r@.to_multiset() == merged(outcomes@).to_multiset(),
        r@.len() == merged(outcomes@).len(),
{
    let ghost all = outcomes@;
    let mut rest = outcomes;
    let mut acc: Vec<Task> = Vec::new();
    proof {
        assert(acc@.to_multiset().add(merged(rest@).to_multiset()) =~= merged(
            all,
        ).to_multiset());
    }
    while rest.len() > 0
        invariant
            tasks_sorted(acc@),
            acc@.to_multiset().add(merged(rest@).to_multiset()) == merged(all).to_multiset(),
        decreases rest@.len(),
    {
        let ghost rest_before = rest@;
        let outcome = rest.remove(0);
        proof {
            assert(rest@ =~= rest_before.drop_first());
            assert(merged(rest_before) == ok_tasks(rest_before[0]) + merged(rest@));
            lemma_multiset_commutative(ok_tasks(rest_before[0]), merged(rest@));
        }
        match outcome {
            Ok(mut ts) => {
                proof {
                    assert(acc@.to_multiset().add(ts@.to_multiset()).add(
                        merged(rest@).to_multiset(),
                    ) =~= merged(all).to_multiset());
                }
                while ts.len() > 0
                    invariant
                        tasks_sorted(acc@),
                        acc@.to_multiset().add(ts@.to_multiset()).add(
                            merged(rest@).to_multiset(),
                        ) == merged(all).to_multiset(),
                    decreases ts@.len(),
                {
                    let ghost ts_before = ts@;
                    let ghost n = ts_before.len();
                    let t = ts.pop().unwrap();
                    proof {
                        assert(ts@ =~= ts_before.remove(n - 1));
                        assert(ts_before.remove(n - 1).to_multiset()
                            == ts_before.to_multiset().remove(ts_before.last()));
                        assert(ts_before.contains(ts_before.last()));
                        assert(ts_before.to_multiset().count(ts_before.last()) > 0);
                        assert(ts_before.to_multiset() =~= ts@.to_multiset().insert(t));
                    }
                    let ghost acc_before = acc@;
                    insert_in_order(&mut acc, t);
                    proof {
                        assert(acc@.to_multiset().add(ts@.to_multiset()).add(
                            merged(rest@).to_multiset(),
                        ) =~= acc_before.to_multiset().add(ts_before.to_multiset()).add(
                            merged(rest@).to_multiset(),
                        ));
                    }
                }
                proof {
                    assert(ts@.to_multiset().len() == 0);
                    assert(acc@.to_multiset().add(ts@.to_multiset()).add(
                        merged(rest@).to_multiset(),
                    ) =~= acc@.to_multiset().add(merged(rest@).to_multiset()));
                }
            },
            Err(_) => {
                proof {
                    assert(ok_tasks(rest_before[0]) =~= Seq::<Task>::empty());
                    assert(ok_tasks(rest_before[0]).to_multiset().len() == 0);
                    assert(ok_tasks(rest_before[0]).to_multiset().add(
                        merged(rest@).to_multiset(),
                    ) =~= merged(rest@).to_multiset());
                }
            },
        }
    }
    proof {
        assert(merged(rest@).to_multiset().len() == 0);
        assert(acc@.to_multiset().add(merged(rest@).to_multiset()) =~= acc@.to_multiset());
        assert(acc@.to_multiset().len() == acc@.len());
        assert(merged(all).to_multiset().len() == merged(all).len());
    }
    acc
}

/// The tasks of a run settle their presentation completely: two sequences
/// in the merge order carrying the same tasks are equal, provided tasks
/// that tie under the order (equal priority and key) are equal outright.
pub proof fn lemma_sorted_tasks_unique(x: Seq<Task>, y: Seq<Task>)
    requires
        tasks_sorted(x),
        tasks_sorted(y),
        x.to_multiset() == y.to_multiset(),
        forall|a: Task, b: Task|
            x.to_multiset().contains(a) && x.to_multiset().contains(b) && #[trigger] task_le(a, b)
                && #[trigger] task_le(b, a) ==> a == b,
    ensures
        x == y,
    decreases x.len(),
{
    if x.len() == 0 || y.len() == 0 {
        assert(x.to_multiset().len() == x.len());
        assert(y.to_multiset().len() == y.len());
        assert(x =~= y);
    } else {
        assert(x.to_multiset().contains(x[0]));
        assert(y.to_multiset().contains(y[0]));
        assert(x.to_multiset().count(y[0]) > 0);
        assert(x.contains(y[0]));
        assert(y.contains(x[0]));
        let i = choose|i: int| 0 <= i < x.len() && x[i] == y[0];
        let j = choose|j: int| 0 <= j < y.len() && y[j] == x[0];
        if i > 0 {
            assert(task_le(x[0], x[i]));
        } else {
            lemma_task_le_reflexive(x[0]);
        }
        if j > 0 {
            assert(task_le(y[0], y[j]));
        } else {
            lemma_task_le_reflexive(y[0]);
        }
        assert(task_le(x[0], y[0]));
        assert(task_le(y[0], x[0]));
        assert(x[0] == y[0]);
        assert(x.drop_first() =~= x.remove(0));
        assert(y.drop_first() =~= y.remove(0));
        assert(x.remove(0).to_multiset() == x.to_multiset().remove(x[0]));
        assert(y.remove(0).to_multiset() == y.to_multiset().remove(y[0]));
        assert(x.drop_first().to_multiset() =~= y.drop_first().to_multiset());
        assert forall|p: int, q: int| 0 <= p < q < x.drop_first().len() implies task_le(
            #[trigger] x.drop_first()[p],
            #[trigger] x.drop_first()[q],
        ) by {
            assert(task_le(x[p + 1], x[q + 1]));
        }
        assert forall|p: int, q: int| 0 <= p < q < y.drop_first().len() implies task_le(
            #[trigger] y.drop_first()[p],
            #[trigger] y.drop_first()[q],
        ) by {
            assert(task_le(y[p + 1], y[q + 1]));
        }
        assert forall|a: Task, b: Task|
            x.drop_first().to_multiset().contains(a) && x.drop_first().to_multiset().contains(b)
                && #[trigger] task_le(a, b) && #[trigger] task_le(b, a) implies a == b by {
            assert(x.to_multiset().contains(a));
            assert(x.to_multiset().contains(b));
        }
        lemma_sorted_tasks_unique(x.drop_first(), y.drop_first());
        assert(x =~= seq![x[0]] + x.drop_first());
        assert(y =~= seq![y[0]] + y.drop_first());
    }
}

/// Completion order never shows: any two outputs that meet `aggregate`'s
/// contract over outcome lists carrying the same tasks are equal — again
/// provided tasks that tie under the merge order are equal outright.
pub proof fn lemma_aggregate_deterministic(
    o1: Seq<Result<Vec<Task>, FetchError>>,
    o2: Seq<Result<Vec<Task>, FetchError>>,
    r1: Seq<Task>,
    r2: Seq<Task>,
)
    requires
        merged(o1).to_multiset() == merged(o2).to_multiset(),
        tasks_sorted(r1),
        r1.to_multiset() == merged(o1).to_multiset(),
        tasks_sorted(r2),
        r2.to_multiset() == merged(o2).to_multiset(),
        forall|a: Task, b: Task|
            merged(o1).to_multiset().contains(a) && merged(o1).to_multiset().contains(b)
                && #[trigger] task_le(a, b) && #[trigger] task_le(b, a) ==> a == b,
    ensures
        r1 == r2,
{
    lemma_sorted_tasks_unique(r1, r2);
}

/// A source that fails contributes nothing; the ones that succeed
/// contribute exactly their tasks, in source order. Stated for a run over
/// three sources of which one fails: the other two's tasks survive, and
/// no error reaches the caller (`merged` is total).
pub proof fn lemma_two_of_three_survive(outcomes: Seq<Result<Vec<Task>, FetchError>>, f: int)
    requires
        outcomes.len() == 3,
        0 <= f < 3,
        outcomes[f] is Err,
    ensures
        f == 0 ==> merged(outcomes) == ok_tasks(outcomes[1]) + ok_tasks(outcomes[2]),
        f == 1 ==> merged(outcomes) == ok_tasks(outcomes[0]) + ok_tasks(outcomes[2]),
        f == 2 ==> merged(outcomes) == ok_tasks(outcomes[0]) + ok_tasks(outcomes[1]),
{
    let d1 = outcomes.drop_first();
    let d2 = d1.drop_first();
    let d3 = d2.drop_first();
    assert(d1[0] == outcomes[1]);
    assert(d2[0] == outcomes[2]);
    assert(d3.len() == 0);
    assert(merged(d3) =~= Seq::<Task>::empty());
    assert(merged(d2) == ok_tasks(outcomes[2]) + merged(d3));
    assert(merged(d1) == ok_tasks(outcomes[1]) + merged(d2));
    assert(merged(outcomes) == ok_tasks(outcomes[0]) + merged(d1));
    if f == 0 {
        assert(merged(outcomes) =~= ok_tasks(outcomes[1]) + ok_tasks(outcomes[2]));
    } else if f == 1 {
        assert(merged(outcomes) =~= ok_tasks(outcomes[0]) + ok_tasks(outcomes[2]));
    } else {
        assert(merged(outcomes) =~= ok_tasks(outcomes[0]) + ok_tasks(outcomes[1]));
    }
}

/// When every source fails, the run has no tasks at all — a soft empty
/// result, not an error.
pub proof fn lemma_all_failed_empty(outcomes: Seq<Result<Vec<Task>, FetchError>>)
    requires
        forall|i: int| 0 <= i < outcomes.len() ==> (#[trigger] outcomes[i]) is Err,
    ensures
        merged(outcomes).len() == 0,
    decreases outcomes.len(),
{
    if outcomes.len() > 0 {
        lemma_all_failed_empty(outcomes.drop_first());
    }
}

} // verus!
