//! The order in which tasks are listed.

use vstd::prelude::*;

use crate::task::TaskModel;

verus! {

/// The IDs of `order` under which `tasks` holds a task, in their order.
pub open spec fn remaining(order: Seq<Seq<char>>, tasks: Map<Seq<char>, TaskModel>) -> Seq<
    Seq<char>,
> {
    order.filter(|id: Seq<char>| tasks.contains_key(id))
}

/// The tasks of `list` that were created at `created` or before, in their order.
pub open spec fn no_later(list: Seq<TaskModel>, created: i64) -> Seq<TaskModel> {
    list.filter(|t: TaskModel| t.created <= created)
}

/// The tasks of `list` that were created after `created`, in their order.
pub open spec fn later(list: Seq<TaskModel>, created: i64) -> Seq<TaskModel> {
    list.filter(|t: TaskModel| t.created > created)
}

/// The tasks of `list` that were created at `created`, in their order.
pub open spec fn created_at(list: Seq<TaskModel>, created: i64) -> Seq<TaskModel> {
    list.filter(|t: TaskModel| t.created == created)
}

/// The tasks of `list` in the order of creation; those that were created at the same time stay in
/// their order.
pub open spec fn by_creation(list: Seq<TaskModel>) -> Seq<TaskModel>
    decreases list.len(),
{
    if list.len() == 0 {
        Seq::empty()
    } else {
        let sorted = by_creation(list.drop_last());
        let last = list.last();
        no_later(sorted, last.created).push(last) + later(sorted, last.created)
    }
}

/// Whether no task of `list` was created before one that stands further to the front.
pub open spec fn is_by_creation(list: Seq<TaskModel>) -> bool {
    forall|i: int, j: int| 0 <= i <= j < list.len() ==> list[i].created <= list[j].created
}

/// Whether `list` holds each task of `tasks` once, in the order of creation.
pub open spec fn is_listing(list: Seq<TaskModel>, tasks: Map<Seq<char>, TaskModel>) -> bool {
    &&& is_by_creation(list)
    &&& forall|i: int, j: int| 0 <= i < j < list.len() ==> list[i].id != list[j].id
    &&& forall|i: int|
        0 <= i < list.len() ==> tasks.contains_key(#[trigger] list[i].id) && tasks[list[i].id]
            == list[i]
    &&& forall|id: Seq<char>| #[trigger]
        tasks.contains_key(id) ==> exists|i: int| 0 <= i < list.len() && list[i].id == id
}

/// One more ID remains exactly where there is a task under it.
pub proof fn remaining_of_one_more(
    order: Seq<Seq<char>>,
    id: Seq<char>,
    tasks: Map<Seq<char>, TaskModel>,
)
    ensures
        remaining(order.push(id), tasks) == if tasks.contains_key(id) {
            remaining(order, tasks).push(id)
        } else {
            remaining(order, tasks)
        },
{
    reveal(Seq::filter);
    assert(order.push(id).drop_last() =~= order);
}

/// What remains is under a task, and remains again.
pub proof fn remaining_is_idempotent(order: Seq<Seq<char>>, tasks: Map<Seq<char>, TaskModel>)
    ensures
        forall|id: Seq<char>| #[trigger]
            remaining(order, tasks).contains(id) ==> tasks.contains_key(id),
        remaining(remaining(order, tasks), tasks) == remaining(order, tasks),
    decreases order.len(),
{
    reveal(Seq::filter);
    if order.len() > 0 {
        remaining_is_idempotent(order.drop_last(), tasks);
        let before = remaining(order.drop_last(), tasks);
        if tasks.contains_key(order.last()) {
            remaining_of_one_more(before, order.last(), tasks);
            assert forall|id: Seq<char>| #[trigger]
                remaining(order, tasks).contains(id) implies tasks.contains_key(id) by {
                if id != order.last() {
                    let i = remaining(order, tasks).index_of(id);
                    assert(before[i] == id);
                    assert(before.contains(id));
                }
            }
        }
    }
}

/// A list whose tasks up to `at` were created at `created` or before, and the others after, falls
/// apart at `at`.
proof fn lemma_split(list: Seq<TaskModel>, created: i64, at: int)
    requires
        0 <= at <= list.len(),
        forall|i: int| 0 <= i < at ==> (#[trigger] list[i]).created <= created,
        forall|i: int| at <= i < list.len() ==> (#[trigger] list[i]).created > created,
    ensures
        no_later(list, created) == list.take(at),
        later(list, created) == list.skip(at),
    decreases list.len(),
{
    reveal(Seq::filter);
    if list.len() > 0 {
        let init = list.drop_last();
        if at == list.len() {
            lemma_split(init, created, at - 1);
            assert(list.take(at) =~= init.take(at - 1).push(list.last()));
            assert(list.skip(at) =~= init.skip(at - 1));
        } else {
            lemma_split(init, created, at);
            assert(list.take(at) =~= init.take(at));
            assert(list.skip(at) =~= init.skip(at).push(list.last()));
        }
    } else {
        assert(list.take(at) =~= list);
        assert(list.skip(at) =~= list);
    }
}

/// Where the tasks of an ordered list that were created after `created` begin.
proof fn lemma_split_point(list: Seq<TaskModel>, created: i64) -> (at: int)
    requires
        is_by_creation(list),
    ensures
        0 <= at <= list.len(),
        forall|i: int| 0 <= i < at ==> (#[trigger] list[i]).created <= created,
        forall|i: int| at <= i < list.len() ==> (#[trigger] list[i]).created > created,
    decreases list.len(),
{
    if list.len() == 0 || list.last().created <= created {
        list.len() as int
    } else {
        let at = lemma_split_point(list.drop_last(), created);
        assert forall|i: int| 0 <= i < at implies (#[trigger] list[i]).created <= created by {
            assert(list[i] == list.drop_last()[i]);
        }
        assert forall|i: int| at <= i < list.len() implies (#[trigger] list[i]).created
            > created by {
            if i < list.len() - 1 {
                assert(list[i] == list.drop_last()[i]);
            }
        }
        at
    }
}

/// One more task goes behind those that were not created after it.
pub proof fn one_more_by_creation(list: Seq<TaskModel>, task: TaskModel, at: int)
    requires
        0 <= at <= by_creation(list).len(),
        forall|i: int| 0 <= i < at ==> (#[trigger] by_creation(list)[i]).created <= task.created,
        forall|i: int|
            at <= i < by_creation(list).len() ==> (#[trigger] by_creation(list)[i]).created
                > task.created,
    ensures
        by_creation(list.push(task)) == by_creation(list).insert(at, task),
{
    let sorted = by_creation(list);
    assert(list.push(task).drop_last() =~= list);
    lemma_split(sorted, task.created, at);
    assert(sorted.take(at).push(task) + sorted.skip(at) =~= sorted.insert(at, task));
}

/// [`by_creation`] orders a list by creation and keeps the order of tasks that were created at
/// the same time.
pub proof fn by_creation_is_stable(list: Seq<TaskModel>)
    ensures
        is_by_creation(by_creation(list)),
        forall|created: i64| #[trigger]
            created_at(by_creation(list), created) == created_at(list, created),
    decreases list.len(),
{
    if list.len() > 0 {
        let init = list.drop_last();
        let last = list.last();
        let sorted = by_creation(init);
        by_creation_is_stable(init);
        let at = lemma_split_point(sorted, last.created);
        assert(list =~= init.push(last));
        one_more_by_creation(init, last, at);
        assert forall|created: i64| #[trigger]
            created_at(by_creation(list), created) == created_at(list, created) by {
            let same = |t: TaskModel| t.created == created;
            let front = sorted.take(at);
            let back = sorted.skip(at);
            assert(by_creation(list) =~= front + seq![last] + back);
            assert(sorted =~= front + back);
            assert(list =~= init + seq![last]);
            Seq::filter_distributes_over_add(front + seq![last], back, same);
            Seq::filter_distributes_over_add(front, seq![last], same);
            Seq::filter_distributes_over_add(front, back, same);
            Seq::filter_distributes_over_add(init, seq![last], same);
            assert(created_at(sorted, created) == created_at(init, created));
            reveal(Seq::filter);
            assert(seq![last].drop_last() =~= Seq::empty());
            if last.created == created {
                if back.filter(same).len() > 0 {
                    back.lemma_filter_pred(same, 0);
                    lemma_filter_of(back, same, 0);
                }
                assert(back.filter(same) =~= Seq::empty());
                assert(seq![last].filter(same) =~= seq![last]);
            } else {
                assert(seq![last].filter(same) =~= Seq::empty());
            }
            assert(by_creation(list).filter(same) =~= list.filter(same));
        }
    }
}

/// What is left of a list comes from it.
proof fn lemma_filter_of(list: Seq<TaskModel>, pred: spec_fn(TaskModel) -> bool, i: int)
    requires
        0 <= i < list.filter(pred).len(),
    ensures
        list.contains(list.filter(pred)[i]),
    decreases list.len(),
{
    reveal(Seq::filter);
    if list.len() > 0 {
        let init = list.drop_last();
        if i < init.filter(pred).len() {
            lemma_filter_of(init, pred, i);
            let j = init.index_of(init.filter(pred)[i]);
            assert(list[j] == list.filter(pred)[i]);
        } else {
            assert(list[list.len() - 1] == list.filter(pred)[i]);
        }
    }
}

/// [`by_creation`] keeps every task of a list, and repeats none.
pub proof fn by_creation_keeps_the_tasks(list: Seq<TaskModel>)
    ensures
        by_creation(list).len() == list.len(),
        forall|t: TaskModel| #[trigger] by_creation(list).contains(t) <==> list.contains(t),
        list.no_duplicates() ==> by_creation(list).no_duplicates(),
    decreases list.len(),
{
    if list.len() > 0 {
        let init = list.drop_last();
        let last = list.last();
        let sorted = by_creation(init);
        by_creation_keeps_the_tasks(init);
        by_creation_is_stable(init);
        let at = lemma_split_point(sorted, last.created);
        assert(list =~= init.push(last));
        one_more_by_creation(init, last, at);
        let all = by_creation(list);
        assert(all == sorted.insert(at, last));
        assert forall|t: TaskModel| #[trigger] all.contains(t) <==> list.contains(t) by {
            if all.contains(t) {
                let i = all.index_of(t);
                if i == at {
                    assert(list[list.len() - 1] == t);
                } else {
                    let h = if i < at {
                        i
                    } else {
                        i - 1
                    };
                    assert(sorted[h] == t);
                    assert(sorted.contains(t));
                    let j = init.index_of(t);
                    assert(list[j] == t);
                }
            }
            if list.contains(t) {
                if t == last {
                    assert(all[at] == t);
                } else {
                    let j = list.index_of(t);
                    assert(init[j] == t);
                    assert(sorted.contains(t));
                    let h = sorted.index_of(t);
                    let i = if h < at {
                        h
                    } else {
                        h + 1
                    };
                    assert(all[i] == t);
                }
            }
        }
        if list.no_duplicates() {
            assert(init.no_duplicates());
            if sorted.contains(last) {
                let j = init.index_of(last);
                assert(list[j] == list[list.len() - 1]);
            }
            assert forall|i: int, j: int| 0 <= i < j < all.len() implies all[i] != all[j] by {
                let h = if i < at {
                    i
                } else {
                    i - 1
                };
                let k = if j < at {
                    j
                } else {
                    j - 1
                };
                if i == at {
                    assert(all[j] == sorted[k]);
                    assert(sorted.contains(sorted[k]));
                } else if j == at {
                    assert(all[i] == sorted[h]);
                    assert(sorted.contains(sorted[h]));
                } else {
                    assert(all[i] == sorted[h] && all[j] == sorted[k]);
                }
            }
        }
    }
}

} // verus!
