//! Where the tasks of a listing come from: every task a listing or the
//! task tree shows is a stored task of the repository.

use vstd::prelude::*;
use crate::model::{SortMode, TaskView, ViewMode};
use crate::queries::TaskListEntryView;
use crate::repository::{all_tasks, space_index, RepoView};
use crate::space_service::space_tasks;
use crate::task_query::{flat, group, keyed, law_sort_tasks_sorted_permutation, piece, sort_tasks_spec, task_list_entries, visible_tasks};
use crate::tree_view::{visible_scan, VisibleTaskEntryView};

verus! {

/// Every task of `s` is a task of `pool`.
pub open spec fn tasks_within(s: Seq<TaskView>, pool: Seq<TaskView>) -> bool {
    forall|i: int| 0 <= i < s.len() ==> pool.contains(#[trigger] s[i])
}

proof fn lemma_filter_within(s: Seq<TaskView>, f: spec_fn(TaskView) -> bool, pool: Seq<TaskView>)
    requires
        tasks_within(s, pool),
    ensures
        tasks_within(s.filter(f), pool),
{
    assert forall|i: int| 0 <= i < s.filter(f).len() implies pool.contains(#[trigger] s.filter(f)[i]) by {
        let x = s.filter(f)[i];
        assert(s.filter(f).contains(x));
        s.lemma_filter_contains_rev(f, x);
        let j = choose|j: int| 0 <= j < s.len() && s[j] == x;
        assert(pool.contains(s[j]));
    }
}

proof fn lemma_sort_within(s: Seq<TaskView>, sort: SortMode, pool: Seq<TaskView>)
    requires
        tasks_within(s, pool),
    ensures
        tasks_within(sort_tasks_spec(s, sort), pool),
{
    broadcast use vstd::seq_lib::group_to_multiset_ensures;
    law_sort_tasks_sorted_permutation(s, sort);
    let t = sort_tasks_spec(s, sort);
    assert forall|i: int| 0 <= i < t.len() implies pool.contains(#[trigger] t[i]) by {
        assert(t.contains(t[i]));
        assert(t.to_multiset().count(t[i]) > 0);
        assert(s.to_multiset().count(t[i]) > 0);
        let j = choose|j: int| 0 <= j < s.len() && s[j] == t[i];
        assert(pool.contains(s[j]));
    }
}

proof fn lemma_flat_within(vis: Seq<TaskView>, sort: SortMode, sibs: Seq<TaskView>, depth: nat, fuel: nat, pool: Seq<TaskView>)
    requires
        tasks_within(vis, pool),
        tasks_within(sibs, pool),
    ensures
        forall|i: int| 0 <= i < flat(vis, sort, sibs, depth, fuel).len()
            ==> pool.contains(#[trigger] flat(vis, sort, sibs, depth, fuel)[i].task),
    decreases fuel, sibs.len(),
{
    if sibs.len() > 0 {
        let t = sibs[0];
        assert(pool.contains(sibs[0]));
        let kids = group(vis, sort, Some(t.id));
        lemma_filter_within(vis, keyed(vis, Some(t.id)), pool);
        lemma_sort_within(vis.filter(keyed(vis, Some(t.id))), sort, pool);
        let below = if fuel == 0 { Seq::<TaskListEntryView>::empty() } else { flat(vis, sort, kids, depth + 1, (fuel - 1) as nat) };
        if fuel > 0 {
            lemma_flat_within(vis, sort, kids, depth + 1, (fuel - 1) as nat, pool);
        }
        let rest_sibs = sibs.drop_first();
        assert(tasks_within(rest_sibs, pool)) by {
            assert forall|i: int| 0 <= i < rest_sibs.len() implies pool.contains(#[trigger] rest_sibs[i]) by {
                assert(rest_sibs[i] == sibs[i + 1]);
            }
        }
        lemma_flat_within(vis, sort, rest_sibs, depth, fuel, pool);
        let head = piece(vis, sort, t, depth, fuel);
        let rest = flat(vis, sort, rest_sibs, depth, fuel);
        let all = flat(vis, sort, sibs, depth, fuel);
        assert(all == head + rest);
        assert(head == seq![TaskListEntryView { task: t, depth, child_count: kids.len() }] + below);
        assert forall|i: int| 0 <= i < all.len() implies pool.contains(#[trigger] all[i].task) by {
            if i < head.len() {
                if i > 0 {
                    assert(head[i] == below[i - 1]);
                }
            } else {
                assert(all[i] == rest[i - head.len()]);
            }
        }
    }
}

/// Every entry of a listing is one of the listed tasks.
pub proof fn lemma_listing_within(tasks: Seq<TaskView>, view: ViewMode, sort: SortMode)
    ensures
        forall|i: int| 0 <= i < task_list_entries(tasks, view, sort).len()
            ==> tasks.contains(#[trigger] task_list_entries(tasks, view, sort)[i].task),
{
    assert(tasks_within(tasks, tasks)) by {
        assert forall|i: int| 0 <= i < tasks.len() implies tasks.contains(#[trigger] tasks[i]) by {}
    }
    let vis = visible_tasks(tasks, view);
    lemma_filter_within(tasks, crate::task_query::visible_filter(view), tasks);
    lemma_filter_within(vis, keyed(vis, None), tasks);
    lemma_sort_within(vis.filter(keyed(vis, None)), sort, tasks);
    lemma_flat_within(vis, sort, group(vis, sort, None), 0, vis.len(), tasks);
}

/// The rows of the task tree are entries of the listing it was built from.
pub proof fn lemma_visible_within(entries: Seq<TaskListEntryView>, expanded: Set<Seq<char>>)
    ensures
        forall|i: int| 0 <= i < visible_scan(entries, expanded).0.len()
            ==> exists|k: int| 0 <= k < entries.len() && entries[k].task == (#[trigger] visible_scan(entries, expanded).0[i]).task,
    decreases entries.len(),
{
    if entries.len() > 0 {
        let init = entries.drop_last();
        lemma_visible_within(init, expanded);
        let prev = visible_scan(init, expanded).0;
        let cur = visible_scan(entries, expanded).0;
        assert forall|i: int| 0 <= i < cur.len()
            implies exists|k: int| 0 <= k < entries.len() && entries[k].task == (#[trigger] cur[i]).task by {
            if i < prev.len() {
                assert(cur[i] == prev[i]);
                let k = choose|k: int| 0 <= k < init.len() && init[k].task == prev[i].task;
                assert(entries[k] == init[k]);
            } else {
                assert(cur[i].task == entries[entries.len() - 1].task);
            }
        }
    }
}

/// The tasks of a listed space are listed tasks of the repository.
pub proof fn lemma_space_tasks_within(repo: RepoView, sid: Seq<char>)
    requires
        space_index(repo.spaces, sid) >= 0,
    ensures
        tasks_within(space_tasks(repo, sid), all_tasks(repo)),
{
    let st = space_tasks(repo, sid);
    let recs = crate::repository::records_in_space(repo.records, sid);
    let t = repo.records.filter(crate::repository::in_space_bucket(sid, crate::repository::TaskBucket::Todo));
    let b = repo.records.filter(crate::repository::in_space_bucket(sid, crate::repository::TaskBucket::Archive));
    assert forall|i: int| 0 <= i < st.len() implies all_tasks(repo).contains(#[trigger] st[i]) by {
        let x = recs[i];
        assert(st[i] == x.task);
        if i < t.len() {
            assert(t.contains(x));
            repo.records.lemma_filter_contains_rev(crate::repository::in_space_bucket(sid, crate::repository::TaskBucket::Todo), x);
        } else {
            assert(x == b[i - t.len()]);
            assert(b.contains(x));
            repo.records.lemma_filter_contains_rev(crate::repository::in_space_bucket(sid, crate::repository::TaskBucket::Archive), x);
        }
        assert(x.task.space_id == sid);
        let k = choose|k: int| 0 <= k < repo.records.len() && repo.records[k] == x;
        assert(crate::lifecycle::listed(repo, k));
        crate::lifecycle::lemma_listed_tasks(repo, x.task);
    }
}


/// A listed task loads: its id resolves to a listed task of a listed space.
pub proof fn lemma_listed_task_loads(repo: RepoView, t: TaskView)
    requires
        all_tasks(repo).contains(t),
    ensures
        crate::task_service::task_found(all_tasks(repo), t.id) matches Ok(t2)
            && space_index(repo.spaces, t2.space_id) >= 0,
{
    let tasks = all_tasks(repo);
    let ids = crate::task_service::task_ids(tasks);
    let n = choose|n: int| 0 <= n < tasks.len() && tasks[n] == t;
    assert(ids[n] == t.id);
    assert(ids.contains(t.id));
    lemma_first_with(tasks, t.id, n);
    let t2 = crate::hierarchy::find_task(tasks, t.id)->0;
    let f = choose|f: int| crate::hierarchy::is_first_with(tasks, t.id, f);
    crate::hierarchy::lemma_find_task_at(tasks, t.id, f);
    assert(tasks.contains(tasks[f]));
    crate::lifecycle::lemma_listed_tasks(repo, t2);
}

proof fn lemma_first_with(tasks: Seq<TaskView>, id: Seq<char>, m: int)
    requires
        0 <= m < tasks.len(),
        tasks[m].id == id,
    ensures
        exists|f: int| crate::hierarchy::is_first_with(tasks, id, f),
    decreases m,
{
    if forall|g: int| 0 <= g < m ==> tasks[g].id != id {
        assert(crate::hierarchy::is_first_with(tasks, id, m));
    } else {
        let g = choose|g: int| 0 <= g < m && tasks[g].id == id;
        lemma_first_with(tasks, id, g);
    }
}

/// Every space a summary names is a stored space.
pub proof fn lemma_summaries_within(repo: RepoView, include_archived: bool)
    ensures
        forall|i: int| 0 <= i < crate::space_service::space_summaries(repo, include_archived).len()
            ==> space_index(repo.spaces, (#[trigger] crate::space_service::space_summaries(repo, include_archived)[i]).space.id) >= 0,
{
    let sorted = crate::space_query::sort_spaces_spec(repo.spaces);
    let f = crate::space_service::listed(include_archived);
    let kept = sorted.filter(f);
    crate::space_query::lemma_sort_spaces_members(repo.spaces);
    assert forall|i: int| 0 <= i < crate::space_service::space_summaries(repo, include_archived).len()
        implies space_index(repo.spaces, (#[trigger] crate::space_service::space_summaries(repo, include_archived)[i]).space.id) >= 0 by {
        let x = kept[i];
        assert(crate::space_service::space_summaries(repo, include_archived)[i].space == x);
        assert(kept.contains(x));
        sorted.lemma_filter_contains_rev(f, x);
        let j = choose|j: int| 0 <= j < sorted.len() && sorted[j] == x;
        assert(repo.spaces.contains(sorted[j]));
        let k = choose|k: int| 0 <= k < repo.spaces.len() && repo.spaces[k] == x;
        assert(repo.spaces[k].id == x.id);
    }
}

} // verus!
