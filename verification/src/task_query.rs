//! Task counting, sorting and the flattened task tree shown by listings.

use vstd::prelude::*;
use crate::ids::TaskId;
use crate::model::{visible_in_view, SortMode, Space, SpaceCounts, SpaceView, Task, TaskView, ViewMode};
use crate::order::{lemma_lex_asymmetric, lemma_lex_irreflexive, lemma_lex_total, lemma_lex_transitive, sort_key, task_lt, task_precedes};
use crate::queries::{TaskListEntry, TaskListEntryView, TaskListResult};
use crate::util::views;

verus! {

/// Where `x` goes in `r`: before the first task that `x` sorts strictly
/// before, so that equal keys keep their arrival order.
pub open spec fn insert_pos(r: Seq<TaskView>, x: TaskView, sort: SortMode) -> int
    decreases r.len(),
{
    if r.len() == 0 {
        0
    } else if task_lt(x, r[0], sort) {
        0
    } else {
        1 + insert_pos(r.drop_first(), x, sort)
    }
}

pub open spec fn insert_sorted(r: Seq<TaskView>, x: TaskView, sort: SortMode) -> Seq<TaskView> {
    r.insert(insert_pos(r, x, sort), x)
}

/// The stable insertion sort of `s` under `sort`.
pub open spec fn sort_tasks_spec(s: Seq<TaskView>, sort: SortMode) -> Seq<TaskView>
    decreases s.len(),
{
    if s.len() == 0 {
        s
    } else {
        insert_sorted(sort_tasks_spec(s.drop_last(), sort), s.last(), sort)
    }
}

proof fn lemma_insert_pos_is(r: Seq<TaskView>, x: TaskView, sort: SortMode, p: int)
    requires
        0 <= p <= r.len(),
        forall|q: int| 0 <= q < p ==> !task_lt(x, #[trigger] r[q], sort),
        p < r.len() ==> task_lt(x, r[p], sort),
    ensures
        insert_pos(r, x, sort) == p,
    decreases p,
{
    if p > 0 {
        assert(!task_lt(x, r[0], sort));
        assert forall|q: int| 0 <= q < p - 1 implies !task_lt(x, #[trigger] r.drop_first()[q], sort) by {
            assert(r.drop_first()[q] == r[q + 1]);
        }
        lemma_insert_pos_is(r.drop_first(), x, sort, p - 1);
    }
}

proof fn lemma_insert_pos_bounds(r: Seq<TaskView>, x: TaskView, sort: SortMode)
    ensures
        0 <= insert_pos(r, x, sort) <= r.len(),
    decreases r.len(),
{
    if r.len() > 0 {
        lemma_insert_pos_bounds(r.drop_first(), x, sort);
    }
}

/// Sorts `tasks` under `sort`: by the mode's key, then creation time, then id.
pub fn sort_tasks_in_place(tasks: &mut Vec<Task>, sort: SortMode)
    ensures
        views(final(tasks)@) == sort_tasks_spec(views(old(tasks)@), sort),
        sort == SortMode::Status ==> forall|i: int, j: int|
            0 <= i < final(tasks)@.len() && 0 <= j < final(tasks)@.len()
            && (#[trigger] final(tasks)@[i])@.archived == (#[trigger] final(tasks)@[j])@.archived
            && crate::order::earlier_status(final(tasks)@[i]@.status, final(tasks)@[j]@.status) ==> i < j,
        forall|i: int, j: int| 0 <= i < final(tasks)@.len() && 0 <= j < final(tasks)@.len()
            && crate::order::first_by_sort((#[trigger] final(tasks)@[i])@, (#[trigger] final(tasks)@[j])@, sort) ==> i < j,
{
    let mut src: Vec<Task> = Vec::new();
    std::mem::swap(&mut src, tasks);
    let ghost sv = views(src@);
    let mut out: Vec<Task> = Vec::new();
    let n = src.len();
    let mut i: usize = 0;
    assert(sv.take(0) =~= Seq::<TaskView>::empty());
    assert(views(out@) =~= Seq::<TaskView>::empty());
    while i < n
        invariant
            n == src@.len(),
            sv == views(src@),
            i <= n,
            views(out@) == sort_tasks_spec(sv.take(i as int), sort),
        decreases n - i,
    {
        let x = src[i].clone();
        let ghost ov = views(out@);
        let m = out.len();
        let mut p: usize = 0;
        while p < m && !task_precedes(&x, &out[p], sort)
            invariant
                m == out@.len(),
                ov == views(out@),
                p <= m,
                forall|q: int| 0 <= q < p ==> !task_lt(x@, #[trigger] ov[q], sort),
            decreases m - p,
        {
            assert(ov[p as int] == out[p as int]@);
            p = p + 1;
        }
        proof {
            if p < m {
                assert(ov[p as int] == out[p as int]@);
            }
            lemma_insert_pos_is(ov, x@, sort, p as int);
            assert(sv.take(i + 1).drop_last() =~= sv.take(i as int));
            assert(sv.take(i + 1).last() == x@);
        }
        out.insert(p, x);
        assert(views(out@) =~= ov.insert(p as int, sv[i as int]));
        i = i + 1;
    }
    assert(sv.take(n as int) =~= sv);
    *tasks = out;
    proof {
        if sort == SortMode::Status {
            let r = views(tasks@);
            assert forall|i: int, j: int|
                0 <= i < tasks@.len() && 0 <= j < tasks@.len()
                && (#[trigger] tasks@[i])@.archived == (#[trigger] tasks@[j])@.archived
                && crate::order::earlier_status(tasks@[i]@.status, tasks@[j]@.status) implies i < j by {
                assert(r[i] == tasks@[i]@ && r[j] == tasks@[j]@);
                law_status_listing_follows_progress(sv, i, j);
            }
        }
        let r = views(tasks@);
        assert forall|i: int, j: int| 0 <= i < tasks@.len() && 0 <= j < tasks@.len()
            && crate::order::first_by_sort((#[trigger] tasks@[i])@, (#[trigger] tasks@[j])@, sort) implies i < j by {
            assert(r[i] == tasks@[i]@ && r[j] == tasks@[j]@);
            law_sorted_listing_follows_first_key(sv, sort, i, j);
        }
    }
}

/// `s` is ordered: no later task sorts strictly before an earlier one.
pub open spec fn is_sorted_by(s: Seq<TaskView>, sort: SortMode) -> bool {
    forall|i: int, j: int| 0 <= i < j < s.len() ==> !task_lt(#[trigger] s[j], #[trigger] s[i], sort)
}

/// Law: in any sorted listing, a task that goes first by what the sort
/// looks at first (oldest creation, newest update, lowest manual position,
/// or live and earlier in progress) is listed before the other.
pub proof fn law_sorted_listing_follows_first_key(s: Seq<TaskView>, sort: SortMode, i: int, j: int)
    requires
        0 <= i < sort_tasks_spec(s, sort).len(),
        0 <= j < sort_tasks_spec(s, sort).len(),
        crate::order::first_by_sort(sort_tasks_spec(s, sort)[i], sort_tasks_spec(s, sort)[j], sort),
    ensures
        i < j,
{
    let r = sort_tasks_spec(s, sort);
    law_sort_tasks_sorted_permutation(s, sort);
    crate::order::law_sort_follows_its_first_key(r[i], r[j], sort);
    if j <= i {
        if j == i {
            crate::order::lemma_lex_irreflexive(sort_key(r[i], sort));
        } else {
            assert(!task_lt(r[i], r[j], sort));
        }
    }
}

/// Law: a listing sorted by status shows, among live tasks (or among
/// archived ones), every task earlier in progress before every task later
/// in progress: todo, then in progress, then done, then closed.
pub proof fn law_status_listing_follows_progress(s: Seq<TaskView>, i: int, j: int)
    requires
        0 <= i < sort_tasks_spec(s, SortMode::Status).len(),
        0 <= j < sort_tasks_spec(s, SortMode::Status).len(),
        sort_tasks_spec(s, SortMode::Status)[i].archived == sort_tasks_spec(s, SortMode::Status)[j].archived,
        crate::order::earlier_status(sort_tasks_spec(s, SortMode::Status)[i].status, sort_tasks_spec(s, SortMode::Status)[j].status),
    ensures
        i < j,
{
    let r = sort_tasks_spec(s, SortMode::Status);
    law_sort_tasks_sorted_permutation(s, SortMode::Status);
    crate::order::law_status_sort_follows_progress(r[i], r[j]);
    if j < i {
        assert(!task_lt(r[i], r[j], SortMode::Status));
    }
}

proof fn lemma_insert_sorted_keeps_order(r: Seq<TaskView>, x: TaskView, sort: SortMode)
    requires
        is_sorted_by(r, sort),
    ensures
        is_sorted_by(insert_sorted(r, x, sort), sort),
{
    let p = insert_pos(r, x, sort);
    lemma_insert_pos_bounds(r, x, sort);
    lemma_insert_pos_facts(r, x, sort);
    let t = insert_sorted(r, x, sort);
    assert forall|i: int, j: int| 0 <= i < j < t.len() implies !task_lt(#[trigger] t[j], #[trigger] t[i], sort) by {
        let ki = sort_key(t[i], sort);
        let kj = sort_key(t[j], sort);
        if i == p {
            // t[i] == x and t[j] == r[j - 1] with j - 1 >= p
            let kp = sort_key(r[p], sort);
            assert(t[i] == x);
            assert(t[j] == r[j - 1]);
            lemma_lex_asymmetric(sort_key(x, sort), kp);
            if j - 1 > p {
                assert(!task_lt(r[j - 1], r[p], sort));
                lemma_lex_transitive(kj, sort_key(x, sort), kp);
            }
        } else if j == p {
            assert(t[j] == x);
            assert(t[i] == r[i]);
            assert(!task_lt(x, r[i], sort));
        } else {
            let ri = if i < p { i } else { i - 1 };
            let rj = if j < p { j } else { j - 1 };
            assert(t[i] == r[ri] && t[j] == r[rj]);
        }
    }
}

proof fn lemma_insert_pos_facts(r: Seq<TaskView>, x: TaskView, sort: SortMode)
    ensures
        forall|q: int| 0 <= q < insert_pos(r, x, sort) ==> !task_lt(x, #[trigger] r[q], sort),
        insert_pos(r, x, sort) < r.len() ==> task_lt(x, r[insert_pos(r, x, sort)], sort),
    decreases r.len(),
{
    lemma_insert_pos_bounds(r, x, sort);
    if r.len() > 0 && !task_lt(x, r[0], sort) {
        lemma_insert_pos_facts(r.drop_first(), x, sort);
        lemma_insert_pos_bounds(r.drop_first(), x, sort);
        let k = insert_pos(r.drop_first(), x, sort);
        if k < r.drop_first().len() {
            assert(r[k + 1] == r.drop_first()[k]);
        }
        assert forall|q: int| 0 <= q < insert_pos(r, x, sort) implies !task_lt(x, #[trigger] r[q], sort) by {
            if q > 0 {
                assert(r[q] == r.drop_first()[q - 1]);
            }
        }
    }
}

/// Law: the task sort yields an ordered list holding the same tasks.
pub proof fn law_sort_tasks_sorted_permutation(s: Seq<TaskView>, sort: SortMode)
    ensures
        is_sorted_by(sort_tasks_spec(s, sort), sort),
        sort_tasks_spec(s, sort).to_multiset() == s.to_multiset(),
    decreases s.len(),
{
    broadcast use vstd::seq_lib::group_to_multiset_ensures;
    if s.len() > 0 {
        law_sort_tasks_sorted_permutation(s.drop_last(), sort);
        let r = sort_tasks_spec(s.drop_last(), sort);
        lemma_insert_sorted_keeps_order(r, s.last(), sort);
        lemma_insert_pos_bounds(r, s.last(), sort);
        let p = insert_pos(r, s.last(), sort);
        let t = r.insert(p, s.last());
        assert(t.remove(p) =~= r);
        assert(s.drop_last().push(s.last()) =~= s);
        assert(t.to_multiset().remove(s.last()) == r.to_multiset());
        assert(t.to_multiset().count(s.last()) > 0) by {
            assert(t[p] == s.last());
            assert(t.contains(s.last()));
        }
        assert(t.to_multiset() =~= r.to_multiset().insert(s.last()));
    } else {
        assert(s.to_multiset() =~= vstd::multiset::Multiset::<TaskView>::empty());
    }
}

// ---------------------------------------------------------------------------
// Counts

pub open spec fn live_task() -> spec_fn(TaskView) -> bool {
    |t: TaskView| !t.archived
}

pub open spec fn archived_task() -> spec_fn(TaskView) -> bool {
    |t: TaskView| t.archived
}

/// How many of the tasks are live and how many archived.
pub fn derive_space_counts(tasks: &[Task]) -> (r: SpaceCounts)
    ensures
        r.todo_tasks == views(tasks@).filter(live_task()).len(),
        r.archived_tasks == views(tasks@).filter(archived_task()).len(),
{
    let ghost tv = views(tasks@);
    let n = tasks.len();
    let mut todo: usize = 0;
    let mut archived: usize = 0;
    let mut i: usize = 0;
    proof {
        reveal_with_fuel(Seq::<_>::filter, 1);
        assert(tv.take(0) =~= Seq::<TaskView>::empty());
    }
    while i < n
        invariant
            n == tasks@.len(),
            tv == views(tasks@),
            i <= n,
            todo == tv.take(i as int).filter(live_task()).len(),
            archived == tv.take(i as int).filter(archived_task()).len(),
            todo + archived == i,
        decreases n - i,
    {
        proof {
            reveal_with_fuel(Seq::<_>::filter, 1);
            assert(tv.take(i + 1).drop_last() =~= tv.take(i as int));
            assert(tv.take(i + 1).last() == tv[i as int]);
        }
        if tasks[i].archived {
            archived = archived + 1;
        } else {
            todo = todo + 1;
        }
        i = i + 1;
    }
    assert(tv.take(n as int) =~= tv);
    SpaceCounts { todo_tasks: todo, archived_tasks: archived }
}

/// Law: every task is counted once, as live or as archived.
pub proof fn law_counts_add_up(tasks: Seq<TaskView>)
    ensures
        tasks.filter(live_task()).len() + tasks.filter(archived_task()).len() == tasks.len(),
    decreases tasks.len(),
{
    reveal_with_fuel(Seq::<_>::filter, 1);
    if tasks.len() > 0 {
        law_counts_add_up(tasks.drop_last());
    }
}

// ---------------------------------------------------------------------------
// The task tree of a listing

pub open spec fn visible_filter(view: ViewMode) -> spec_fn(TaskView) -> bool {
    |t: TaskView| visible_in_view(t.archived, view)
}

/// The tasks a view shows, in their order.
pub open spec fn visible_tasks(tasks: Seq<TaskView>, view: ViewMode) -> Seq<TaskView> {
    tasks.filter(visible_filter(view))
}

pub open spec fn has_id(vis: Seq<TaskView>, id: Seq<char>) -> bool {
    exists|j: int| 0 <= j < vis.len() && vis[j].id == id
}

/// Where a shown task hangs in the tree: under its parent when the parent
/// is shown too, else at the top.
pub open spec fn parent_key(vis: Seq<TaskView>, t: TaskView) -> Option<Seq<char>> {
    match t.parent_id {
        Some(p) => if has_id(vis, p) { Some(p) } else { None },
        None => None,
    }
}

pub open spec fn keyed(vis: Seq<TaskView>, key: Option<Seq<char>>) -> spec_fn(TaskView) -> bool {
    |t: TaskView| parent_key(vis, t) == key
}

/// The shown tasks under `key`, sorted.
pub open spec fn group(vis: Seq<TaskView>, sort: SortMode, key: Option<Seq<char>>) -> Seq<TaskView> {
    sort_tasks_spec(vis.filter(keyed(vis, key)), sort)
}

/// The entries of a list of siblings: each sibling followed by its own
/// subtree, going at most `fuel` levels further down.
pub open spec fn flat(vis: Seq<TaskView>, sort: SortMode, sibs: Seq<TaskView>, depth: nat, fuel: nat) -> Seq<TaskListEntryView>
    decreases fuel, sibs.len() + 1,
{
    if sibs.len() == 0 {
        Seq::empty()
    } else {
        piece(vis, sort, sibs[0], depth, fuel) + flat(vis, sort, sibs.drop_first(), depth, fuel)
    }
}

/// The entry of one task and, below it, the entries of its subtree.
pub open spec fn piece(vis: Seq<TaskView>, sort: SortMode, t: TaskView, depth: nat, fuel: nat) -> Seq<TaskListEntryView>
    decreases fuel, 0nat,
{
    let kids = group(vis, sort, Some(t.id));
    seq![TaskListEntryView { task: t, depth, child_count: kids.len() }] + if fuel == 0 {
        Seq::empty()
    } else {
        flat(vis, sort, kids, depth + 1, (fuel - 1) as nat)
    }
}

/// The entries of a listing: the shown top-level tasks, each followed by its
/// subtree, depth first.
pub open spec fn task_list_entries(tasks: Seq<TaskView>, view: ViewMode, sort: SortMode) -> Seq<TaskListEntryView> {
    let vis = visible_tasks(tasks, view);
    flat(vis, sort, group(vis, sort, None), 0, vis.len())
}

proof fn lemma_flat_push(vis: Seq<TaskView>, sort: SortMode, s: Seq<TaskView>, x: TaskView, depth: nat, fuel: nat)
    ensures
        flat(vis, sort, s.push(x), depth, fuel) == flat(vis, sort, s, depth, fuel) + piece(vis, sort, x, depth, fuel),
    decreases s.len(),
{
    if s.len() == 0 {
        assert(s.push(x).drop_first() =~= Seq::<TaskView>::empty());
        assert(s.push(x)[0] == x);
        assert(flat(vis, sort, s.push(x).drop_first(), depth, fuel) == Seq::<TaskListEntryView>::empty());
        assert(flat(vis, sort, s, depth, fuel) == Seq::<TaskListEntryView>::empty());
        assert(flat(vis, sort, s.push(x), depth, fuel) =~= piece(vis, sort, x, depth, fuel));
    } else {
        assert(s.push(x).drop_first() =~= s.drop_first().push(x));
        assert(s.push(x)[0] == s[0]);
        lemma_flat_push(vis, sort, s.drop_first(), x, depth, fuel);
        assert(flat(vis, sort, s.push(x), depth, fuel) =~= flat(vis, sort, s, depth, fuel) + piece(vis, sort, x, depth, fuel));
    }
}

fn visible_tasks_of(tasks: &Vec<Task>, view: ViewMode) -> (r: Vec<Task>)
    ensures
        views(r@) == visible_tasks(views(tasks@), view),
{
    let ghost tv = views(tasks@);
    let ghost pred = visible_filter(view);
    let mut out: Vec<Task> = Vec::new();
    let n = tasks.len();
    let mut i: usize = 0;
    proof {
        reveal_with_fuel(Seq::<_>::filter, 1);
        assert(tv.take(0) =~= Seq::<TaskView>::empty());
    }
    while i < n
        invariant
            n == tasks@.len(),
            tv == views(tasks@),
            pred == visible_filter(view),
            i <= n,
            views(out@) == tv.take(i as int).filter(pred),
        decreases n - i,
    {
        proof {
            reveal_with_fuel(Seq::<_>::filter, 1);
            assert(tv.take(i + 1).drop_last() =~= tv.take(i as int));
            assert(tv.take(i + 1).last() == tv[i as int]);
        }
        if tasks[i].is_visible_in_view(view) {
            let t = tasks[i].clone();
            let ghost before = views(out@);
            out.push(t);
            assert(views(out@) =~= before.push(tv[i as int]));
        }
        i = i + 1;
    }
    assert(tv.take(n as int) =~= tv);
    out
}

fn has_visible_id(vis: &Vec<Task>, id: &TaskId) -> (r: bool)
    ensures
        r == has_id(views(vis@), id@),
{
    let n = vis.len();
    let mut j: usize = 0;
    while j < n
        invariant
            n == vis@.len(),
            j <= n,
            forall|k: int| 0 <= k < j ==> vis@[k]@.id != id@,
        decreases n - j,
    {
        if vis[j].id.0 == id.0 {
            assert(views(vis@)[j as int].id == id@);
            return true;
        }
        j = j + 1;
    }
    proof {
        if has_id(views(vis@), id@) {
            let k = choose|k: int| 0 <= k < views(vis@).len() && views(vis@)[k].id == id@;
            assert(vis@[k]@.id == id@);
        }
    }
    false
}

fn key_matches(vis: &Vec<Task>, t: &Task, key: &Option<TaskId>) -> (r: bool)
    ensures
        r == (parent_key(views(vis@), t@) == crate::util::opt_view(*key)),
{
    match &t.parent_id {
        Some(p) => {
            if has_visible_id(vis, p) {
                match key {
                    Some(k) => p.0 == k.0,
                    None => false,
                }
            } else {
                key.is_none()
            }
        },
        None => key.is_none(),
    }
}

/// The shown tasks under `key`, sorted.
fn group_for(vis: &Vec<Task>, key: &Option<TaskId>, sort: SortMode) -> (r: Vec<Task>)
    ensures
        views(r@) == group(views(vis@), sort, crate::util::opt_view(*key)),
{
    let ghost tv = views(vis@);
    let ghost pred = keyed(tv, crate::util::opt_view(*key));
    let mut out: Vec<Task> = Vec::new();
    let n = vis.len();
    let mut i: usize = 0;
    proof {
        reveal_with_fuel(Seq::<_>::filter, 1);
        assert(tv.take(0) =~= Seq::<TaskView>::empty());
    }
    while i < n
        invariant
            n == vis@.len(),
            tv == views(vis@),
            pred == keyed(tv, crate::util::opt_view(*key)),
            i <= n,
            views(out@) == tv.take(i as int).filter(pred),
        decreases n - i,
    {
        proof {
            reveal_with_fuel(Seq::<_>::filter, 1);
            assert(tv.take(i + 1).drop_last() =~= tv.take(i as int));
            assert(tv.take(i + 1).last() == tv[i as int]);
        }
        if key_matches(vis, &vis[i], key) {
            let t = vis[i].clone();
            let ghost before = views(out@);
            out.push(t);
            assert(views(out@) =~= before.push(tv[i as int]));
        }
        i = i + 1;
    }
    assert(tv.take(n as int) =~= tv);
    sort_tasks_in_place(&mut out, sort);
    out
}

fn flatten_children(vis: &Vec<Task>, sort: SortMode, sibs: &Vec<Task>, depth: usize, fuel: usize, entries: &mut Vec<TaskListEntry>)
    requires
        depth + fuel <= usize::MAX,
    ensures
        views(final(entries)@) == views(old(entries)@) + flat(views(vis@), sort, views(sibs@), depth as nat, fuel as nat),
    decreases fuel,
{
    let ghost tv = views(vis@);
    let ghost sv = views(sibs@);
    let ghost start = views(entries@);
    let n = sibs.len();
    let mut i: usize = 0;
    assert(sv.take(0) =~= Seq::<TaskView>::empty());
    assert(views(entries@) =~= start + flat(tv, sort, sv.take(0), depth as nat, fuel as nat));
    while i < n
        invariant
            n == sibs@.len(),
            tv == views(vis@),
            sv == views(sibs@),
            depth + fuel <= usize::MAX,
            i <= n,
            views(entries@) == start + flat(tv, sort, sv.take(i as int), depth as nat, fuel as nat),
        decreases n - i,
    {
        let t = &sibs[i];
        let kids = group_for(vis, &Some(t.id.clone()), sort);
        let ghost before = views(entries@);
        entries.push(TaskListEntry { task: t.clone(), depth, child_count: kids.len() });
        let ghost head = seq![TaskListEntryView { task: sv[i as int], depth: depth as nat, child_count: views(kids@).len() }];
        assert(views(entries@) =~= before + head);
        if fuel > 0 {
            flatten_children(vis, sort, &kids, depth + 1, fuel - 1, entries);
        }
        proof {
            lemma_flat_push(tv, sort, sv.take(i as int), sv[i as int], depth as nat, fuel as nat);
            assert(sv.take(i + 1) =~= sv.take(i as int).push(sv[i as int]));
            assert(views(entries@) =~= start + flat(tv, sort, sv.take(i + 1), depth as nat, fuel as nat));
        }
        i = i + 1;
    }
    assert(sv.take(n as int) =~= sv);
}

/// The listing of a space under a view and a sort: the shown tasks as a
/// tree, each entry with its depth and its number of shown children.
pub fn build_task_list(space: Space, tasks: Vec<Task>, view: ViewMode, sort: SortMode) -> (r: TaskListResult)
    ensures
        r.space@ == space@,
        r.view == view,
        r.sort == sort,
        views(r.entries@) == task_list_entries(views(tasks@), view, sort),
{
    let vis = visible_tasks_of(&tasks, view);
    let top = group_for(&vis, &None, sort);
    let mut entries: Vec<TaskListEntry> = Vec::new();
    assert(views(entries@) =~= Seq::<TaskListEntryView>::empty());
    let fuel = vis.len();
    flatten_children(&vis, sort, &top, 0, fuel, &mut entries);
    assert(views(entries@) =~= task_list_entries(views(tasks@), view, sort));
    TaskListResult { space, view, sort, entries }
}

} // verus!
