//! The parent/child structure of tasks: lookups, subtrees, ancestors and
//! the next free position among siblings.

use vstd::prelude::*;
use vstd::set_lib::*;
use crate::ids::{SpaceId, TaskId};
use crate::model::{Task, TaskView};
use crate::util::{opt_view, views};

verus! {

// ---------------------------------------------------------------------------
// Lookup by id

/// `i` is the first position of a task with the id.
pub open spec fn is_first_with(tasks: Seq<TaskView>, id: Seq<char>, i: int) -> bool {
    &&& 0 <= i < tasks.len()
    &&& tasks[i].id == id
    &&& forall|j: int| 0 <= j < i ==> tasks[j].id != id
}

/// The first task with the id, if any.
pub open spec fn find_task(tasks: Seq<TaskView>, id: Seq<char>) -> Option<TaskView> {
    if exists|i: int| is_first_with(tasks, id, i) {
        Some(tasks[choose|i: int| is_first_with(tasks, id, i)])
    } else {
        None
    }
}

pub proof fn lemma_find_task_at(tasks: Seq<TaskView>, id: Seq<char>, i: int)
    requires
        is_first_with(tasks, id, i),
    ensures
        find_task(tasks, id) == Some(tasks[i]),
{
    let k = choose|k: int| is_first_with(tasks, id, k);
    assert(is_first_with(tasks, id, k));
    if k < i {
        assert(tasks[k].id != id);
    } else if i < k {
        assert(tasks[i].id != id);
    }
}

pub proof fn lemma_find_task_none(tasks: Seq<TaskView>, id: Seq<char>)
    requires
        forall|j: int| 0 <= j < tasks.len() ==> tasks[j].id != id,
    ensures
        find_task(tasks, id) is None,
{
}

/// The position of the first task with the id.
pub fn find_task_index(tasks: &[Task], id: &TaskId) -> (r: Option<usize>)
    ensures
        match r {
            Some(i) => is_first_with(views(tasks@), id@, i as int),
            None => forall|j: int| 0 <= j < tasks@.len() ==> tasks@[j]@.id != id@,
        },
        match r {
            Some(i) => find_task(views(tasks@), id@) == Some(tasks@[i as int]@),
            None => find_task(views(tasks@), id@) is None,
        },
{
    let ghost tv = views(tasks@);
    let n = tasks.len();
    let mut i: usize = 0;
    while i < n
        invariant
            n == tasks@.len(),
            tv == views(tasks@),
            i <= n,
            forall|j: int| 0 <= j < i ==> tasks@[j]@.id != id@,
        decreases n - i,
    {
        if tasks[i].id.0 == id.0 {
            proof {
                assert(is_first_with(tv, id@, i as int));
                lemma_find_task_at(tv, id@, i as int);
            }
            return Some(i);
        }
        i = i + 1;
    }
    proof {
        lemma_find_task_none(tv, id@);
    }
    None
}

/// A copy of the first task with the id, if any.
pub fn find_task_cloned(tasks: &[Task], id: &TaskId) -> (r: Option<Task>)
    ensures
        opt_view(r) == find_task(views(tasks@), id@),
{
    match find_task_index(tasks, id) {
        Some(i) => Some(tasks[i].clone()),
        None => None,
    }
}

// ---------------------------------------------------------------------------
// Subtrees

/// Every task whose parent is in `s` is in `s` too.
pub open spec fn closed_under_children(tasks: Seq<TaskView>, s: Set<Seq<char>>) -> bool {
    forall|i: int|
        0 <= i < tasks.len() ==> (#[trigger] tasks[i].parent_id matches Some(p) && s.contains(p) ==> s.contains(tasks[i].id))
}

/// `x` lies in every set that holds the root and is closed under children.
pub open spec fn below_root(tasks: Seq<TaskView>, root: Seq<char>, x: Seq<char>) -> bool {
    forall|c: Set<Seq<char>>| #[trigger] c.contains(root) && closed_under_children(tasks, c) ==> c.contains(x)
}

/// `s` is the subtree of `root`: the least set that holds the root and is
/// closed under children.
pub open spec fn is_subtree(tasks: Seq<TaskView>, root: Seq<char>, s: Set<Seq<char>>) -> bool {
    &&& s.contains(root)
    &&& closed_under_children(tasks, s)
    &&& forall|x: Seq<char>| s.contains(x) ==> below_root(tasks, root, x)
}

/// The ids in the subtree of `root`, the root included.
pub open spec fn subtree_of(tasks: Seq<TaskView>, root: Seq<char>) -> Set<Seq<char>> {
    choose|s: Set<Seq<char>>| is_subtree(tasks, root, s)
}

/// The subtree is unique.
pub proof fn lemma_subtree_unique(tasks: Seq<TaskView>, root: Seq<char>, a: Set<Seq<char>>, b: Set<Seq<char>>)
    requires
        is_subtree(tasks, root, a),
        is_subtree(tasks, root, b),
    ensures
        a == b,
{
    assert forall|x: Seq<char>| a.contains(x) implies b.contains(x) by {
        assert(below_root(tasks, root, x));
        assert(b.contains(root) && closed_under_children(tasks, b));
    }
    assert forall|x: Seq<char>| b.contains(x) implies a.contains(x) by {
        assert(below_root(tasks, root, x));
        assert(a.contains(root) && closed_under_children(tasks, a));
    }
    assert(a =~= b);
}

pub proof fn lemma_subtree_of_is(tasks: Seq<TaskView>, root: Seq<char>, s: Set<Seq<char>>)
    requires
        is_subtree(tasks, root, s),
    ensures
        subtree_of(tasks, root) == s,
{
    let c = subtree_of(tasks, root);
    assert(is_subtree(tasks, root, c));
    lemma_subtree_unique(tasks, root, c, s);
}

/// The set of ids a vector of ids holds.
pub open spec fn id_set(ids: Seq<TaskId>) -> Set<Seq<char>> {
    views(ids).to_set()
}

/// Whether `id` is one of `ids`.
pub fn contains_task_id(ids: &Vec<TaskId>, id: &TaskId) -> (r: bool)
    ensures
        r == id_set(ids@).contains(id@),
{
    let n = ids.len();
    let mut i: usize = 0;
    while i < n
        invariant
            n == ids@.len(),
            i <= n,
            forall|j: int| 0 <= j < i ==> ids@[j]@ != id@,
        decreases n - i,
    {
        if ids[i].0 == id.0 {
            assert(views(ids@)[i as int] == id@);
            return true;
        }
        i = i + 1;
    }
    proof {
        if views(ids@).contains(id@) {
            let k = choose|k: int| 0 <= k < views(ids@).len() && views(ids@)[k] == id@;
            assert(ids@[k]@ == id@);
        }
    }
    false
}

/// Whether the id is the root or the id of a marked task.
fn in_marked(tasks: &[Task], marks: &Vec<bool>, root_id: &TaskId, id: &TaskId) -> (r: bool)
    requires
        marks@.len() == tasks@.len(),
    ensures
        r == (id@ == root_id@ || exists|j: int| 0 <= j < tasks@.len() && marks@[j] && tasks@[j]@.id == id@),
{
    if id.0 == root_id.0 {
        return true;
    }
    let n = tasks.len();
    let mut j: usize = 0;
    while j < n
        invariant
            n == tasks@.len(),
            marks@.len() == n,
            j <= n,
            forall|k: int| 0 <= k < j ==> !(marks@[k] && tasks@[k]@.id == id@),
        decreases n - j,
    {
        if marks[j] && tasks[j].id.0 == id.0 {
            return true;
        }
        j = j + 1;
    }
    false
}

/// The marked set: the root and the ids of the marked tasks.
pub open spec fn marked_set(tasks: Seq<TaskView>, marks: Seq<bool>, root: Seq<char>) -> Set<Seq<char>> {
    Set::new(|x: Seq<char>| x == root || exists|j: int| 0 <= j < tasks.len() && marks[j] && tasks[j].id == x)
}

proof fn lemma_marked_count(marked: Set<int>, n: int)
    requires
        forall|k: int| marked.contains(k) ==> 0 <= k < n,
        n >= 0,
    ensures
        marked.finite(),
        marked.len() <= n,
{
    let range = Set::new(|k: int| 0 <= k < n);
    assert(range =~= vstd::set_lib::set_int_range(0, n));
    vstd::set_lib::lemma_int_range(0, n);
    assert(marked.subset_of(range));
    lemma_len_subset(marked, range);
}

/// The ids of the subtree of `root_id`: the root itself, then the ids of
/// its descendants among `tasks`, each once.
pub fn collect_subtree_ids(tasks: &[Task], root_id: &TaskId) -> (r: Vec<TaskId>)
    ensures
        is_subtree(views(tasks@), root_id@, id_set(r@)),
        id_set(r@) == subtree_of(views(tasks@), root_id@),
        views(r@).no_duplicates(),
        r@.len() >= 1,
        r@[0]@ == root_id@,
{
    let ghost tv = views(tasks@);
    let n = tasks.len();
    let mut marks: Vec<bool> = Vec::new();
    let mut k: usize = 0;
    while k < n
        invariant
            k <= n,
            marks@.len() == k,
            forall|j: int| 0 <= j < k ==> !marks@[j],
        decreases n - k,
    {
        marks.push(false);
        k = k + 1;
    }
    let ghost mut marked: Set<int> = Set::empty();
    let mut count: usize = 0;
    let mut changed = true;
    while changed
        invariant
            n == tasks@.len(),
            tv == views(tasks@),
            marks@.len() == n,
            forall|j: int| #![trigger marks@[j]] 0 <= j < n ==> (marks@[j] <==> marked.contains(j)),
            forall|j: int| marked.contains(j) ==> 0 <= j < n,
            marked.finite(),
            count == marked.len(),
            count <= n,
            forall|j: int| 0 <= j < n && #[trigger] marks@[j] ==> below_root(tv, root_id@, tv[j].id),
            !changed ==> closed_under_children(tv, marked_set(tv, marks@, root_id@)),
        decreases n - count, (if changed { 1int } else { 0int }),
    {
        changed = false;
        let mut i: usize = 0;
        let ghost count0 = count;
        while i < n
            invariant
                n == tasks@.len(),
                tv == views(tasks@),
                marks@.len() == n,
                forall|j: int| #![trigger marks@[j]] 0 <= j < n ==> (marks@[j] <==> marked.contains(j)),
                forall|j: int| marked.contains(j) ==> 0 <= j < n,
                marked.finite(),
                count == marked.len(),
                count >= count0,
                changed ==> count > count0,
                i <= n,
                forall|j: int| 0 <= j < n && #[trigger] marks@[j] ==> below_root(tv, root_id@, tv[j].id),
                !changed ==> forall|j: int| 0 <= j < i ==> (#[trigger] tv[j].parent_id matches Some(p)
                    && marked_set(tv, marks@, root_id@).contains(p) ==> marked_set(tv, marks@, root_id@).contains(tv[j].id)),
            decreases n - i,
        {
            if !marks[i] {
                match &tasks[i].parent_id {
                    Some(p) => {
                        if in_marked(tasks, &marks, root_id, p) {
                            proof {
                                assert(tv[i as int].parent_id == Some(p@));
                                assert(below_root(tv, root_id@, p@)) by {
                                    if p@ != root_id@ {
                                        let j = choose|j: int| 0 <= j < tasks@.len() && marks@[j] && tasks@[j]@.id == p@;
                                        assert(marks@[j]);
                                    }
                                }
                                assert forall|c: Set<Seq<char>>| #[trigger] c.contains(root_id@) && closed_under_children(tv, c)
                                    implies c.contains(tv[i as int].id) by {
                                    assert(c.contains(p@));
                                }
                                assert(!marked.contains(i as int));
                                lemma_marked_count(marked.insert(i as int), n as int);
                            }
                            marks.set(i, true);
                            proof {
                                marked = marked.insert(i as int);
                            }
                            count = count + 1;
                            changed = true;
                        }
                    },
                    None => {},
                }
            }
            proof {
                if !changed {
                    assert(tv[i as int].parent_id matches Some(p) && marked_set(tv, marks@, root_id@).contains(p)
                        ==> marked_set(tv, marks@, root_id@).contains(tv[i as int].id)) by {
                        if marks@[i as int] {
                            assert(marked_set(tv, marks@, root_id@).contains(tv[i as int].id));
                        }
                    }
                }
            }
            i = i + 1;
        }
        proof {
            lemma_marked_count(marked, n as int);
        }
    }
    let ghost s = marked_set(tv, marks@, root_id@);
    let mut out: Vec<TaskId> = Vec::new();
    out.push(root_id.clone());
    let mut i: usize = 0;
    while i < n
        invariant
            n == tasks@.len(),
            tv == views(tasks@),
            marks@.len() == n,
            s == marked_set(tv, marks@, root_id@),
            i <= n,
            out@.len() >= 1,
            out@[0]@ == root_id@,
            views(out@).no_duplicates(),
            forall|x: Seq<char>| #[trigger] views(out@).contains(x) ==> s.contains(x),
            forall|j: int| 0 <= j < i && marks@[j] ==> #[trigger] views(out@).contains(tv[j].id),
        decreases n - i,
    {
        if marks[i] && !contains_task_id(&out, &tasks[i].id) {
            let ghost before = views(out@);
            out.push(tasks[i].id.clone());
            proof {
                assert(views(out@) =~= before.push(tv[i as int].id));
                assert(!before.contains(tv[i as int].id));
                assert(s.contains(tv[i as int].id));
                assert forall|a: int, b: int| 0 <= a < b < views(out@).len() implies views(out@)[a] != views(out@)[b] by {
                    if b == views(out@).len() - 1 {
                        assert(before.contains(before[a]));
                    }
                }
                assert forall|x: Seq<char>| #[trigger] views(out@).contains(x) implies s.contains(x) by {
                    if x != tv[i as int].id {
                        let k = choose|k: int| 0 <= k < views(out@).len() && views(out@)[k] == x;
                        assert(before.contains(x));
                    }
                }
                assert forall|j: int| 0 <= j < i + 1 && marks@[j] implies #[trigger] views(out@).contains(tv[j].id) by {
                    if j < i {
                        assert(before.contains(tv[j].id));
                        let k = choose|k: int| 0 <= k < before.len() && before[k] == tv[j].id;
                        assert(views(out@)[k] == tv[j].id);
                    } else {
                        assert(views(out@)[views(out@).len() - 1] == tv[j].id);
                    }
                }
            }
        } else {
            proof {
                if marks@[i as int] {
                    assert(views(out@).contains(tv[i as int].id));
                }
            }
        }
        i = i + 1;
    }
    proof {
        assert(views(out@)[0] == root_id@);
        assert(id_set(out@) =~= s) by {
            assert forall|x: Seq<char>| s.contains(x) implies views(out@).contains(x) by {
                if x == root_id@ {
                    assert(views(out@)[0] == x);
                } else {
                    let j = choose|j: int| 0 <= j < tasks@.len() && marks@[j] && tv[j].id == x;
                    assert(views(out@).contains(tv[j].id));
                }
            }
        }
        assert forall|x: Seq<char>| s.contains(x) implies below_root(tv, root_id@, x) by {
            if x != root_id@ {
                let j = choose|j: int| 0 <= j < tasks@.len() && marks@[j] && tv[j].id == x;
                assert(marks@[j]);
            }
        }
        assert(is_subtree(tv, root_id@, s));
        lemma_subtree_of_is(tv, root_id@, s);
    }
    out
}

// ---------------------------------------------------------------------------
// Positions among siblings

/// Tasks of the space under the parent, leaving out the excluded ids.
pub open spec fn sibling_of(sid: Seq<char>, pid: Option<Seq<char>>, excluded: Set<Seq<char>>) -> spec_fn(TaskView) -> bool {
    |t: TaskView| t.space_id == sid && t.parent_id == pid && !excluded.contains(t.id)
}

/// The largest position in `s`, or -1 when `s` is empty.
pub open spec fn max_order(s: Seq<TaskView>) -> int
    decreases s.len(),
{
    if s.len() == 0 {
        -1
    } else {
        let m = max_order(s.drop_last());
        if s.last().sort_order > m {
            s.last().sort_order as int
        } else {
            m
        }
    }
}

/// One past the largest position among the siblings, 0 when there are none.
pub open spec fn next_order(tasks: Seq<TaskView>, sid: Seq<char>, pid: Option<Seq<char>>, excluded: Set<Seq<char>>) -> int {
    max_order(tasks.filter(sibling_of(sid, pid, excluded))) + 1
}

/// No position is the largest `i64`, so one past any position fits.
pub open spec fn orders_bounded(tasks: Seq<TaskView>) -> bool {
    forall|i: int| 0 <= i < tasks.len() ==> #[trigger] tasks[i].sort_order < i64::MAX
}

proof fn lemma_max_order_bounded(s: Seq<TaskView>)
    requires
        orders_bounded(s),
    ensures
        -1 <= max_order(s) < i64::MAX,
    decreases s.len(),
{
    if s.len() > 0 {
        assert(orders_bounded(s.drop_last())) by {
            assert forall|i: int| 0 <= i < s.drop_last().len() implies #[trigger] s.drop_last()[i].sort_order < i64::MAX by {
                assert(s.drop_last()[i] == s[i]);
            }
        }
        lemma_max_order_bounded(s.drop_last());
        assert(s.last() == s[s.len() - 1]);
    }
}

fn same_parent(a: &Option<TaskId>, b: Option<&TaskId>) -> (r: bool)
    ensures
        r == (opt_view(*a) == match b { Some(x) => Some(x@), None => None::<Seq<char>> }),
{
    match (a, b) {
        (Some(x), Some(y)) => x.0 == y.0,
        (None, None) => true,
        _ => false,
    }
}

/// The position for a task placed last among the siblings in `space_id`
/// under `parent_id`, not counting the excluded ids.
pub fn next_sort_order(tasks: &[Task], space_id: &SpaceId, parent_id: Option<&TaskId>, excluded: &Vec<TaskId>) -> (r: i64)
    requires
        orders_bounded(views(tasks@)),
    ensures
        r == next_order(views(tasks@), space_id@, match parent_id { Some(x) => Some(x@), None => None }, id_set(excluded@)),
{
    let ghost tv = views(tasks@);
    let ghost pid = match parent_id { Some(x) => Some(x@), None => None::<Seq<char>> };
    let ghost pred = sibling_of(space_id@, pid, id_set(excluded@));
    let n = tasks.len();
    let mut best: i64 = -1;
    let mut i: usize = 0;
    proof {
        reveal_with_fuel(Seq::<_>::filter, 1);
        assert(tv.take(0) =~= Seq::<TaskView>::empty());
    }
    while i < n
        invariant
            n == tasks@.len(),
            tv == views(tasks@),
            pred == sibling_of(space_id@, pid, id_set(excluded@)),
            pid == match parent_id { Some(x) => Some(x@), None => None::<Seq<char>> },
            orders_bounded(tv),
            i <= n,
            best == max_order(tv.take(i as int).filter(pred)),
        decreases n - i,
    {
        proof {
            reveal_with_fuel(Seq::<_>::filter, 1);
            assert(tv.take(i + 1).drop_last() =~= tv.take(i as int));
            assert(tv.take(i + 1).last() == tv[i as int]);
        }
        let t = &tasks[i];
        if t.space_id.0 == space_id.0 && same_parent(&t.parent_id, parent_id) && !contains_task_id(excluded, &t.id) {
            proof {
                assert(pred(tv[i as int]));
                let f = tv.take(i as int).filter(pred);
                assert(tv.take(i + 1).filter(pred) =~= f.push(tv[i as int]));
                assert(f.push(tv[i as int]).drop_last() =~= f);
            }
            if t.sort_order > best {
                best = t.sort_order;
            }
        } else {
            proof {
                assert(!pred(tv[i as int]));
            }
        }
        i = i + 1;
    }
    proof {
        assert(tv.take(n as int) =~= tv);
        assert(orders_bounded(tv.filter(pred))) by {
            assert forall|k: int| 0 <= k < tv.filter(pred).len() implies #[trigger] tv.filter(pred)[k].sort_order < i64::MAX by {
                assert(tv.filter(pred).contains(tv.filter(pred)[k]));
                tv.lemma_filter_contains_rev(pred, tv.filter(pred)[k]);
                let j = choose|j: int| 0 <= j < tv.len() && tv[j] == tv.filter(pred)[k];
                assert(tv[j].sort_order < i64::MAX);
            }
        }
        lemma_max_order_bounded(tv.filter(pred));
    }
    best + 1
}

// ---------------------------------------------------------------------------
// Ancestors

/// Following parents from `parent` for at most `fuel` steps, the first
/// archived ancestor; the walk stops at a parent that is not among `tasks`.
pub open spec fn archived_ancestor(tasks: Seq<TaskView>, parent: Option<Seq<char>>, fuel: nat) -> Option<Seq<char>>
    decreases fuel,
{
    if fuel == 0 {
        None
    } else {
        match parent {
            None => None,
            Some(pid) => match find_task(tasks, pid) {
                None => None,
                Some(p) => if p.archived {
                    Some(p.id)
                } else {
                    archived_ancestor(tasks, p.parent_id, (fuel - 1) as nat)
                },
            },
        }
    }
}

/// The nearest archived ancestor of `task`, looking at most one step per
/// task (a longer walk would go round a cycle).
pub fn first_archived_ancestor_id(tasks: &[Task], task: &Task) -> (r: Option<TaskId>)
    ensures
        opt_view(r) == archived_ancestor(views(tasks@), task@.parent_id, (tasks@.len() + 1) as nat),
{
    let ghost tv = views(tasks@);
    let mut parent_id: Option<TaskId> = crate::model::clone_opt_task_id(&task.parent_id);
    let mut fuel: u128 = tasks.len() as u128 + 1;
    while fuel > 0
        invariant
            tv == views(tasks@),
            archived_ancestor(tv, opt_view(parent_id), fuel as nat)
                == archived_ancestor(tv, task@.parent_id, (tasks@.len() + 1) as nat),
        decreases fuel,
    {
        match parent_id {
            None => {
                return None;
            },
            Some(pid) => {
                match find_task_index(tasks, &pid) {
                    None => {
                        return None;
                    },
                    Some(i) => {
                        if tasks[i].archived {
                            return Some(tasks[i].id.clone());
                        }
                        parent_id = crate::model::clone_opt_task_id(&tasks[i].parent_id);
                        fuel = fuel - 1;
                    },
                }
            },
        }
    }
    None
}

} // verus!
