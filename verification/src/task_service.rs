//! Task use cases: creating, listing, showing, editing, finishing, logging,
//! archiving, restoring, purging and reordering tasks.

use vstd::prelude::*;
use crate::clock::{now_utc, Timestamp};
use crate::commands::{direction_label, move_direction_label, AddTaskLogCommand, ArchiveTaskCommand, CreateTaskCommand, EditTaskCommand, MoveTaskCommand, MoveTaskDirection, PurgeTaskCommand, RestoreTaskCommand, UpdateTaskStatusCommand};
use crate::error::{rview, AppError, AppErrorView, RefErrorView, StorageErrorView, ValidationErrorView};
use crate::hierarchy::{collect_subtree_ids, contains_task_id, find_task, find_task_cloned, find_task_index, id_set, is_first_with, lemma_find_task_at, next_order, next_sort_order, orders_bounded, subtree_of};
use crate::ids::{is_long_id, task_prefix, TaskId, SpaceId};
use crate::model::{SortMode, SpaceState, SpaceView, Task, TaskLog, TaskLogView, TaskStatus, TaskView, ViewMode};
use crate::queries::{ListTasksQuery, OperationOutcome, ShowTaskQuery, TaskDetails, TaskListResult};
use crate::maintenance::{executed, MaintenanceService};
use crate::model::{PendingOperationEntry, PendingOperationEntryView, PendingOperationKind, PendingOperationView};
use crate::hierarchy::{archived_ancestor, first_archived_ancestor_id};
use crate::refs::{ids_comparable, prefix_matches, ref_matcher, resolve_task_ref, resolve_task_ref_spec, RefOutcome};
use crate::repository::{
    all_tasks, ids_split, lemma_all_tasks_facts, record_tasks, saved_task, saved_tasks, space_index, RepoView, Repository,
};
use crate::space_service::{effective_space, space_found, space_tasks, SpaceService};
use crate::task_query::{build_task_list, law_sort_tasks_sorted_permutation, sort_tasks_in_place, sort_tasks_spec, task_list_entries};
use crate::text::{is_blank, split_once_underscore};
use crate::util::{opt_view, views};
use crate::validation::ensure_non_empty_title;

verus! {

// ---------------------------------------------------------------------------
// Resolving tasks

pub open spec fn task_ids(tasks: Seq<TaskView>) -> Seq<Seq<char>> {
    tasks.map_values(|t: TaskView| t.id)
}

/// Every id holds a `_`.
pub open spec fn tasks_split(tasks: Seq<TaskView>) -> bool {
    forall|k: int| 0 <= k < tasks.len() ==> (#[trigger] split_once_underscore(tasks[k].id)) is Some
}

/// The task a reference names among `tasks`, or the reference error.
pub open spec fn task_found(tasks: Seq<TaskView>, reference: Seq<char>) -> Result<TaskView, AppErrorView> {
    match resolve_task_ref_spec(reference, task_ids(tasks)) {
        RefOutcome::Found(id) => match find_task(tasks, id) {
            Some(t) => Ok(t),
            None => Err(AppErrorView::Reference(RefErrorView { for_space: false, outcome: RefOutcome::NotFound, input: reference, invalid: None })),
        },
        o => Err(AppErrorView::Reference(RefErrorView {
            for_space: false,
            outcome: o,
            input: reference,
            invalid: match o {
                RefOutcome::Invalid(k) => Some(crate::ids::task_id_error(k, reference)),
                _ => None,
            },
        })),
    }
}

proof fn lemma_first_exists(tasks: Seq<TaskView>, id: Seq<char>, i: int)
    requires
        0 <= i < tasks.len(),
        tasks[i].id == id,
    ensures
        find_task(tasks, id) is Some,
    decreases i,
{
    if forall|j: int| 0 <= j < i ==> tasks[j].id != id {
        assert(is_first_with(tasks, id, i));
        lemma_find_task_at(tasks, id, i);
    } else {
        let j = choose|j: int| 0 <= j < i && tasks[j].id == id;
        lemma_first_exists(tasks, id, j);
    }
}

pub proof fn lemma_found_task_exists(tasks: Seq<TaskView>, reference: Seq<char>)
    ensures
        resolve_task_ref_spec(reference, task_ids(tasks)) matches RefOutcome::Found(id) ==> find_task(tasks, id) is Some,
{
    let ids = task_ids(tasks);
    if let RefOutcome::Found(id) = resolve_task_ref_spec(reference, ids) {
        if ids.contains(reference) {
            let i = choose|i: int| 0 <= i < ids.len() && ids[i] == reference;
            lemma_first_exists(tasks, id, i);
        } else {
            let m = prefix_matches(ids, task_prefix(), reference);
            assert(m.contains(m[0]));
            ids.lemma_filter_contains_rev(ref_matcher(task_prefix(), reference), m[0]);
            let i = choose|i: int| 0 <= i < ids.len() && ids[i] == m[0];
            lemma_first_exists(tasks, id, i);
        }
    }
}

proof fn lemma_found_current(tasks: Seq<TaskView>, reference: Seq<char>)
    ensures
        task_found(tasks, reference) matches Ok(t) ==> exists|i: int| is_first_with(tasks, t.id, i) && tasks[i] == t,
{
    if let Ok(t) = task_found(tasks, reference) {
        if let RefOutcome::Found(id) = resolve_task_ref_spec(reference, task_ids(tasks)) {
            let i = choose|i: int| is_first_with(tasks, id, i);
            assert(is_first_with(tasks, id, i));
        }
    }
}

fn task_id_list(tasks: &Vec<Task>) -> (r: Vec<TaskId>)
    ensures
        views(r@) == task_ids(views(tasks@)),
{
    let mut out: Vec<TaskId> = Vec::new();
    let n = tasks.len();
    let mut i: usize = 0;
    while i < n
        invariant
            n == tasks@.len(),
            i <= n,
            views(out@) == task_ids(views(tasks@)).take(i as int),
        decreases n - i,
    {
        let ghost before = views(out@);
        let id = tasks[i].id.clone();
        out.push(id);
        assert(task_ids(views(tasks@))[i as int] == id@);
        assert(views(out@) =~= before.push(id@));
        assert(views(out@) =~= task_ids(views(tasks@)).take(i + 1));
        i = i + 1;
    }
    assert(task_ids(views(tasks@)).take(n as int) =~= task_ids(views(tasks@)));
    out
}

/// The task a reference names among `tasks`.
fn resolve_task_from(tasks: &Vec<Task>, reference: &str) -> (r: Result<Task, AppError>)
    requires
        tasks_split(views(tasks@)),
    ensures
        rview(r) == task_found(views(tasks@), reference@),
{
    let ids = task_id_list(tasks);
    proof {
        let tv = views(tasks@);
        assert forall|i: int| 0 <= i < views(ids@).len() implies (#[trigger] crate::ids::matches_ref_reaches_suffix(views(ids@)[i], task_prefix(), reference@)
            ==> split_once_underscore(views(ids@)[i]) is Some) by {
            assert(views(ids@)[i] == tv[i].id);
        }
        assert(ids_comparable(views(ids@), task_prefix(), reference@));
        lemma_found_task_exists(tv, reference@);
    }
    match resolve_task_ref(reference, ids.as_slice()) {
        Err(e) => Err(AppError::Reference(e)),
        Ok(id) => match find_task_index(tasks.as_slice(), &id) {
            Some(i) => Ok(tasks[i].clone()),
            None => Err(AppError::Reference(crate::refs::ReferenceError::TaskNotFound(String::from_str(reference)))),
        },
    }
}

/// The listed tasks of a repository whose ids hold a `_`.
fn all_tasks_of(repo: &Repository) -> (r: Vec<Task>)
    requires
        ids_split(repo@),
    ensures
        views(r@) == all_tasks(repo@),
        tasks_split(views(r@)),
        orders_bounded(record_tasks(repo@.records)) ==> orders_bounded(views(r@)),
{
    proof {
        lemma_all_tasks_facts(repo@);
    }
    repo.list_all_tasks()
}

// ---------------------------------------------------------------------------
// Placing a task

/// The space a task goes to under `parent`: the parent's space, which must
/// exist and be active; a requested space must be that same space.
pub open spec fn parent_target(repo: RepoView, parent: TaskView, space_ref: Option<Seq<char>>) -> Result<SpaceView, AppErrorView> {
    if space_index(repo.spaces, parent.space_id) < 0 {
        Err(AppErrorView::Storage(StorageErrorView::SpaceNotFound(parent.space_id)))
    } else {
        let s = repo.spaces[space_index(repo.spaces, parent.space_id)];
        if s.state != SpaceState::Active {
            Err(AppErrorView::ArchivedSpace(s.id))
        } else {
            match space_ref {
                None => Ok(s),
                Some(rf) => match space_found(repo.spaces, rf, true) {
                    Err(e) => Err(e),
                    Ok(q) => if q.id != parent.space_id {
                        Err(AppErrorView::ParentSpaceMismatch { parent_id: parent.id, parent_space_id: parent.space_id, target_space_id: q.id })
                    } else {
                        Ok(s)
                    },
                },
            }
        }
    }
}

fn opt_str_view(o: &Option<String>) -> (r: Option<&str>)
    ensures
        match r { Some(x) => Some(x@), None => None::<Seq<char>> } == opt_view(*o),
{
    match o {
        Some(s) => Some(s.as_str()),
        None => None,
    }
}

/// The space of a task placed under `parent`.
fn place_under_parent(repo: &Repository, parent: &Task, space_ref: Option<&str>) -> (r: Result<crate::model::Space, AppError>)
    requires
        repo.wf(),
        ids_split(repo@),
    ensures
        rview(r) == parent_target(repo@, parent@, match space_ref { Some(x) => Some(x@), None => None }),
{
    let space = match repo.load_space(&parent.space_id) {
        Ok(s) => s,
        Err(e) => {
            return Err(AppError::Storage(e));
        },
    };
    if !space.state.is_active() {
        return Err(AppError::ArchivedSpace(space.id.0.clone()));
    }
    match space_ref {
        None => Ok(space),
        Some(rf) => {
            let spaces = SpaceService::new();
            match spaces.resolve_space(repo, rf, true) {
                Err(e) => Err(e),
                Ok(requested) => {
                    if requested.id.0 != parent.space_id.0 {
                        Err(AppError::ParentSpaceMismatch {
                            parent_id: parent.id.clone(),
                            parent_space_id: parent.space_id.clone(),
                            target_space_id: requested.id,
                        })
                    } else {
                        Ok(space)
                    }
                },
            }
        },
    }
}

/// Where a new task goes: under the named parent, or at the top of the
/// named (or current) space.
pub open spec fn create_plan(repo: RepoView, title: Seq<char>, space_ref: Option<Seq<char>>, parent_ref: Option<Seq<char>>) -> Result<(SpaceView, Option<TaskView>), AppErrorView> {
    if is_blank(title) {
        Err(AppErrorView::Validation(ValidationErrorView::EmptyTaskTitle))
    } else {
        match parent_ref {
            Some(pr) => match task_found(all_tasks(repo), pr) {
                Err(e) => Err(e),
                Ok(p) => match parent_target(repo, p, space_ref) {
                    Err(e) => Err(e),
                    Ok(s) => Ok((s, Some(p))),
                },
            },
            None => match effective_space(repo, space_ref, true) {
                Err(e) => Err(e),
                Ok(s) => Ok((s, None)),
            },
        }
    }
}

pub open spec fn opt_id(t: Option<TaskView>) -> Option<Seq<char>> {
    match t {
        Some(x) => Some(x.id),
        None => None,
    }
}

// ---------------------------------------------------------------------------
// Children and logs

pub open spec fn child_of(id: Seq<char>) -> spec_fn(TaskView) -> bool {
    |t: TaskView| t.parent_id == Some(id)
}

/// The tasks whose parent is `id`, in their order.
pub open spec fn children_of(tasks: Seq<TaskView>, id: Seq<char>) -> Seq<TaskView> {
    tasks.filter(child_of(id))
}

fn collect_children(tasks: &Vec<Task>, id: &TaskId) -> (r: Vec<Task>)
    ensures
        views(r@) == children_of(views(tasks@), id@),
{
    let ghost tv = views(tasks@);
    let ghost pred = child_of(id@);
    let mut out: Vec<Task> = Vec::new();
    let n = tasks.len();
    let mut i: usize = 0;
    proof {
        reveal_with_fuel(Seq::<_>::filter, 1);
        assert(tv.take(0) =~= Seq::<TaskView>::empty());
    }
    while i < n
        invariant
            n == tasks@.len(),
            tv == views(tasks@),
            pred == child_of(id@),
            i <= n,
            views(out@) == tv.take(i as int).filter(pred),
        decreases n - i,
    {
        proof {
            reveal_with_fuel(Seq::<_>::filter, 1);
            assert(tv.take(i + 1).drop_last() =~= tv.take(i as int));
            assert(tv.take(i + 1).last() == tv[i as int]);
        }
        let is_child = match &tasks[i].parent_id {
            Some(p) => p.0 == id.0,
            None => false,
        };
        if is_child {
            let t = tasks[i].clone();
            let ghost before = views(out@);
            out.push(t);
            assert(views(out@) =~= before.push(tv[i as int]));
        }
        i = i + 1;
    }
    assert(tv.take(n as int) =~= tv);
    out
}

/// Where `x` goes among logs sorted newest first: before the first older one.
pub open spec fn log_insert_pos(r: Seq<TaskLogView>, x: TaskLogView) -> int
    decreases r.len(),
{
    if r.len() == 0 {
        0
    } else if x.at.unix_nanos > r[0].at.unix_nanos {
        0
    } else {
        1 + log_insert_pos(r.drop_first(), x)
    }
}

/// The logs sorted newest first; logs of the same instant keep their order.
pub open spec fn logs_newest_first(s: Seq<TaskLogView>) -> Seq<TaskLogView>
    decreases s.len(),
{
    if s.len() == 0 {
        s
    } else {
        let r = logs_newest_first(s.drop_last());
        r.insert(log_insert_pos(r, s.last()), s.last())
    }
}

proof fn lemma_log_insert_pos_is(r: Seq<TaskLogView>, x: TaskLogView, p: int)
    requires
        0 <= p <= r.len(),
        forall|q: int| 0 <= q < p ==> !(x.at.unix_nanos > #[trigger] r[q].at.unix_nanos),
        p < r.len() ==> x.at.unix_nanos > r[p].at.unix_nanos,
    ensures
        log_insert_pos(r, x) == p,
    decreases p,
{
    if p > 0 {
        assert(!(x.at.unix_nanos > r[0].at.unix_nanos));
        assert forall|q: int| 0 <= q < p - 1 implies !(x.at.unix_nanos > #[trigger] r.drop_first()[q].at.unix_nanos) by {
            assert(r.drop_first()[q] == r[q + 1]);
        }
        lemma_log_insert_pos_is(r.drop_first(), x, p - 1);
    }
}

fn sort_logs_newest_first(logs: &Vec<TaskLog>) -> (r: Vec<TaskLog>)
    ensures
        views(r@) == logs_newest_first(views(logs@)),
{
    let ghost sv = views(logs@);
    let mut out: Vec<TaskLog> = Vec::new();
    let n = logs.len();
    let mut i: usize = 0;
    assert(sv.take(0) =~= Seq::<TaskLogView>::empty());
    assert(views(out@) =~= Seq::<TaskLogView>::empty());
    while i < n
        invariant
            n == logs@.len(),
            sv == views(logs@),
            i <= n,
            views(out@) == logs_newest_first(sv.take(i as int)),
        decreases n - i,
    {
        let x = logs[i].clone();
        let ghost ov = views(out@);
        let m = out.len();
        let mut p: usize = 0;
        while p < m && !(x.at.unix_nanos > out[p].at.unix_nanos)
            invariant
                m == out@.len(),
                ov == views(out@),
                p <= m,
                forall|q: int| 0 <= q < p ==> !(x@.at.unix_nanos > #[trigger] ov[q].at.unix_nanos),
            decreases m - p,
        {
            assert(ov[p as int] == out[p as int]@);
            p = p + 1;
        }
        proof {
            if p < m {
                assert(ov[p as int] == out[p as int]@);
            }
            lemma_log_insert_pos_is(ov, x@, p as int);
            assert(sv.take(i + 1).drop_last() =~= sv.take(i as int));
            assert(sv.take(i + 1).last() == x@);
        }
        out.insert(p, x);
        assert(views(out@) =~= ov.insert(p as int, sv[i as int]));
        i = i + 1;
    }
    assert(sv.take(n as int) =~= sv);
    out
}

/// An unarchived child that is still open.
pub open spec fn open_child(id: Seq<char>) -> spec_fn(TaskView) -> bool {
    |t: TaskView| t.parent_id == Some(id) && !t.archived && (t.status == TaskStatus::Todo || t.status == TaskStatus::InProgress)
}

fn count_open_children(tasks: &Vec<Task>, id: &TaskId) -> (r: usize)
    ensures
        r == views(tasks@).filter(open_child(id@)).len(),
{
    let ghost tv = views(tasks@);
    let ghost pred = open_child(id@);
    let n = tasks.len();
    let mut count: usize = 0;
    let mut i: usize = 0;
    proof {
        reveal_with_fuel(Seq::<_>::filter, 1);
        assert(tv.take(0) =~= Seq::<TaskView>::empty());
    }
    while i < n
        invariant
            n == tasks@.len(),
            tv == views(tasks@),
            pred == open_child(id@),
            i <= n,
            count == tv.take(i as int).filter(pred).len(),
            count <= i,
        decreases n - i,
    {
        proof {
            reveal_with_fuel(Seq::<_>::filter, 1);
            assert(tv.take(i + 1).drop_last() =~= tv.take(i as int));
            assert(tv.take(i + 1).last() == tv[i as int]);
        }
        let t = &tasks[i];
        let is_child = match &t.parent_id {
            Some(p) => p.0 == id.0,
            None => false,
        };
        if is_child && !t.archived && t.status.is_open() {
            count = count + 1;
        }
        i = i + 1;
    }
    assert(tv.take(n as int) =~= tv);
    count
}

// ---------------------------------------------------------------------------
// Editing

/// What an edit resolves to before anything changes.
pub struct EditPlan {
    pub current: TaskView,
    pub sub: Set<Seq<char>>,
    pub parent: Option<TaskView>,
    pub space: SpaceView,
}

pub open spec fn parent_change_requested(c: EditTaskCommand) -> bool {
    c.clear_parent || c.parent_ref is Some
}

/// The parent after the edit: none when cleared, the named task (which must
/// lie outside the task's subtree), else the current parent when it exists.
pub open spec fn desired_parent(tasks: Seq<TaskView>, c: EditTaskCommand, current: TaskView, sub: Set<Seq<char>>) -> Result<Option<TaskView>, AppErrorView> {
    if c.clear_parent {
        Ok(None)
    } else {
        match c.parent_ref {
            Some(pr) => match task_found(tasks, pr@) {
                Err(e) => Err(e),
                Ok(p) => if sub.contains(p.id) {
                    Err(AppErrorView::TaskParentCycle { task_id: current.id, parent_id: p.id })
                } else {
                    Ok(Some(p))
                },
            },
            None => Ok(match current.parent_id {
                Some(pid) => find_task(tasks, pid),
                None => None,
            }),
        }
    }
}

/// The space after the edit: the parent's, else the named active space,
/// else the task's own.
pub open spec fn desired_space(repo: RepoView, c: EditTaskCommand, current: TaskView, parent: Option<TaskView>) -> Result<SpaceView, AppErrorView> {
    match parent {
        Some(p) => parent_target(repo, p, opt_view(c.space_ref)),
        None => match c.space_ref {
            Some(rf) => space_found(repo.spaces, rf@, true),
            None => if space_index(repo.spaces, current.space_id) < 0 {
                Err(AppErrorView::Storage(StorageErrorView::SpaceNotFound(current.space_id)))
            } else {
                Ok(repo.spaces[space_index(repo.spaces, current.space_id)])
            },
        },
    }
}

/// Moving a task to another space without touching its parent is refused
/// when the parent stays behind.
pub open spec fn cross_space_error(tasks: Seq<TaskView>, c: EditTaskCommand, current: TaskView, space: SpaceView) -> Option<AppErrorView> {
    if c.space_ref is Some && !parent_change_requested(c) {
        match current.parent_id {
            Some(pid) => match find_task(tasks, pid) {
                Some(par) => if par.space_id != space.id {
                    Some(AppErrorView::CrossSpaceParentMismatch {
                        task_id: current.id,
                        parent_id: par.id,
                        parent_space_id: par.space_id,
                        target_space_id: space.id,
                    })
                } else {
                    None
                },
                None => None,
            },
            None => None,
        }
    } else {
        None
    }
}

pub open spec fn edit_plan(repo: RepoView, c: EditTaskCommand) -> Result<EditPlan, AppErrorView> {
    let tasks = all_tasks(repo);
    if !c.changes_something() {
        Err(AppErrorView::NoTaskChanges)
    } else if c.title matches Some(t) && is_blank(t@) {
        Err(AppErrorView::Validation(ValidationErrorView::EmptyTaskTitle))
    } else {
        match task_found(tasks, c.task_ref@) {
            Err(e) => Err(e),
            Ok(cur) => {
                let sub = subtree_of(tasks, cur.id);
                match desired_parent(tasks, c, cur, sub) {
                    Err(e) => Err(e),
                    Ok(dp) => match desired_space(repo, c, cur, dp) {
                        Err(e) => Err(e),
                        Ok(ds) => match cross_space_error(tasks, c, cur, ds) {
                            Some(e) => Err(e),
                            None => Ok(EditPlan { current: cur, sub, parent: dp, space: ds }),
                        },
                    },
                }
            },
        }
    }
}

pub open spec fn in_set(s: Set<Seq<char>>) -> spec_fn(TaskView) -> bool {
    |t: TaskView| s.contains(t.id)
}

/// The tasks of the subtree, in listing order.
pub open spec fn subtree_tasks(tasks: Seq<TaskView>, sub: Set<Seq<char>>) -> Seq<TaskView> {
    tasks.filter(in_set(sub))
}

pub open spec fn parent_changed(plan: EditPlan) -> bool {
    opt_id(plan.parent) != plan.current.parent_id
}

pub open spec fn space_changed(plan: EditPlan) -> bool {
    plan.space.id != plan.current.space_id
}

/// The edited task, from its copy `base` in the subtree list.
pub open spec fn edited_root(tasks: Seq<TaskView>, c: EditTaskCommand, plan: EditPlan, base: TaskView, now: Timestamp) -> TaskView {
    TaskView {
        title: match c.title { Some(t) => t@, None => base.title },
        description: if c.clear_description { None } else { match c.description { Some(d) => Some(d@), None => base.description } },
        status: match c.status { Some(st) => st, None => base.status },
        parent_id: if parent_change_requested(c) { opt_id(plan.parent) } else { base.parent_id },
        sort_order: if parent_changed(plan) || space_changed(plan) {
            next_order(tasks, plan.space.id, opt_id(plan.parent), plan.sub) as i64
        } else {
            base.sort_order
        },
        space_id: plan.space.id,
        updated_at: now,
        ..base
    }
}

/// The position of the edited task in the subtree list.
pub open spec fn root_pos(upd: Seq<TaskView>, id: Seq<char>) -> int {
    choose|i: int| is_first_with(upd, id, i)
}

/// The subtree after the edit: the edited task changed, and every other
/// task moved to the new space when the space changes.
pub open spec fn edited_tasks(tasks: Seq<TaskView>, c: EditTaskCommand, plan: EditPlan, now: Timestamp) -> Seq<TaskView> {
    let upd = subtree_tasks(tasks, plan.sub);
    let rp = root_pos(upd, plan.current.id);
    upd.map(|i: int, t: TaskView|
        if i == rp {
            edited_root(tasks, c, plan, t, now)
        } else if space_changed(plan) {
            TaskView { space_id: plan.space.id, updated_at: now, ..t }
        } else {
            t
        })
}

fn same_opt_id(a: &Option<Task>, b: &Option<TaskId>) -> (r: bool)
    ensures
        r == (opt_id(opt_view(*a)) == opt_view(*b)),
{
    match (a, b) {
        (Some(x), Some(y)) => x.id.0 == y.0,
        (None, None) => true,
        _ => false,
    }
}

fn subtree_list(tasks: &Vec<Task>, sub: &Vec<TaskId>) -> (r: Vec<Task>)
    ensures
        views(r@) == subtree_tasks(views(tasks@), id_set(sub@)),
{
    let ghost tv = views(tasks@);
    let ghost pred = in_set(id_set(sub@));
    let mut out: Vec<Task> = Vec::new();
    let n = tasks.len();
    let mut i: usize = 0;
    proof {
        reveal_with_fuel(Seq::<_>::filter, 1);
        assert(tv.take(0) =~= Seq::<TaskView>::empty());
    }
    while i < n
        invariant
            n == tasks@.len(),
            tv == views(tasks@),
            pred == in_set(id_set(sub@)),
            i <= n,
            views(out@) == tv.take(i as int).filter(pred),
        decreases n - i,
    {
        proof {
            reveal_with_fuel(Seq::<_>::filter, 1);
            assert(tv.take(i + 1).drop_last() =~= tv.take(i as int));
            assert(tv.take(i + 1).last() == tv[i as int]);
        }
        if contains_task_id(sub, &tasks[i].id) {
            let t = tasks[i].clone();
            let ghost before = views(out@);
            out.push(t);
            assert(views(out@) =~= before.push(tv[i as int]));
        }
        i = i + 1;
    }
    assert(tv.take(n as int) =~= tv);
    out
}

/// Saves the tasks one after the other.
fn save_all(repo: &mut Repository, tasks: &Vec<Task>)
    requires
        old(repo).wf(),
    ensures
        final(repo).wf(),
        final(repo)@ == saved_tasks(old(repo)@, views(tasks@)),
{
    let ghost start = repo@;
    let ghost tv = views(tasks@);
    let n = tasks.len();
    let mut i: usize = 0;
    assert(tv.take(0) =~= Seq::<TaskView>::empty());
    while i < n
        invariant
            n == tasks@.len(),
            tv == views(tasks@),
            i <= n,
            repo.wf(),
            repo@ == saved_tasks(start, tv.take(i as int)),
        decreases n - i,
    {
        proof {
            assert(tv.take(i + 1).drop_last() =~= tv.take(i as int));
            assert(tv.take(i + 1).last() == tv[i as int]);
        }
        repo.save_task(&tasks[i]);
        i = i + 1;
    }
    assert(tv.take(n as int) =~= tv);
}

pub open spec fn plan_of(current: Task, sub: Vec<TaskId>, parent: Option<Task>, space: crate::model::Space) -> EditPlan {
    EditPlan { current: current@, sub: id_set(sub@), parent: opt_view(parent), space: space@ }
}

/// Resolves what an edit asks for, in the order the checks are made.
fn plan_edit(repo: &Repository, command: &EditTaskCommand, all: &Vec<Task>) -> (r: Result<(Task, Vec<TaskId>, Option<Task>, crate::model::Space), AppError>)
    requires
        repo.wf(),
        ids_split(repo@),
        views(all@) == all_tasks(repo@),
        tasks_split(views(all@)),
    ensures
        match edit_plan(repo@, *command) {
            Err(e) => r matches Err(x) && x@ == e,
            Ok(plan) => r matches Ok((cur, sub, par, sp)) && plan == plan_of(cur, sub, par, sp)
                && id_set(sub@).contains(cur@.id),
        },
{
    let ghost tv = views(all@);
    if !command.has_any_change() {
        return Err(AppError::NoTaskChanges);
    }
    match &command.title {
        Some(t) => match ensure_non_empty_title(t.as_str()) {
            Err(e) => {
                return Err(AppError::Validation(e));
            },
            Ok(()) => {},
        },
        None => {},
    }
    let current = match resolve_task_from(all, command.task_ref.as_str()) {
        Ok(t) => t,
        Err(e) => {
            return Err(e);
        },
    };
    let sub = collect_subtree_ids(all.as_slice(), &current.id);
    let ghost subv = id_set(sub@);
    let parent_change = command.clear_parent || command.parent_ref.is_some();
    let new_parent: Option<Task> = if command.clear_parent {
        None
    } else {
        match &command.parent_ref {
            Some(pr) => match resolve_task_from(all, pr.as_str()) {
                Err(e) => {
                    return Err(e);
                },
                Ok(p) => {
                    if contains_task_id(&sub, &p.id) {
                        return Err(AppError::TaskParentCycle { task_id: current.id.clone(), parent_id: p.id });
                    }
                    Some(p)
                },
            },
            None => match &current.parent_id {
                Some(pid) => find_task_cloned(all.as_slice(), pid),
                None => None,
            },
        }
    };
    assert(desired_parent(tv, *command, current@, subv) == Ok::<Option<TaskView>, AppErrorView>(opt_view(new_parent)));
    let space_ref = opt_str_view(&command.space_ref);
    let new_space = match &new_parent {
        Some(p) => match place_under_parent(repo, p, space_ref) {
            Ok(s) => s,
            Err(e) => {
                return Err(e);
            },
        },
        None => match space_ref {
            Some(rf) => {
                let spaces = SpaceService::new();
                match spaces.resolve_space(repo, rf, true) {
                    Ok(s) => s,
                    Err(e) => {
                        return Err(e);
                    },
                }
            },
            None => match repo.load_space(&current.space_id) {
                Ok(s) => s,
                Err(e) => {
                    return Err(AppError::Storage(e));
                },
            },
        },
    };
    if command.space_ref.is_some() && !parent_change {
        match &current.parent_id {
            Some(pid) => match find_task_cloned(all.as_slice(), pid) {
                Some(par) => {
                    if par.space_id.0 != new_space.id.0 {
                        return Err(AppError::CrossSpaceParentMismatch {
                            task_id: current.id.clone(),
                            parent_id: par.id.clone(),
                            parent_space_id: par.space_id.clone(),
                            target_space_id: new_space.id.clone(),
                        });
                    }
                },
                None => {},
            },
            None => {},
        }
    }
    Ok((current, sub, new_parent, new_space))
}

proof fn lemma_edited_at(tasks: Seq<TaskView>, c: EditTaskCommand, plan: EditPlan, now: Timestamp, k: int)
    requires
        0 <= k < subtree_tasks(tasks, plan.sub).len(),
    ensures
        edited_tasks(tasks, c, plan, now).len() == subtree_tasks(tasks, plan.sub).len(),
        edited_tasks(tasks, c, plan, now)[k] == ({
            let upd = subtree_tasks(tasks, plan.sub);
            if k == root_pos(upd, plan.current.id) {
                edited_root(tasks, c, plan, upd[k], now)
            } else if space_changed(plan) {
                TaskView { space_id: plan.space.id, updated_at: now, ..upd[k] }
            } else {
                upd[k]
            }
        }),
{
}

/// Builds the edited subtree and the edited task.
fn apply_edit(all: &Vec<Task>, command: &EditTaskCommand, current: &Task, sub: &Vec<TaskId>, new_parent: &Option<Task>, new_space: &crate::model::Space, now: Timestamp) -> (r: (Vec<Task>, Task))
    requires
        orders_bounded(views(all@)),
        exists|i: int| is_first_with(views(all@), current@.id, i) && views(all@)[i] == current@,
        id_set(sub@).contains(current@.id),
    ensures
        ({
            let plan = plan_of(*current, *sub, *new_parent, *new_space);
            let upd = subtree_tasks(views(all@), plan.sub);
            &&& 0 <= root_pos(upd, current@.id) < upd.len()
            &&& views(r.0@) == edited_tasks(views(all@), *command, plan, now)
            &&& r.1@ == edited_root(views(all@), *command, plan, upd[root_pos(upd, current@.id)], now)
        }),
{
    let ghost tv = views(all@);
    let ghost plan = plan_of(*current, *sub, *new_parent, *new_space);
    let updated = subtree_list(all, sub);
    let ghost upd = views(updated@);
    proof {
        let i0 = choose|i: int| is_first_with(tv, current@.id, i) && tv[i] == current@;
        tv.lemma_filter_contains(in_set(plan.sub), i0);
        assert(tv.filter(in_set(plan.sub)).contains(tv[i0]));
        let j = choose|j: int| 0 <= j < upd.len() && upd[j] == tv[i0];
        lemma_first_exists(upd, current@.id, j);
    }
    let parent_change = command.clear_parent || command.parent_ref.is_some();
    let reparents = !same_opt_id(new_parent, &current.parent_id);
    let moves_space = new_space.id.0 != current.space_id.0;
    let order = if reparents || moves_space {
        let parent_id: Option<&TaskId> = match new_parent {
            Some(p) => Some(&p.id),
            None => None,
        };
        next_sort_order(all.as_slice(), &new_space.id, parent_id, sub)
    } else {
        0
    };
    let rp = match find_task_index(updated.as_slice(), &current.id) {
        Some(i) => i,
        None => {
            proof {
                assert(false);
            }
            0
        },
    };
    assert(rp as int == root_pos(upd, current@.id)) by {
        let c = choose|i: int| is_first_with(upd, current@.id, i);
        if c < rp {
            assert(upd[c].id != current@.id);
        } else if rp < c {
            assert(upd[rp as int].id != current@.id);
        }
    }
    let mut edited: Vec<Task> = Vec::new();
    let n = updated.len();
    let mut k: usize = 0;
    let mut result: Task = updated[rp].clone();
    let ghost target = edited_tasks(tv, *command, plan, now);
    assert(views(edited@) =~= target.take(0));
    while k < n
        invariant
            n == updated@.len(),
            upd == views(updated@),
            rp < n,
            rp as int == root_pos(upd, current@.id),
            target == edited_tasks(tv, *command, plan, now),
            plan == plan_of(*current, *sub, *new_parent, *new_space),
            tv == views(all@),
            upd == subtree_tasks(tv, plan.sub),
            target.len() == n,
            k <= n,
            views(edited@) == target.take(k as int),
            k > rp ==> result@ == edited_root(tv, *command, plan, upd[rp as int], now),
            moves_space == space_changed(plan),
            reparents == parent_changed(plan),
            (reparents || moves_space) ==> order == next_order(tv, plan.space.id, opt_id(plan.parent), plan.sub),
            parent_change == parent_change_requested(*command),
            new_space@ == plan.space,
            opt_view(*new_parent) == plan.parent,
        decreases n - k,
    {
        let mut t = updated[k].clone();
        assert(upd[k as int] == updated@[k as int]@);
        assert(t@ == upd[k as int]);
        if k == rp {
            match &command.title {
                Some(title) => {
                    t.title = title.clone();
                },
                None => {},
            }
            match &command.description {
                Some(d) => {
                    t.description = Some(d.clone());
                },
                None => {},
            }
            if command.clear_description {
                t.description = None;
            }
            match command.status {
                Some(st) => {
                    t.status = st;
                },
                None => {},
            }
            if parent_change {
                t.parent_id = match new_parent {
                    Some(p) => Some(p.id.clone()),
                    None => None,
                };
            }
            if reparents || moves_space {
                t.sort_order = order;
            }
            t.space_id = new_space.id.clone();
            t.updated_at = now;
            assert(t@ =~= edited_root(tv, *command, plan, upd[k as int], now));
            result = t.clone();
        } else if moves_space {
            t.space_id = new_space.id.clone();
            t.updated_at = now;
            assert(t@ =~= TaskView { space_id: plan.space.id, updated_at: now, ..upd[k as int] });
        }
        proof {
            lemma_edited_at(tv, *command, plan, now, k as int);
            assert(plan.current == current@);
            assert(subtree_tasks(tv, plan.sub) == upd);
            if k == rp {
                assert(target[k as int] == edited_root(tv, *command, plan, upd[k as int], now));
            } else if moves_space {
                assert(space_changed(plan));
                assert(target[k as int] == TaskView { space_id: plan.space.id, updated_at: now, ..upd[k as int] });
            } else {
                assert(target[k as int] == upd[k as int]);
            }
        }
        assert(target[k as int] == t@);
        let ghost before = views(edited@);
        edited.push(t);
        assert(views(edited@) =~= before.push(target[k as int]));
        assert(views(edited@) =~= target.take(k + 1));
        k = k + 1;
    }
    assert(target.take(n as int) =~= target);
    (edited, result)
}

// ---------------------------------------------------------------------------
// Subtree operations

pub open spec fn upsert_entries(ts: Seq<TaskView>) -> Seq<PendingOperationEntryView> {
    ts.map_values(|t: TaskView| PendingOperationEntryView::TaskUpsert(t))
}

/// The operation ran with these entries.
pub open spec fn operation_done(old_repo: RepoView, new_repo: RepoView, kind: PendingOperationKind, entries: Seq<PendingOperationEntryView>) -> bool {
    exists|op: PendingOperationView| op.kind == kind && op.entries == entries && new_repo == #[trigger] executed(old_repo, op)
}

/// The outcome of an operation on a task subtree: the task reloaded after
/// the operation, or the storage error when it is no longer listed.
pub open spec fn reloaded(repo: RepoView, id: Seq<char>, affected: nat, r: Result<OperationOutcome, AppError>) -> bool {
    match find_task(all_tasks(repo), id) {
        Some(t) => r matches Ok(out) && out.root_space is None && out.affected_count == affected
            && (out.root_task matches Some(x) && x@ == t),
        None => r matches Err(e) && e@ == AppErrorView::Storage(StorageErrorView::TaskNotFound(id)),
    }
}

pub open spec fn archived_copy(now: Timestamp) -> spec_fn(TaskView) -> TaskView {
    |t: TaskView| TaskView { archived: true, updated_at: now, ..t }
}

pub open spec fn restored_copy(status: TaskStatus, now: Timestamp) -> spec_fn(TaskView) -> TaskView {
    |t: TaskView| TaskView { archived: false, status, updated_at: now, ..t }
}

/// The subtree of `root` archived at `now`, the operation run, the root
/// reloaded.
pub open spec fn archive_done(old_repo: RepoView, new_repo: RepoView, root: TaskView, now: Timestamp, r: Result<OperationOutcome, AppError>) -> bool {
    let tasks = all_tasks(old_repo);
    let sub = subtree_tasks(tasks, subtree_of(tasks, root.id));
    &&& operation_done(old_repo, new_repo, PendingOperationKind::TaskArchive, upsert_entries(sub.map_values(archived_copy(now))))
    &&& reloaded(new_repo, root.id, sub.len(), r)
}

/// The subtree of `root` restored with the status at `now`, the operation
/// run, the root reloaded.
pub open spec fn restore_done(old_repo: RepoView, new_repo: RepoView, root: TaskView, status: TaskStatus, now: Timestamp, r: Result<OperationOutcome, AppError>) -> bool {
    let tasks = all_tasks(old_repo);
    let sub = subtree_tasks(tasks, subtree_of(tasks, root.id));
    &&& operation_done(old_repo, new_repo, PendingOperationKind::TaskRestore, upsert_entries(sub.map_values(restored_copy(status, now))))
    &&& reloaded(new_repo, root.id, sub.len(), r)
}

/// An operation is refused while another is pending.
pub open spec fn refused_pending(old_repo: RepoView, new_repo: RepoView, r: Result<OperationOutcome, AppError>) -> bool {
    old_repo.state.pending_operation matches Some(p) && (r matches Err(e)
        && e@ == AppErrorView::PendingOperationInProgress { operation_id: p.operation_id, kind: p.kind })
        && new_repo == old_repo
}

/// Runs the upserts of `tasks` as one operation.
fn run_upserts(repo: &mut Repository, kind: PendingOperationKind, tasks: &Vec<Task>) -> (r: Result<(), AppError>)
    requires
        old(repo).wf(),
    ensures
        final(repo).wf(),
        match old(repo)@.state.pending_operation {
            Some(p) => (r matches Err(e) && e@ == AppErrorView::PendingOperationInProgress { operation_id: p.operation_id, kind: p.kind })
                && final(repo)@ == old(repo)@,
            None => r is Ok && operation_done(old(repo)@, final(repo)@, kind, upsert_entries(views(tasks@))),
        },
{
    let mut entries: Vec<PendingOperationEntry> = Vec::new();
    let n = tasks.len();
    let mut i: usize = 0;
    while i < n
        invariant
            n == tasks@.len(),
            i <= n,
            views(entries@) == upsert_entries(views(tasks@)).take(i as int),
        decreases n - i,
    {
        let ghost before = views(entries@);
        let t = tasks[i].clone();
        entries.push(PendingOperationEntry::TaskUpsert(t));
        assert(upsert_entries(views(tasks@))[i as int] == PendingOperationEntryView::TaskUpsert(tasks@[i as int]@));
        assert(views(entries@) =~= before.push(PendingOperationEntryView::TaskUpsert(tasks@[i as int]@)));
        assert(views(entries@) =~= upsert_entries(views(tasks@)).take(i + 1));
        i = i + 1;
    }
    assert(upsert_entries(views(tasks@)).take(n as int) =~= upsert_entries(views(tasks@)));
    let maintenance = MaintenanceService::new();
    maintenance.execute_operation(repo, kind, entries)
}

/// Reloads the root of an operation.
fn reload_root(repo: &Repository, id: &TaskId, affected: usize) -> (r: Result<OperationOutcome, AppError>)
    ensures
        reloaded(repo@, id@, affected as nat, r),
{
    match repo.load_task(id) {
        Ok(t) => Ok(OperationOutcome { root_task: Some(t), root_space: None, affected_count: affected }),
        Err(e) => Err(AppError::Storage(e)),
    }
}

// ---------------------------------------------------------------------------
// Purging

/// `i` is the first task of the subtree that is not archived.
pub open spec fn is_first_offender(tasks: Seq<TaskView>, sub: Set<Seq<char>>, i: int) -> bool {
    &&& 0 <= i < tasks.len()
    &&& sub.contains(tasks[i].id) && !tasks[i].archived
    &&& forall|j: int| 0 <= j < i ==> !(sub.contains(#[trigger] tasks[j].id) && !tasks[j].archived)
}

pub open spec fn first_offender(tasks: Seq<TaskView>, sub: Set<Seq<char>>) -> Option<TaskView> {
    if exists|i: int| is_first_offender(tasks, sub, i) {
        Some(tasks[choose|i: int| is_first_offender(tasks, sub, i)])
    } else {
        None
    }
}

/// Where `x` goes among tasks sorted newest first: before the first one
/// created earlier.
pub open spec fn created_insert_pos(r: Seq<TaskView>, x: TaskView) -> int
    decreases r.len(),
{
    if r.len() == 0 {
        0
    } else if x.created_at.unix_nanos > r[0].created_at.unix_nanos {
        0
    } else {
        1 + created_insert_pos(r.drop_first(), x)
    }
}

/// The tasks sorted newest first; tasks created together keep their order.
pub open spec fn newest_created_first(s: Seq<TaskView>) -> Seq<TaskView>
    decreases s.len(),
{
    if s.len() == 0 {
        s
    } else {
        let r = newest_created_first(s.drop_last());
        r.insert(created_insert_pos(r, s.last()), s.last())
    }
}

proof fn lemma_created_insert_pos_is(r: Seq<TaskView>, x: TaskView, p: int)
    requires
        0 <= p <= r.len(),
        forall|q: int| 0 <= q < p ==> !(x.created_at.unix_nanos > #[trigger] r[q].created_at.unix_nanos),
        p < r.len() ==> x.created_at.unix_nanos > r[p].created_at.unix_nanos,
    ensures
        created_insert_pos(r, x) == p,
    decreases p,
{
    if p > 0 {
        assert(!(x.created_at.unix_nanos > r[0].created_at.unix_nanos));
        assert forall|q: int| 0 <= q < p - 1 implies !(x.created_at.unix_nanos > #[trigger] r.drop_first()[q].created_at.unix_nanos) by {
            assert(r.drop_first()[q] == r[q + 1]);
        }
        lemma_created_insert_pos_is(r.drop_first(), x, p - 1);
    }
}

fn sort_newest_created_first(tasks: &Vec<Task>) -> (r: Vec<Task>)
    ensures
        views(r@) == newest_created_first(views(tasks@)),
{
    let ghost sv = views(tasks@);
    let mut out: Vec<Task> = Vec::new();
    let n = tasks.len();
    let mut i: usize = 0;
    assert(sv.take(0) =~= Seq::<TaskView>::empty());
    assert(views(out@) =~= Seq::<TaskView>::empty());
    while i < n
        invariant
            n == tasks@.len(),
            sv == views(tasks@),
            i <= n,
            views(out@) == newest_created_first(sv.take(i as int)),
        decreases n - i,
    {
        let x = tasks[i].clone();
        let ghost ov = views(out@);
        let m = out.len();
        let mut p: usize = 0;
        while p < m && !(x.created_at.unix_nanos > out[p].created_at.unix_nanos)
            invariant
                m == out@.len(),
                ov == views(out@),
                p <= m,
                forall|q: int| 0 <= q < p ==> !(x@.created_at.unix_nanos > #[trigger] ov[q].created_at.unix_nanos),
            decreases m - p,
        {
            assert(ov[p as int] == out[p as int]@);
            p = p + 1;
        }
        proof {
            if p < m {
                assert(ov[p as int] == out[p as int]@);
            }
            lemma_created_insert_pos_is(ov, x@, p as int);
            assert(sv.take(i + 1).drop_last() =~= sv.take(i as int));
            assert(sv.take(i + 1).last() == x@);
        }
        out.insert(p, x);
        assert(views(out@) =~= ov.insert(p as int, sv[i as int]));
        i = i + 1;
    }
    assert(sv.take(n as int) =~= sv);
    out
}

pub open spec fn delete_entries(ts: Seq<TaskView>) -> Seq<PendingOperationEntryView> {
    ts.map_values(|t: TaskView| PendingOperationEntryView::TaskDelete { task_id: t.id })
}

// ---------------------------------------------------------------------------
// Reordering

pub open spec fn same_place(t: TaskView) -> spec_fn(TaskView) -> bool {
    |c: TaskView| c.space_id == t.space_id && c.parent_id == t.parent_id
}

/// The siblings of `t` (itself included) in manual order.
pub open spec fn manual_siblings(tasks: Seq<TaskView>, t: TaskView) -> Seq<TaskView> {
    sort_tasks_spec(tasks.filter(same_place(t)), SortMode::Manual)
}

pub open spec fn first_pos(s: Seq<TaskView>, id: Seq<char>) -> int {
    choose|i: int| is_first_with(s, id, i)
}

pub open spec fn swapped(s: Seq<TaskView>, a: int, b: int) -> Seq<TaskView> {
    s.update(a, s[b]).update(b, s[a])
}

/// The siblings renumbered 0, 1, 2, ...: those whose position changes are
/// stamped `now`.
pub open spec fn renumbered(s: Seq<TaskView>, now: Timestamp) -> Seq<TaskView> {
    s.map(|k: int, t: TaskView| if t.sort_order != k as i64 { TaskView { sort_order: k as i64, updated_at: now, ..t } } else { t })
}

/// The renumbered siblings whose position changed, in order: those saved.
pub open spec fn renumber_saves(s: Seq<TaskView>, now: Timestamp) -> Seq<TaskView>
    decreases s.len(),
{
    if s.len() == 0 {
        Seq::empty()
    } else {
        let prev = renumber_saves(s.drop_last(), now);
        let k = s.len() - 1;
        if s.last().sort_order != k as i64 {
            prev.push(TaskView { sort_order: k as i64, updated_at: now, ..s.last() })
        } else {
            prev
        }
    }
}

/// The task to move and its siblings after the swap, or why not.
pub open spec fn move_plan(repo: RepoView, reference: Seq<char>, direction: MoveTaskDirection) -> Result<(TaskView, Seq<TaskView>), AppErrorView> {
    let tasks = all_tasks(repo);
    match task_found(tasks, reference) {
        Err(e) => Err(e),
        Ok(t) => if space_index(repo.spaces, t.space_id) < 0 {
            Err(AppErrorView::Storage(StorageErrorView::SpaceNotFound(t.space_id)))
        } else if repo.spaces[space_index(repo.spaces, t.space_id)].state != SpaceState::Active {
            Err(AppErrorView::ArchivedSpace(repo.spaces[space_index(repo.spaces, t.space_id)].id))
        } else {
            let sibs = manual_siblings(tasks, t);
            let idx = first_pos(sibs, t.id);
            match direction {
                MoveTaskDirection::Up => if idx > 0 {
                    Ok((t, swapped(sibs, idx, idx - 1)))
                } else {
                    Err(AppErrorView::TaskReorderBoundary { task_id: t.id, direction: direction_label(direction) })
                },
                MoveTaskDirection::Down => if idx + 1 < sibs.len() {
                    Ok((t, swapped(sibs, idx, idx + 1)))
                } else {
                    Err(AppErrorView::TaskReorderBoundary { task_id: t.id, direction: direction_label(direction) })
                },
            }
        },
    }
}

/// The outcome of a move: the refusal, or the renumbered siblings saved.
pub open spec fn move_outcome(old_repo: RepoView, new_repo: RepoView, reference: Seq<char>, direction: MoveTaskDirection, r: Result<Task, AppError>) -> bool {
    match move_plan(old_repo, reference, direction) {
        Err(e) => r matches Err(x) && x@ == e && new_repo == old_repo,
        Ok(plan) => exists|now: Timestamp| #[trigger] move_done(old_repo, new_repo, plan.0, plan.1, now, r),
    }
}

proof fn lemma_move_outcome(old_repo: RepoView, new_repo: RepoView, reference: Seq<char>, direction: MoveTaskDirection, r: Result<Task, AppError>, t: TaskView, sw: Seq<TaskView>, now: Timestamp)
    requires
        move_plan(old_repo, reference, direction) == Ok::<(TaskView, Seq<TaskView>), AppErrorView>((t, sw)),
        move_done(old_repo, new_repo, t, sw, now, r),
    ensures
        move_outcome(old_repo, new_repo, reference, direction, r),
{
    let p = move_plan(old_repo, reference, direction);
    assert(p->Ok_0 == (t, sw));
    assert(p->Ok_0.0 == t);
    assert(p->Ok_0.1 == sw);
    assert(move_done(old_repo, new_repo, p->Ok_0.0, p->Ok_0.1, now, r));
    assert(exists|n: Timestamp| #[trigger] move_done(old_repo, new_repo, p->Ok_0.0, p->Ok_0.1, n, r));
    assert(p is Ok);
}

pub open spec fn move_done(old_repo: RepoView, new_repo: RepoView, t: TaskView, sw: Seq<TaskView>, now: Timestamp, r: Result<Task, AppError>) -> bool {
    &&& new_repo == saved_tasks(old_repo, renumber_saves(sw, now))
    &&& r matches Ok(x) && x@ == renumbered(sw, now)[first_pos(sw, t.id)]
}

/// The saves of a renumbering are the renumbered siblings whose position
/// changed, and no others.
proof fn lemma_renumber_saves(s: Seq<TaskView>, now: Timestamp)
    ensures
        forall|x: TaskView| #[trigger] renumber_saves(s, now).contains(x)
            <==> exists|k: int| 0 <= k < s.len() && s[k].sort_order != k as i64 && x == #[trigger] renumbered(s, now)[k],
    decreases s.len(),
{
    if s.len() > 0 {
        let init = s.drop_last();
        lemma_renumber_saves(init, now);
        let n = s.len() - 1;
        let prev = renumber_saves(init, now);
        assert forall|k: int| 0 <= k < init.len() implies #[trigger] renumbered(init, now)[k] == renumbered(s, now)[k] && init[k] == s[k] by {
        }
        assert forall|x: TaskView| #[trigger] renumber_saves(s, now).contains(x)
            <==> exists|k: int| 0 <= k < s.len() && s[k].sort_order != k as i64 && x == #[trigger] renumbered(s, now)[k] by {
            if renumber_saves(s, now).contains(x) {
                if prev.contains(x) {
                    let k = choose|k: int| 0 <= k < init.len() && init[k].sort_order != k as i64 && x == #[trigger] renumbered(init, now)[k];
                    assert(renumbered(init, now)[k] == renumbered(s, now)[k]);
                } else {
                    assert(s.last().sort_order != n as i64);
                    assert(renumber_saves(s, now) == prev.push(TaskView { sort_order: n as i64, updated_at: now, ..s.last() }));
                    assert(x == renumbered(s, now)[n]);
                }
            }
            if exists|k: int| 0 <= k < s.len() && s[k].sort_order != k as i64 && x == #[trigger] renumbered(s, now)[k] {
                let k = choose|k: int| 0 <= k < s.len() && s[k].sort_order != k as i64 && x == #[trigger] renumbered(s, now)[k];
                if k < n {
                    assert(renumbered(init, now)[k] == renumbered(s, now)[k]);
                    assert(prev.contains(x));
                    let m = choose|m: int| 0 <= m < prev.len() && prev[m] == x;
                    assert(renumber_saves(s, now)[m] == x);
                } else {
                    assert(renumber_saves(s, now) == prev.push(TaskView { sort_order: n as i64, updated_at: now, ..s.last() }));
                    assert(renumber_saves(s, now)[prev.len() as int] == x);
                }
            }
        }
    }
}

/// The siblings `sibs` with places `i` and `j` traded, renumbered at
/// `now`: saved where their number changed, the moved task `t` returned.
pub open spec fn moved_into_place(old_repo: RepoView, new_repo: RepoView, t: TaskView, sibs: Seq<TaskView>, i: int, j: int, now: Timestamp, r: Result<Task, AppError>) -> bool {
    let sw = swapped(sibs, i, j);
    let order = renumbered(sw, now);
    &&& new_repo == saved_tasks(old_repo, renumber_saves(sw, now))
    &&& order.len() == sibs.len()
    &&& order[j].id == t.id
    &&& order[i].id == sibs[j].id
    &&& (forall|k: int| 0 <= k < sibs.len() && k != i && k != j ==> (#[trigger] order[k]).id == sibs[k].id)
    &&& (forall|k: int| 0 <= k < order.len() ==> (#[trigger] order[k]).sort_order == k as i64)
    &&& (forall|x: TaskView| #[trigger] renumber_saves(sw, now).contains(x)
        <==> exists|k: int| 0 <= k < sw.len() && sw[k].sort_order != k as i64 && x == #[trigger] renumbered(sw, now)[k])
    &&& r matches Ok(x) && x@.id == t.id
    &&& sibs[j].id != t.id ==> (r matches Ok(x) && x@ == order[j])
}

/// What a move did, read off the repository before it: see
/// `law_move_swaps_neighbours`.
pub open spec fn move_explained(old_repo: RepoView, new_repo: RepoView, reference: Seq<char>, direction: MoveTaskDirection, r: Result<Task, AppError>) -> bool {
    match task_found(all_tasks(old_repo), reference) {
        Err(e) => r matches Err(x) && x@ == e && new_repo == old_repo,
        Ok(t) => {
            let si = space_index(old_repo.spaces, t.space_id);
            let sibs = manual_siblings(all_tasks(old_repo), t);
            let i = first_pos(sibs, t.id);
            let j = if direction is Up { i - 1 } else { i + 1 };
            if si < 0 || old_repo.spaces[si].state != SpaceState::Active {
                r is Err && new_repo == old_repo
            } else if !(0 <= j < sibs.len()) {
                (r matches Err(x) && x@ == AppErrorView::TaskReorderBoundary { task_id: t.id, direction: direction_label(direction) })
                    && new_repo == old_repo
            } else {
                0 <= i < sibs.len() && sibs[i].id == t.id && moved_at_some_time(old_repo, new_repo, t, sibs, i, j, r)
            }
        },
    }
}

/// `moved_into_place` at some instant.
pub open spec fn moved_at_some_time(old_repo: RepoView, new_repo: RepoView, t: TaskView, sibs: Seq<TaskView>, i: int, j: int, r: Result<Task, AppError>) -> bool {
    exists|now: Timestamp| #[trigger] moved_into_place(old_repo, new_repo, t, sibs, i, j, now, r)
}

/// What moving a task does, in full. An unknown reference or a task of an
/// archived space is refused and nothing is saved; so is a move past the
/// first (up) or last (down) of its siblings in manual order, with the
/// boundary error. Otherwise the task trades places with its neighbour in
/// that order, the siblings are renumbered 0, 1, 2, ... in the new order,
/// exactly those whose position number changed are saved, and the moved
/// task is returned with its new position.
#[verifier::spinoff_prover]
pub proof fn law_move_swaps_neighbours(old_repo: RepoView, new_repo: RepoView, reference: Seq<char>, direction: MoveTaskDirection, r: Result<Task, AppError>)
    requires
        move_outcome(old_repo, new_repo, reference, direction, r),
    ensures
        move_explained(old_repo, new_repo, reference, direction, r),
{
    let tasks = all_tasks(old_repo);
    let plan = move_plan(old_repo, reference, direction);
    match task_found(tasks, reference) {
        Err(e) => {
            assert(plan == Err::<(TaskView, Seq<TaskView>), AppErrorView>(e));
            assert(r matches Err(x) && x@ == e && new_repo == old_repo);
            assert(move_explained(old_repo, new_repo, reference, direction, r));
        },
        Ok(t) => {
            let si = space_index(old_repo.spaces, t.space_id);
            let sibs = manual_siblings(tasks, t);
            let i = first_pos(sibs, t.id);
            let j = if direction is Up { i - 1 } else { i + 1 };
            let unsorted = tasks.filter(same_place(t));
            lemma_found_current(tasks, reference);
            let i0 = choose|i: int| is_first_with(tasks, t.id, i) && tasks[i] == t;
            tasks.lemma_filter_contains(same_place(t), i0);
            law_sort_tasks_sorted_permutation(unsorted, SortMode::Manual);
            broadcast use vstd::seq_lib::group_to_multiset_ensures;
            assert(unsorted.contains(t));
            assert(sibs.to_multiset().count(t) > 0);
            assert(sibs.contains(t));
            let m = choose|m: int| 0 <= m < sibs.len() && sibs[m] == t;
            lemma_first_exists(sibs, t.id, m);
            assert(is_first_with(sibs, t.id, i));
            if si < 0 || old_repo.spaces[si].state != SpaceState::Active {
                assert(plan is Err);
                assert(r is Err && new_repo == old_repo);
                assert(move_explained(old_repo, new_repo, reference, direction, r));
            } else if !(0 <= j < sibs.len()) {
                assert(plan == Err::<(TaskView, Seq<TaskView>), AppErrorView>(
                    AppErrorView::TaskReorderBoundary { task_id: t.id, direction: direction_label(direction) }));
                assert((r matches Err(x) && x@ == AppErrorView::TaskReorderBoundary { task_id: t.id, direction: direction_label(direction) })
                    && new_repo == old_repo);
                assert(move_explained(old_repo, new_repo, reference, direction, r));
            } else {
                let sw = swapped(sibs, i, j);
                assert(plan == Ok::<(TaskView, Seq<TaskView>), AppErrorView>((t, sw)));
                let now = choose|now: Timestamp| #[trigger] move_done(old_repo, new_repo, t, sw, now, r);
                assert(move_done(old_repo, new_repo, t, sw, now, r));
                lemma_renumber_saves(sw, now);
                assert(sw[j] == sibs[i]);
                lemma_first_exists(sw, t.id, j);
                let f = first_pos(sw, t.id);
                assert(is_first_with(sw, t.id, f));
                if sibs[j].id != t.id {
                    assert(is_first_with(sw, t.id, j)) by {
                        assert forall|k: int| 0 <= k < j implies sw[k].id != t.id by {
                            if k != i {
                                assert(sw[k] == sibs[k]);
                            } else {
                                assert(sw[i] == sibs[j]);
                            }
                        }
                    }
                    if f < j {
                        assert(sw[f].id != t.id);
                    } else if j < f {
                        assert(sw[j].id != t.id);
                    }
                }
                let order = renumbered(sw, now);
                assert forall|k: int| 0 <= k < sibs.len() && k != i && k != j implies (#[trigger] order[k]).id == sibs[k].id by {
                    assert(sw[k] == sibs[k]);
                }
                assert(moved_into_place(old_repo, new_repo, t, sibs, i, j, now, r));
                assert(sibs[i].id =~= t.id);
                assert(moved_at_some_time(old_repo, new_repo, t, sibs, i, j, r));
                assert(move_explained(old_repo, new_repo, reference, direction, r));
            }
        },
    }
}

fn collect_same_place(tasks: &Vec<Task>, t: &Task) -> (r: Vec<Task>)
    ensures
        views(r@) == views(tasks@).filter(same_place(t@)),
{
    let ghost tv = views(tasks@);
    let ghost pred = same_place(t@);
    let mut out: Vec<Task> = Vec::new();
    let n = tasks.len();
    let mut i: usize = 0;
    proof {
        reveal_with_fuel(Seq::<_>::filter, 1);
        assert(tv.take(0) =~= Seq::<TaskView>::empty());
    }
    while i < n
        invariant
            n == tasks@.len(),
            tv == views(tasks@),
            pred == same_place(t@),
            i <= n,
            views(out@) == tv.take(i as int).filter(pred),
        decreases n - i,
    {
        proof {
            reveal_with_fuel(Seq::<_>::filter, 1);
            assert(tv.take(i + 1).drop_last() =~= tv.take(i as int));
            assert(tv.take(i + 1).last() == tv[i as int]);
        }
        let c = &tasks[i];
        let same_parent = match (&c.parent_id, &t.parent_id) {
            (Some(a), Some(b)) => a.0 == b.0,
            (None, None) => true,
            _ => false,
        };
        if c.space_id.0 == t.space_id.0 && same_parent {
            let x = c.clone();
            let ghost before = views(out@);
            out.push(x);
            assert(views(out@) =~= before.push(tv[i as int]));
        }
        i = i + 1;
    }
    assert(tv.take(n as int) =~= tv);
    out
}

/// The position of the first task of the subtree that is not archived.
fn find_offender(all: &Vec<Task>, sub: &Vec<TaskId>) -> (r: Option<usize>)
    ensures
        match r {
            Some(i) => i < all@.len() && first_offender(views(all@), id_set(sub@)) == Some(all@[i as int]@),
            None => first_offender(views(all@), id_set(sub@)) is None,
        },
{
    let ghost tv = views(all@);
    let n = all.len();
    let mut i: usize = 0;
    while i < n
        invariant
            n == all@.len(),
            tv == views(all@),
            i <= n,
            forall|j: int| 0 <= j < i ==> !(id_set(sub@).contains(#[trigger] tv[j].id) && !tv[j].archived),
        decreases n - i,
    {
        if contains_task_id(sub, &all[i].id) && !all[i].archived {
            proof {
                assert(is_first_offender(tv, id_set(sub@), i as int));
                let k = choose|k: int| is_first_offender(tv, id_set(sub@), k);
                if k < i {
                    assert(!(id_set(sub@).contains(tv[k].id) && !tv[k].archived));
                } else if i < k {
                    assert(!(id_set(sub@).contains(tv[i as int].id) && !tv[i as int].archived));
                }
            }
            return Some(i);
        }
        i = i + 1;
    }
    assert(!exists|k: int| is_first_offender(tv, id_set(sub@), k));
    None
}

fn delete_entry_list(ordered: &Vec<Task>) -> (r: Vec<PendingOperationEntry>)
    ensures
        views(r@) == delete_entries(views(ordered@)),
{
    let mut entries: Vec<PendingOperationEntry> = Vec::new();
    let m = ordered.len();
    let mut k: usize = 0;
    while k < m
        invariant
            m == ordered@.len(),
            k <= m,
            views(entries@) == delete_entries(views(ordered@)).take(k as int),
        decreases m - k,
    {
        let ghost before = views(entries@);
        let e = PendingOperationEntry::TaskDelete { task_id: ordered[k].id.clone() };
        entries.push(e);
        assert(delete_entries(views(ordered@))[k as int] == PendingOperationEntryView::TaskDelete { task_id: ordered@[k as int]@.id });
        assert(views(entries@) =~= before.push(PendingOperationEntryView::TaskDelete { task_id: ordered@[k as int]@.id }));
        assert(views(entries@) =~= delete_entries(views(ordered@)).take(k + 1));
        k = k + 1;
    }
    assert(delete_entries(views(ordered@)).take(m as int) =~= delete_entries(views(ordered@)));
    entries
}

/// Gives the siblings the positions 0, 1, 2, ... and saves those whose
/// position changes.
#[verifier::rlimit(40)]
fn renumber_and_save(repo: &mut Repository, sibs: &mut Vec<Task>, now: Timestamp)
    requires
        old(repo).wf(),
    ensures
        final(repo).wf(),
        views(final(sibs)@) == renumbered(views(old(sibs)@), now),
        final(repo)@ == saved_tasks(old(repo)@, renumber_saves(views(old(sibs)@), now)),
{
    let ghost sw = views(sibs@);
    let ghost start = repo@;
    let n = sibs.len();
    let mut k: usize = 0;
    assert(sw.take(0) =~= Seq::<TaskView>::empty());
    while k < n
        invariant
            n == sibs@.len(),
            sw.len() == n,
            k <= n,
            forall|j: int| 0 <= j < k ==> #[trigger] sibs@[j]@ == renumbered(sw, now)[j],
            forall|j: int| k <= j < n ==> #[trigger] sibs@[j]@ == sw[j],
            repo.wf(),
            repo@ == saved_tasks(start, renumber_saves(sw.take(k as int), now)),
        decreases n - k,
    {
        let ghost prev = renumber_saves(sw.take(k as int), now);
        proof {
            assert(sw.take(k + 1).drop_last() =~= sw.take(k as int));
            assert(sw.take(k + 1).last() == sw[k as int]);
            assert(sibs@[k as int]@ == sw[k as int]);
        }
        let position = #[verifier::truncate] (k as i64);
        if sibs[k].sort_order != position {
            let mut t = sibs[k].clone();
            t.sort_order = position;
            t.touch(now);
            repo.save_task(&t);
            proof {
                assert(t@ == TaskView { sort_order: k as i64, updated_at: now, ..sw[k as int] });
                assert(renumber_saves(sw.take(k + 1), now) == prev.push(t@));
                assert(prev.push(t@).drop_last() =~= prev);
                assert(renumbered(sw, now)[k as int] == t@);
            }
            sibs.set(k, t);
        } else {
            proof {
                assert(renumber_saves(sw.take(k + 1), now) == prev);
                assert(renumbered(sw, now)[k as int] == sw[k as int]);
            }
        }
        k = k + 1;
    }
    assert(sw.take(n as int) =~= sw);
    assert(views(sibs@) =~= renumbered(sw, now));
}

// ---------------------------------------------------------------------------
// What each use case does

/// What `create_task` returns and leaves behind.
pub open spec fn create_task_outcome(before: RepoView, command: CreateTaskCommand, r: Result<Task, AppError>, after: RepoView) -> bool {
    &&& match create_plan(before, command.title@, opt_view(command.space_ref), opt_view(command.parent_ref)) {
        Err(e) => r matches Err(x) && x@ == e && after == before,
        Ok((s, p)) => r matches Ok(t) && is_long_id(t@.id, task_prefix()) && t@ == (TaskView {
            id: t@.id,
            space_id: s.id,
            title: command.title@,
            description: opt_view(command.description),
            status: command.status,
            archived: false,
            parent_id: opt_id(p),
            sort_order: next_order(all_tasks(before), s.id, opt_id(p), Set::empty()) as i64,
            logs: Seq::empty(),
            created_at: t@.created_at,
            updated_at: t@.created_at,
        }) && after == saved_task(before, t@),
    }
}

/// What `list_tasks` returns.
pub open spec fn list_tasks_outcome(repo: RepoView, query: ListTasksQuery, r: Result<TaskListResult, AppError>) -> bool {
    &&& match effective_space(repo, opt_view(query.space_ref), !query.allow_archived_space) {
        Err(e) => r matches Err(x) && x@ == e,
        Ok(s) => r matches Ok(res) && res.space@ == s
            && res.view == (match query.view { Some(v) => v, None => ViewMode::Todo })
            && res.sort == (match query.sort { Some(v) => v, None => repo.state.current_sort })
            && views(res.entries@) == task_list_entries(space_tasks(repo, s.id), res.view, res.sort),
    }
}

/// What `show_task` returns.
pub open spec fn show_task_outcome(repo: RepoView, query: ShowTaskQuery, r: Result<TaskDetails, AppError>) -> bool {
    &&& match task_found(all_tasks(repo), query.task_ref@) {
        Err(e) => r matches Err(x) && x@ == e,
        Ok(t) => if space_index(repo.spaces, t.space_id) < 0 {
            r matches Err(x) && x@ == AppErrorView::Storage(StorageErrorView::SpaceNotFound(t.space_id))
        } else {
            r matches Ok(d) && d.task@ == t && d.space@ == repo.spaces[space_index(repo.spaces, t.space_id)]
                && opt_view(d.parent) == (match t.parent_id { Some(pid) => find_task(all_tasks(repo), pid), None => None })
                && views(d.children@) == sort_tasks_spec(children_of(all_tasks(repo), t.id), SortMode::Manual)
                && views(d.logs@) == logs_newest_first(t.logs)
        },
    }
}

/// What `set_task_status` returns and leaves behind.
pub open spec fn set_task_status_outcome(before: RepoView, command: UpdateTaskStatusCommand, r: Result<Task, AppError>, after: RepoView) -> bool {
    &&& match task_found(all_tasks(before), command.task_ref@) {
        Err(e) => r matches Err(x) && x@ == e && after == before,
        Ok(t) => if command.status.finished() && all_tasks(before).filter(open_child(t.id)).len() > 0 {
            r matches Err(x) && x@ == AppErrorView::OpenSubtasks {
                task_id: t.id,
                open_count: all_tasks(before).filter(open_child(t.id)).len(),
            } && after == before
        } else {
            r matches Ok(x) && x@ == (TaskView {
                status: command.status,
                archived: command.status.finished(),
                updated_at: x@.updated_at,
                ..t
            }) && after == saved_task(before, x@)
        },
    }
}

/// What `add_task_log` returns and leaves behind.
pub open spec fn add_task_log_outcome(before: RepoView, command: AddTaskLogCommand, r: Result<Task, AppError>, after: RepoView) -> bool {
    &&& match task_found(all_tasks(before), command.task_ref@) {
        Err(e) => r matches Err(x) && x@ == e && after == before,
        Ok(t) => r matches Ok(x) && x@ == (TaskView {
            logs: t.logs.push(TaskLogView { at: x@.updated_at, message: command.message@ }),
            updated_at: x@.updated_at,
            ..t
        }) && after == saved_task(before, x@),
    }
}

/// What `edit_task` returns and leaves behind.
pub open spec fn edit_task_outcome(before: RepoView, command: EditTaskCommand, r: Result<Task, AppError>, after: RepoView) -> bool {
    &&& match edit_plan(before, command) {
        Err(e) => r matches Err(x) && x@ == e && after == before,
        Ok(plan) => r matches Ok(x) && {
            let tasks = all_tasks(before);
            let upd = subtree_tasks(tasks, plan.sub);
            &&& 0 <= root_pos(upd, plan.current.id) < upd.len()
            &&& x@ == edited_root(tasks, command, plan, upd[root_pos(upd, plan.current.id)], x@.updated_at)
            &&& after == saved_tasks(before, edited_tasks(tasks, command, plan, x@.updated_at))
        },
    }
}

/// What `archive_task` returns and leaves behind.
pub open spec fn archive_task_outcome(before: RepoView, command: ArchiveTaskCommand, r: Result<OperationOutcome, AppError>, after: RepoView) -> bool {
    &&& match task_found(all_tasks(before), command.task_ref@) {
        Err(e) => r matches Err(x) && x@ == e && after == before,
        Ok(root) => refused_pending(before, after, r)
            || (before.state.pending_operation is None
                && exists|now: Timestamp| #[trigger] archive_done(before, after, root, now, r)),
    }
}

/// What `restore_task` returns and leaves behind.
pub open spec fn restore_task_outcome(before: RepoView, command: RestoreTaskCommand, r: Result<OperationOutcome, AppError>, after: RepoView) -> bool {
    &&& match task_found(all_tasks(before), command.task_ref@) {
        Err(e) => r matches Err(x) && x@ == e && after == before,
        Ok(root) => if !root.archived {
            r matches Err(x) && x@ == AppErrorView::TaskMustBeArchived { task_id: root.id, action: "restore"@ }
                && after == before
        } else {
            match archived_ancestor(all_tasks(before), root.parent_id, (all_tasks(before).len() + 1) as nat) {
                Some(a) => r matches Err(x) && x@ == AppErrorView::TaskRestoreBlockedByArchivedAncestor { task_id: root.id, ancestor_id: a }
                    && after == before,
                None => refused_pending(before, after, r)
                    || (before.state.pending_operation is None
                        && exists|now: Timestamp| #[trigger] restore_done(before, after, root, command.status, now, r)),
            }
        },
    }
}

/// What `purge_task` returns and leaves behind.
pub open spec fn purge_task_outcome(before: RepoView, command: PurgeTaskCommand, r: Result<OperationOutcome, AppError>, after: RepoView) -> bool {
    &&& match task_found(all_tasks(before), command.task_ref@) {
        Err(e) => r matches Err(x) && x@ == e && after == before,
        Ok(root) => {
            let tasks = all_tasks(before);
            let sub = subtree_of(tasks, root.id);
            if !root.archived {
                r matches Err(x) && x@ == AppErrorView::TaskMustBeArchived { task_id: root.id, action: "purge"@ }
                    && after == before
            } else if sub.len() > 1 && !command.recursive {
                r matches Err(x) && x@ == AppErrorView::TaskPurgeRequiresRecursive { task_id: root.id, child_count: (sub.len() - 1) as nat }
                    && after == before
            } else {
                match first_offender(tasks, sub) {
                    Some(o) => r matches Err(x) && x@ == AppErrorView::TaskPurgeRequiresArchivedSubtree { task_id: root.id, offender_id: o.id }
                        && after == before,
                    None => refused_pending(before, after, r) || (before.state.pending_operation is None
                        && operation_done(before, after, PendingOperationKind::TaskPurge,
                            delete_entries(newest_created_first(subtree_tasks(tasks, sub))))
                        && (r matches Ok(out) && out.root_space is None && out.affected_count == subtree_tasks(tasks, sub).len()
                        && (out.root_task matches Some(x) && x@ == root))),
                }
            }
        },
    }
}

pub struct TaskService {}

impl TaskService {
    pub fn new() -> (r: Self) {
        TaskService {}
    }

    /// Every listed task.
    pub fn list_all_tasks(&self, repo: &Repository) -> (r: Result<Vec<Task>, AppError>)
        ensures
            r matches Ok(v) && views(v@) == all_tasks(repo@),
    {
        Ok(repo.list_all_tasks())
    }

    /// The tasks stored in a space.
    pub fn list_tasks_in_space(&self, repo: &Repository, space_id: &SpaceId) -> (r: Result<Vec<Task>, AppError>)
        ensures
            r matches Ok(v) && views(v@) == space_tasks(repo@, space_id@),
    {
        Ok(repo.list_tasks_in_space(space_id))
    }

    /// The id of the task a reference names.
    pub fn resolve_task_ref(&self, repo: &Repository, reference: &str) -> (r: Result<TaskId, AppError>)
        requires
            ids_split(repo@),
        ensures
            match task_found(all_tasks(repo@), reference@) {
                Ok(t) => r matches Ok(id) && id@ == t.id,
                Err(e) => r matches Err(x) && x@ == e,
            },
    {
        let tasks = all_tasks_of(repo);
        match resolve_task_from(&tasks, reference) {
            Ok(t) => Ok(t.id),
            Err(e) => Err(e),
        }
    }

    /// The first listed task with the id.
    pub fn load_task(&self, repo: &Repository, task_id: &TaskId) -> (r: Result<Task, AppError>)
        ensures
            match find_task(all_tasks(repo@), task_id@) {
                Some(t) => r matches Ok(x) && x@ == t,
                None => r matches Err(e) && e@ == AppErrorView::Storage(StorageErrorView::TaskNotFound(task_id@)),
            },
    {
        match repo.load_task(task_id) {
            Ok(t) => Ok(t),
            Err(e) => Err(AppError::Storage(e)),
        }
    }

    /// Stores the task.
    pub fn save_task(&self, repo: &mut Repository, task: &Task) -> (r: Result<(), AppError>)
        requires
            old(repo).wf(),
        ensures
            r is Ok,
            final(repo).wf(),
            final(repo)@ == saved_task(old(repo)@, task@),
    {
        repo.save_task(task);
        Ok(())
    }

    /// Creates an open task last among its siblings: under the named parent,
    /// in the parent's space, or at the top of the named or current space.
    pub fn create_task(&self, repo: &mut Repository, command: CreateTaskCommand) -> (r: Result<Task, AppError>)
        requires
            old(repo).wf(),
            ids_split(old(repo)@),
            orders_bounded(record_tasks(old(repo)@.records)),
        ensures
            final(repo).wf(),
            create_task_outcome(old(repo)@, command, r, final(repo)@),
    {
        match ensure_non_empty_title(command.title.as_str()) {
            Err(e) => {
                return Err(AppError::Validation(e));
            },
            Ok(()) => {},
        }
        let all = all_tasks_of(repo);
        let parent: Option<Task> = match &command.parent_ref {
            Some(pr) => match resolve_task_from(&all, pr.as_str()) {
                Ok(p) => Some(p),
                Err(e) => {
                    return Err(e);
                },
            },
            None => None,
        };
        let space_ref = opt_str_view(&command.space_ref);
        let target = match &parent {
            Some(p) => place_under_parent(repo, p, space_ref),
            None => {
                let spaces = SpaceService::new();
                spaces.resolve_effective_space(repo, space_ref, true)
            },
        };
        let target = match target {
            Ok(s) => s,
            Err(e) => {
                return Err(e);
            },
        };
        let none: Vec<TaskId> = Vec::new();
        assert(crate::hierarchy::id_set(none@) =~= Set::<Seq<char>>::empty());
        let parent_id: Option<&TaskId> = match &parent {
            Some(p) => Some(&p.id),
            None => None,
        };
        let order = next_sort_order(all.as_slice(), &target.id, parent_id, &none);
        let mut task = Task::new(command.title.as_str(), target.id.clone(), order);
        task.description = command.description;
        task.parent_id = match &parent {
            Some(p) => Some(p.id.clone()),
            None => None,
        };
        task.status = command.status;
        repo.save_task(&task);
        assert(views(task.logs@) =~= Seq::<TaskLogView>::empty());
        Ok(task)
    }

    /// The task tree of the named (or current) space under a view and a
    /// sort: the view defaults to `todo`, the sort to the state's sort.
    pub fn list_tasks(&self, repo: &Repository, query: ListTasksQuery) -> (r: Result<TaskListResult, AppError>)
        requires
            repo.wf(),
            ids_split(repo@),
        ensures
            list_tasks_outcome(repo@, query, r),
    {
        let state = repo.load_state();
        let spaces = SpaceService::new();
        let space = match spaces.resolve_effective_space(repo, opt_str_view(&query.space_ref), !query.allow_archived_space) {
            Ok(s) => s,
            Err(e) => {
                return Err(e);
            },
        };
        let view = match query.view {
            Some(v) => v,
            None => ViewMode::Todo,
        };
        let sort = match query.sort {
            Some(v) => v,
            None => state.current_sort,
        };
        let tasks = repo.list_tasks_in_space(&space.id);
        Ok(build_task_list(space, tasks, view, sort))
    }

    /// The named task with its space, parent, children (in manual order)
    /// and logs (newest first).
    pub fn show_task(&self, repo: &Repository, query: ShowTaskQuery) -> (r: Result<TaskDetails, AppError>)
        requires
            repo.wf(),
            ids_split(repo@),
        ensures
            show_task_outcome(repo@, query, r),
    {
        let all = all_tasks_of(repo);
        let task = match resolve_task_from(&all, query.task_ref.as_str()) {
            Ok(t) => t,
            Err(e) => {
                return Err(e);
            },
        };
        let space = match repo.load_space(&task.space_id) {
            Ok(s) => s,
            Err(e) => {
                return Err(AppError::Storage(e));
            },
        };
        let parent = match &task.parent_id {
            Some(pid) => crate::hierarchy::find_task_cloned(all.as_slice(), pid),
            None => None,
        };
        let mut children = collect_children(&all, &task.id);
        sort_tasks_in_place(&mut children, SortMode::Manual);
        let logs = sort_logs_newest_first(&task.logs);
        Ok(TaskDetails { task, space, parent, children, logs })
    }

    /// Sets the status of the named task. A finished status archives the
    /// task and is refused while it has open subtasks; an open status
    /// brings it back from the archive.
    pub fn set_task_status(&self, repo: &mut Repository, command: UpdateTaskStatusCommand) -> (r: Result<Task, AppError>)
        requires
            old(repo).wf(),
            ids_split(old(repo)@),
        ensures
            final(repo).wf(),
            set_task_status_outcome(old(repo)@, command, r, final(repo)@),
    {
        let all = all_tasks_of(repo);
        let mut task = match resolve_task_from(&all, command.task_ref.as_str()) {
            Ok(t) => t,
            Err(e) => {
                return Err(e);
            },
        };
        if command.status.is_finished() {
            let open_count = count_open_children(&all, &task.id);
            if open_count > 0 {
                return Err(AppError::OpenSubtasks { task_id: task.id.clone(), open_count });
            }
        }
        task.status = command.status;
        task.archived = command.status.is_finished();
        task.touch(now_utc());
        repo.save_task(&task);
        Ok(task)
    }

    /// Appends a log entry stamped now to the named task.
    pub fn add_task_log(&self, repo: &mut Repository, command: AddTaskLogCommand) -> (r: Result<Task, AppError>)
        requires
            old(repo).wf(),
            ids_split(old(repo)@),
        ensures
            final(repo).wf(),
            add_task_log_outcome(old(repo)@, command, r, final(repo)@),
    {
        let all = all_tasks_of(repo);
        let mut task = match resolve_task_from(&all, command.task_ref.as_str()) {
            Ok(t) => t,
            Err(e) => {
                return Err(e);
            },
        };
        let now = now_utc();
        let ghost before = views(task.logs@);
        task.logs.push(TaskLog { at: now, message: command.message });
        assert(views(task.logs@) =~= before.push(TaskLogView { at: now, message: command.message@ }));
        task.touch(now);
        repo.save_task(&task);
        Ok(task)
    }



    /// Edits the named task: title, description, status, parent and space.
    /// A new space carries the whole subtree along; after a new parent or
    /// space the task goes last among its new siblings.
    pub fn edit_task(&self, repo: &mut Repository, command: EditTaskCommand) -> (r: Result<Task, AppError>)
        requires
            old(repo).wf(),
            ids_split(old(repo)@),
            orders_bounded(record_tasks(old(repo)@.records)),
        ensures
            final(repo).wf(),
            edit_task_outcome(old(repo)@, command, r, final(repo)@),
    {
        let all = all_tasks_of(repo);
        let (current, sub, new_parent, new_space) = match plan_edit(repo, &command, &all) {
            Ok(p) => p,
            Err(e) => {
                return Err(e);
            },
        };
        proof {
            lemma_found_current(views(all@), command.task_ref@);
        }
        let now = now_utc();
        let (edited, root) = apply_edit(&all, &command, &current, &sub, &new_parent, &new_space, now);
        save_all(repo, &edited);
        Ok(root)
    }


    /// Archives the named task and its whole subtree as one operation.
    pub fn archive_task(&self, repo: &mut Repository, command: ArchiveTaskCommand) -> (r: Result<OperationOutcome, AppError>)
        requires
            old(repo).wf(),
            ids_split(old(repo)@),
        ensures
            final(repo).wf(),
            archive_task_outcome(old(repo)@, command, r, final(repo)@),
    {
        let all = all_tasks_of(repo);
        let ghost tv = views(all@);
        let root = match resolve_task_from(&all, command.task_ref.as_str()) {
            Ok(t) => t,
            Err(e) => {
                return Err(e);
            },
        };
        let sub = collect_subtree_ids(all.as_slice(), &root.id);
        let mut updated = subtree_list(&all, &sub);
        let ghost upd = views(updated@);
        let now = now_utc();
        let n = updated.len();
        let mut i: usize = 0;
        while i < n
            invariant
                n == updated@.len(),
                upd.len() == n,
                i <= n,
                forall|j: int| 0 <= j < i ==> updated@[j]@ == archived_copy(now)(upd[j]),
                forall|j: int| i <= j < n ==> updated@[j]@ == upd[j],
            decreases n - i,
        {
            let mut t = updated[i].clone();
            t.archived = true;
            t.updated_at = now;
            updated.set(i, t);
            i = i + 1;
        }
        assert(views(updated@) =~= upd.map_values(archived_copy(now)));
        let ghost before = repo@;
        match run_upserts(repo, PendingOperationKind::TaskArchive, &updated) {
            Err(e) => {
                return Err(e);
            },
            Ok(()) => {},
        }
        let r = reload_root(repo, &root.id, n);
        assert(archive_done(before, repo@, root@, now, r));
        r
    }

    /// Restores the named archived task and its whole subtree with the
    /// status, as one operation; refused below an archived ancestor.
    pub fn restore_task(&self, repo: &mut Repository, command: RestoreTaskCommand) -> (r: Result<OperationOutcome, AppError>)
        requires
            old(repo).wf(),
            ids_split(old(repo)@),
        ensures
            final(repo).wf(),
            restore_task_outcome(old(repo)@, command, r, final(repo)@),
    {
        let all = all_tasks_of(repo);
        let ghost tv = views(all@);
        let root = match resolve_task_from(&all, command.task_ref.as_str()) {
            Ok(t) => t,
            Err(e) => {
                return Err(e);
            },
        };
        if !root.archived {
            proof {
                reveal_strlit("restore");
            }
            return Err(AppError::TaskMustBeArchived { task_id: root.id.clone(), action: "restore" });
        }
        match first_archived_ancestor_id(all.as_slice(), &root) {
            Some(a) => {
                return Err(AppError::TaskRestoreBlockedByArchivedAncestor { task_id: root.id.clone(), ancestor_id: a });
            },
            None => {},
        }
        let sub = collect_subtree_ids(all.as_slice(), &root.id);
        let mut updated = subtree_list(&all, &sub);
        let ghost upd = views(updated@);
        let now = now_utc();
        let n = updated.len();
        let mut i: usize = 0;
        while i < n
            invariant
                n == updated@.len(),
                upd.len() == n,
                i <= n,
                forall|j: int| 0 <= j < i ==> updated@[j]@ == restored_copy(command.status, now)(upd[j]),
                forall|j: int| i <= j < n ==> updated@[j]@ == upd[j],
            decreases n - i,
        {
            let mut t = updated[i].clone();
            t.archived = false;
            t.status = command.status;
            t.updated_at = now;
            updated.set(i, t);
            i = i + 1;
        }
        assert(views(updated@) =~= upd.map_values(restored_copy(command.status, now)));
        let ghost before = repo@;
        match run_upserts(repo, PendingOperationKind::TaskRestore, &updated) {
            Err(e) => {
                return Err(e);
            },
            Ok(()) => {},
        }
        let r = reload_root(repo, &root.id, n);
        assert(restore_done(before, repo@, root@, command.status, now, r));
        r
    }


    /// Deletes the named archived task, and with `recursive` its archived
    /// subtree, newest first, as one operation.
    pub fn purge_task(&self, repo: &mut Repository, command: PurgeTaskCommand) -> (r: Result<OperationOutcome, AppError>)
        requires
            old(repo).wf(),
            ids_split(old(repo)@),
        ensures
            final(repo).wf(),
            purge_task_outcome(old(repo)@, command, r, final(repo)@),
    {
        let all = all_tasks_of(repo);
        let ghost tv = views(all@);
        let root = match resolve_task_from(&all, command.task_ref.as_str()) {
            Ok(t) => t,
            Err(e) => {
                return Err(e);
            },
        };
        if !root.archived {
            proof {
                reveal_strlit("purge");
            }
            return Err(AppError::TaskMustBeArchived { task_id: root.id.clone(), action: "purge" });
        }
        let sub = collect_subtree_ids(all.as_slice(), &root.id);
        proof {
            views(sub@).unique_seq_to_set();
        }
        if sub.len() > 1 && !command.recursive {
            return Err(AppError::TaskPurgeRequiresRecursive { task_id: root.id.clone(), child_count: sub.len() - 1 });
        }
        match find_offender(&all, &sub) {
            Some(i) => {
                return Err(AppError::TaskPurgeRequiresArchivedSubtree { task_id: root.id.clone(), offender_id: all[i].id.clone() });
            },
            None => {},
        }
        let doomed = subtree_list(&all, &sub);
        let ordered = sort_newest_created_first(&doomed);
        let entries = delete_entry_list(&ordered);
        let maintenance = MaintenanceService::new();
        match maintenance.execute_operation(repo, PendingOperationKind::TaskPurge, entries) {
            Err(e) => {
                return Err(e);
            },
            Ok(()) => {},
        }
        Ok(OperationOutcome { root_task: Some(root), root_space: None, affected_count: doomed.len() })
    }

    /// Swaps the named task with its previous (or next) sibling in manual
    /// order and renumbers the siblings 0, 1, 2, ...
    pub fn move_task(&self, repo: &mut Repository, command: MoveTaskCommand) -> (r: Result<Task, AppError>)
        requires
            old(repo).wf(),
            ids_split(old(repo)@),
        ensures
            final(repo).wf(),
            move_outcome(old(repo)@, final(repo)@, command.task_ref@, command.direction, r),
    {
        let all = all_tasks_of(repo);
        let ghost tv = views(all@);
        let task = match resolve_task_from(&all, command.task_ref.as_str()) {
            Ok(t) => t,
            Err(e) => {
                return Err(e);
            },
        };
        let space = match repo.load_space(&task.space_id) {
            Ok(s) => s,
            Err(e) => {
                return Err(AppError::Storage(e));
            },
        };
        if !space.state.is_active() {
            return Err(AppError::ArchivedSpace(space.id.0.clone()));
        }
        let mut sibs = collect_same_place(&all, &task);
        let ghost unsorted = views(sibs@);
        sort_tasks_in_place(&mut sibs, SortMode::Manual);
        let ghost sv = views(sibs@);
        proof {
            lemma_found_current(tv, command.task_ref@);
            let i0 = choose|i: int| is_first_with(tv, task@.id, i) && tv[i] == task@;
            tv.lemma_filter_contains(same_place(task@), i0);
            law_sort_tasks_sorted_permutation(unsorted, SortMode::Manual);
            broadcast use vstd::seq_lib::group_to_multiset_ensures;
            assert(unsorted.contains(task@));
            assert(sv.to_multiset().count(task@) > 0);
            assert(sv.contains(task@));
            let j = choose|j: int| 0 <= j < sv.len() && sv[j] == task@;
            lemma_first_exists(sv, task@.id, j);
        }
        let idx = match find_task_index(sibs.as_slice(), &task.id) {
            Some(i) => i,
            None => {
                proof {
                    assert(false);
                }
                return Ok(task);
            },
        };
        assert(idx as int == first_pos(sv, task@.id)) by {
            let c = choose|i: int| is_first_with(sv, task@.id, i);
            if c < idx {
                assert(sv[c].id != task@.id);
            } else if idx < c {
                assert(sv[idx as int].id != task@.id);
            }
        }
        let other = match command.direction {
            MoveTaskDirection::Up => {
                if idx > 0 {
                    idx - 1
                } else {
                    return Err(AppError::TaskReorderBoundary { task_id: task.id.clone(), direction: move_direction_label(command.direction) });
                }
            },
            MoveTaskDirection::Down => {
                if idx < sibs.len() - 1 {
                    idx + 1
                } else {
                    return Err(AppError::TaskReorderBoundary { task_id: task.id.clone(), direction: move_direction_label(command.direction) });
                }
            },
        };
        let a = sibs[idx].clone();
        let b = sibs[other].clone();
        sibs.set(idx, b);
        sibs.set(other, a);
        let ghost sw = views(sibs@);
        assert(sw =~= swapped(sv, idx as int, other as int));
        let now = now_utc();
        let ghost start = repo@;
        renumber_and_save(repo, &mut sibs, now);
        proof {
            assert(sw[other as int] == sv[idx as int]);
            assert(views(sibs@)[other as int] == renumbered(sw, now)[other as int]);
            assert(views(sibs@)[other as int].id == task@.id);
            assert(views(sibs@).len() == sw.len());
            assert(views(sibs@).len() == sibs@.len());
            assert(views(sibs@)[other as int] == sibs@[other as int]@);
            assert(sibs@[other as int]@.id == task@.id);
        }
        let pos = match find_task_index(sibs.as_slice(), &task.id) {
            Some(i) => i,
            None => {
                return Ok(task);
            },
        };
        proof {
            assert forall|j: int| 0 <= j < sw.len() implies (#[trigger] sw[j]).id == views(sibs@)[j].id by {
                assert(views(sibs@)[j] == renumbered(sw, now)[j]);
            }
            assert(pos as int == first_pos(sw, task@.id)) by {
                assert(is_first_with(sw, task@.id, pos as int));
                let c = choose|i: int| is_first_with(sw, task@.id, i);
                if c < pos {
                    assert(sw[c].id != task@.id);
                } else if pos < c {
                    assert(sw[pos as int].id != task@.id);
                }
            }
        }
        let result = sibs[pos].clone();
        assert(start == old(repo)@);
        assert(manual_siblings(tv, task@) == sv);
        assert(tv == all_tasks(old(repo)@));
        assert(task_found(tv, command.task_ref@) == Ok::<TaskView, AppErrorView>(task@));
        assert(move_plan(old(repo)@, command.task_ref@, command.direction) == Ok::<(TaskView, Seq<TaskView>), AppErrorView>((task@, sw)));
        let r: Result<Task, AppError> = Ok(result);
        assert(move_done(old(repo)@, repo@, task@, sw, now, r));
        proof {
            lemma_move_outcome(old(repo)@, repo@, command.task_ref@, command.direction, r, task@, sw, now);
        }
        r
    }

}

} // verus!
