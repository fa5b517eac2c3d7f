//! What archiving and then restoring a task subtree leaves of the stored
//! records.

use vstd::prelude::*;
use crate::clock::Timestamp;
use crate::hierarchy::{below_root, closed_under_children, is_subtree, lemma_subtree_of_is, subtree_of};
use crate::maintenance::apply_entries;
use crate::model::{PendingOperationEntryView, TaskStatus, TaskView};
use crate::repository::{
    all_records, all_tasks, bucket_for, ids_unique, lemma_record_index_is, lemma_record_listed, record_index,
    record_tasks, space_index, upsert_record, RecordView, RepoView, TaskBucket,
};
use crate::error::AppError;
use crate::maintenance::executed;
use crate::model::{PendingOperationKind, PendingOperationView};
use crate::queries::OperationOutcome;
use crate::commands::{ArchiveSpaceCommand, ArchiveTaskCommand, PurgeSpaceCommand, PurgeTaskCommand, RestoreSpaceCommand, RestoreTaskCommand};
use crate::model::{SpaceView, StateMutationView};
use crate::repository::upsert_space;
use crate::space_service::{purge_space_outcome, archive_space_outcome, restore_space_outcome, space_resolution};
use crate::task_service::{purge_task_outcome, archive_task_outcome, restore_task_outcome, task_found, archive_done, archived_copy, restore_done, restored_copy, subtree_tasks, upsert_entries};

verus! {

/// The record at `k` belongs to a listed space, so its task is listed.
pub open spec fn listed(repo: RepoView, k: int) -> bool {
    0 <= k < repo.records.len() && space_index(repo.spaces, repo.records[k].task.space_id) >= 0
}

/// Every record the repository lists is a stored record of a listed space.
proof fn lemma_listed_from_records(spaces: Seq<crate::model::SpaceView>, records: Seq<RecordView>, n: int)
    requires
        0 <= n < all_records(spaces, records).len(),
    ensures
        exists|k: int| 0 <= k < records.len() && records[k] == all_records(spaces, records)[n]
            && space_index(spaces, records[k].task.space_id) >= 0,
    decreases spaces.len(),
{
    let a = all_records(spaces.drop_last(), records);
    let sid = spaces.last().id;
    let t = records.filter(crate::repository::in_space_bucket(sid, TaskBucket::Todo));
    let b = records.filter(crate::repository::in_space_bucket(sid, TaskBucket::Archive));
    let x = all_records(spaces, records)[n];
    assert(all_records(spaces, records) == a + (t + b));
    if n < a.len() {
        lemma_listed_from_records(spaces.drop_last(), records, n);
        let k = choose|k: int| 0 <= k < records.len() && records[k] == a[n]
            && space_index(spaces.drop_last(), records[k].task.space_id) >= 0;
        let j = space_index(spaces.drop_last(), records[k].task.space_id);
        assert(spaces[j].id == records[k].task.space_id);
        assert(records[k] == x);
    } else {
        records.filter_lemma(crate::repository::in_space_bucket(sid, TaskBucket::Todo));
        records.filter_lemma(crate::repository::in_space_bucket(sid, TaskBucket::Archive));
        if n < a.len() + t.len() {
            assert(x == t[n - a.len()]);
            assert(t.contains(x));
            records.lemma_filter_contains_rev(crate::repository::in_space_bucket(sid, TaskBucket::Todo), x);
        } else {
            assert(x == b[n - a.len() - t.len()]);
            assert(b.contains(x));
            records.lemma_filter_contains_rev(crate::repository::in_space_bucket(sid, TaskBucket::Archive), x);
        }
        assert(x.task.space_id == sid);
        assert(spaces[spaces.len() - 1].id == sid);
        let k = choose|k: int| 0 <= k < records.len() && records[k] == x;
        assert(records[k].task.space_id == sid);
    }
}

/// A task is listed exactly when it is the task of a record in a listed
/// space.
pub proof fn lemma_listed_tasks(repo: RepoView, t: TaskView)
    ensures
        all_tasks(repo).contains(t) <==> exists|k: int| listed(repo, k) && repo.records[k].task == t,
{
    let ar = all_records(repo.spaces, repo.records);
    if all_tasks(repo).contains(t) {
        let n = choose|n: int| 0 <= n < all_tasks(repo).len() && all_tasks(repo)[n] == t;
        lemma_listed_from_records(repo.spaces, repo.records, n);
        let k = choose|k: int| 0 <= k < repo.records.len() && repo.records[k] == ar[n]
            && space_index(repo.spaces, repo.records[k].task.space_id) >= 0;
        assert(listed(repo, k) && repo.records[k].task == t);
    }
    if exists|k: int| listed(repo, k) && repo.records[k].task == t {
        let k = choose|k: int| listed(repo, k) && repo.records[k].task == t;
        let si = space_index(repo.spaces, repo.records[k].task.space_id);
        lemma_record_listed(repo.spaces, repo.records, k, si);
        let n = choose|n: int| 0 <= n < ar.len() && ar[n] == repo.records[k];
        assert(all_tasks(repo)[n] == t);
    }
}


/// No two records share a task id.
pub open spec fn records_unique(records: Seq<RecordView>) -> bool {
    forall|a: int, b: int| 0 <= a < b < records.len() ==> #[trigger] records[a].task.id != #[trigger] records[b].task.id
}

/// `f` keeps a task's id, parent and space.
pub open spec fn keeps_identity(f: spec_fn(TaskView) -> TaskView) -> bool {
    forall|t: TaskView| #![trigger f(t)] f(t).id == t.id && f(t).parent_id == t.parent_id && f(t).space_id == t.space_id
}

/// The record with its task rewritten by `f`, in the bucket the new
/// archived flag selects.
pub open spec fn rewritten(rec: RecordView, f: spec_fn(TaskView) -> TaskView) -> RecordView {
    RecordView { task: f(rec.task), bucket: bucket_for(f(rec.task).archived) }
}

/// Some task of `ts` has the id.
pub open spec fn touched(ts: Seq<TaskView>, id: Seq<char>) -> bool {
    exists|i: int| 0 <= i < ts.len() && ts[i].id == id
}

/// Upserting rewritten copies of stored tasks rewrites those records in
/// place and leaves the rest.
proof fn lemma_upserts(base: RepoView, f: spec_fn(TaskView) -> TaskView, ts: Seq<TaskView>)
    requires
        records_unique(base.records),
        keeps_identity(f),
        forall|i: int| 0 <= i < ts.len() ==> exists|k: int| 0 <= k < base.records.len() && #[trigger] ts[i] == f(base.records[k].task),
    ensures
        apply_entries(base, upsert_entries(ts)).spaces == base.spaces,
        apply_entries(base, upsert_entries(ts)).records.len() == base.records.len(),
        forall|k: int| 0 <= k < base.records.len() ==> #[trigger] apply_entries(base, upsert_entries(ts)).records[k]
            == if touched(ts, base.records[k].task.id) { rewritten(base.records[k], f) } else { base.records[k] },
    decreases ts.len(),
{
    let es = upsert_entries(ts);
    if ts.len() == 0 {
        assert(es.len() == 0);
    } else {
        let init = ts.drop_last();
        assert(es.drop_last() =~= upsert_entries(init));
        assert forall|i: int| 0 <= i < init.len() implies exists|k: int| 0 <= k < base.records.len() && #[trigger] init[i] == f(base.records[k].task) by {
            assert(init[i] == ts[i]);
        }
        lemma_upserts(base, f, init);
        let mid = apply_entries(base, upsert_entries(init));
        let n = ts.len() - 1;
        let t = ts[n];
        assert(es.last() == PendingOperationEntryView::TaskUpsert(t));
        let k = choose|k: int| 0 <= k < base.records.len() && ts[n] == f(base.records[k].task);
        assert(f(base.records[k].task).id == base.records[k].task.id);
        assert forall|j: int| 0 <= j < mid.records.len() implies #[trigger] mid.records[j].task.id == base.records[j].task.id by {
            assert(mid.records[j] == if touched(init, base.records[j].task.id) { rewritten(base.records[j], f) } else { base.records[j] });
            assert(f(base.records[j].task).id == base.records[j].task.id);
        }
        assert forall|a: int, b: int| 0 <= a < b < mid.records.len() implies #[trigger] mid.records[a].task.id != #[trigger] mid.records[b].task.id by {
            assert(mid.records[a].task.id == base.records[a].task.id);
            assert(mid.records[b].task.id == base.records[b].task.id);
        }
        assert(mid.records[k].task.id == t.id);
        lemma_record_index_is(mid.records, t.id, k);
        let after = apply_entries(base, es);
        assert(after.records == upsert_record(mid.records, t));
        assert(after.records == mid.records.update(k, RecordView { task: t, bucket: bucket_for(t.archived) }));
        assert forall|j: int| 0 <= j < base.records.len() implies #[trigger] after.records[j]
            == if touched(ts, base.records[j].task.id) { rewritten(base.records[j], f) } else { base.records[j] } by {
            if j == k {
                assert(touched(ts, base.records[j].task.id));
            } else {
                assert(mid.records[j] == if touched(init, base.records[j].task.id) { rewritten(base.records[j], f) } else { base.records[j] });
                if j < k {
                    assert(base.records[j].task.id != base.records[k].task.id);
                } else {
                    assert(base.records[k].task.id != base.records[j].task.id);
                }
                if touched(ts, base.records[j].task.id) {
                    let i = choose|i: int| 0 <= i < ts.len() && ts[i].id == base.records[j].task.id;
                    assert(i != n);
                    assert(init[i].id == base.records[j].task.id);
                }
                if touched(init, base.records[j].task.id) {
                    let i = choose|i: int| 0 <= i < init.len() && init[i].id == base.records[j].task.id;
                    assert(ts[i].id == base.records[j].task.id);
                }
            }
        }
    }
}


/// An operation that upserts rewritten copies of the listed tasks whose
/// ids lie in `sub` rewrites exactly those records, in place.
pub proof fn lemma_subtree_rewrite(repo: RepoView, f: spec_fn(TaskView) -> TaskView, sub: Set<Seq<char>>, op: crate::model::PendingOperationView)
    requires
        records_unique(repo.records),
        keeps_identity(f),
        op.entries == upsert_entries(crate::task_service::subtree_tasks(all_tasks(repo), sub).map_values(f)),
    ensures
        crate::maintenance::executed(repo, op).spaces == repo.spaces,
        crate::maintenance::executed(repo, op).records.len() == repo.records.len(),
        forall|k: int| 0 <= k < repo.records.len() ==> #[trigger] crate::maintenance::executed(repo, op).records[k]
            == if sub.contains(repo.records[k].task.id) && listed(repo, k) { rewritten(repo.records[k], f) } else { repo.records[k] },
{
    let tasks = all_tasks(repo);
    let pred = crate::task_service::in_set(sub);
    let st = tasks.filter(pred);
    let ts = st.map_values(f);
    tasks.filter_lemma(pred);
    let base = crate::maintenance::state_write(repo, crate::model::AppStateView { pending_operation: Some(op), ..repo.state });
    assert forall|i: int| 0 <= i < ts.len() implies exists|k: int| 0 <= k < base.records.len() && #[trigger] ts[i] == f(base.records[k].task) by {
        assert(st.contains(st[i]));
        tasks.lemma_filter_contains_rev(pred, st[i]);
        lemma_listed_tasks(repo, st[i]);
        let k = choose|k: int| listed(repo, k) && repo.records[k].task == st[i];
        assert(ts[i] == f(base.records[k].task));
    }
    lemma_upserts(base, f, ts);
    let applied = apply_entries(base, upsert_entries(ts));
    assert forall|k: int| 0 <= k < repo.records.len() implies touched(ts, repo.records[k].task.id)
        == (sub.contains(repo.records[k].task.id) && listed(repo, k)) by {
        let id = repo.records[k].task.id;
        if touched(ts, id) {
            let i = choose|i: int| 0 <= i < ts.len() && ts[i].id == id;
            assert(st.contains(st[i]));
            tasks.lemma_filter_contains_rev(pred, st[i]);
            assert(pred(st[i]));
            lemma_listed_tasks(repo, st[i]);
            let k2 = choose|k2: int| listed(repo, k2) && repo.records[k2].task == st[i];
            assert(f(st[i]).id == st[i].id);
            if k2 < k {
                assert(repo.records[k2].task.id != repo.records[k].task.id);
            } else if k < k2 {
                assert(repo.records[k].task.id != repo.records[k2].task.id);
            }
        }
        if sub.contains(id) && listed(repo, k) {
            lemma_listed_tasks(repo, repo.records[k].task);
            let n = choose|n: int| 0 <= n < tasks.len() && tasks[n] == repo.records[k].task;
            assert(pred(tasks[n]));
            assert(st.contains(tasks[n]));
            let i = choose|i: int| 0 <= i < st.len() && st[i] == tasks[n];
            assert(f(st[i]).id == st[i].id);
            assert(ts[i].id == id);
        }
    }
}


/// The two repositories list the same spaces and, record by record, tasks
/// with the same ids, parents and spaces.
pub open spec fn same_shape(r0: RepoView, r1: RepoView) -> bool {
    &&& r1.spaces == r0.spaces
    &&& r1.records.len() == r0.records.len()
    &&& forall|k: int| 0 <= k < r0.records.len() ==> {
        &&& (#[trigger] r1.records[k]).task.id == r0.records[k].task.id
        &&& r1.records[k].task.parent_id == r0.records[k].task.parent_id
        &&& r1.records[k].task.space_id == r0.records[k].task.space_id
    }
}

proof fn lemma_closed_transfer(r0: RepoView, r1: RepoView, c: Set<Seq<char>>)
    requires
        same_shape(r0, r1),
        closed_under_children(all_tasks(r0), c),
    ensures
        closed_under_children(all_tasks(r1), c),
{
    let t0 = all_tasks(r0);
    let t1 = all_tasks(r1);
    assert forall|i: int| 0 <= i < t1.len() && (#[trigger] t1[i].parent_id matches Some(p) && c.contains(p)) implies c.contains(t1[i].id) by {
        assert(t1.contains(t1[i]));
        lemma_listed_tasks(r1, t1[i]);
        let k = choose|k: int| listed(r1, k) && r1.records[k].task == t1[i];
        assert(r1.records[k].task.id == r0.records[k].task.id);
        assert(listed(r0, k));
        lemma_listed_tasks(r0, r0.records[k].task);
        let i0 = choose|i0: int| 0 <= i0 < t0.len() && t0[i0] == r0.records[k].task;
        assert(t0[i0].parent_id == t1[i].parent_id);
    }
}

/// The least subtree always exists.
pub proof fn lemma_subtree_exists(tasks: Seq<TaskView>, root: Seq<char>)
    ensures
        is_subtree(tasks, root, subtree_of(tasks, root)),
{
    let least = Set::new(|x: Seq<char>| below_root(tasks, root, x));
    assert(least.contains(root));
    assert forall|i: int| 0 <= i < tasks.len() && (#[trigger] tasks[i].parent_id matches Some(p) && least.contains(p)) implies least.contains(tasks[i].id) by {
        if tasks[i].parent_id is Some && least.contains(tasks[i].parent_id->0) {
            let p = tasks[i].parent_id->0;
            assert forall|c: Set<Seq<char>>| #[trigger] c.contains(root) && closed_under_children(tasks, c) implies c.contains(tasks[i].id) by {
                assert(below_root(tasks, root, p));
            }
        }
    }
    assert(is_subtree(tasks, root, least));
}

/// Subtrees depend on ids and parents only.
pub proof fn lemma_same_shape_same_subtree(r0: RepoView, r1: RepoView, root: Seq<char>)
    requires
        same_shape(r0, r1),
    ensures
        subtree_of(all_tasks(r1), root) == subtree_of(all_tasks(r0), root),
{
    let t0 = all_tasks(r0);
    let t1 = all_tasks(r1);
    assert(same_shape(r1, r0));
    assert forall|c: Set<Seq<char>>| #[trigger] closed_under_children(t1, c) == closed_under_children(t0, c) by {
        if closed_under_children(t0, c) {
            lemma_closed_transfer(r0, r1, c);
        }
        if closed_under_children(t1, c) {
            lemma_closed_transfer(r1, r0, c);
        }
    }
    lemma_subtree_exists(t0, root);
    let s0 = subtree_of(t0, root);
    assert forall|x: Seq<char>| s0.contains(x) implies below_root(t1, root, x) by {
        assert(below_root(t0, root, x));
        assert forall|c: Set<Seq<char>>| #[trigger] c.contains(root) && closed_under_children(t1, c) implies c.contains(x) by {
            assert(closed_under_children(t0, c));
        }
    }
    assert(is_subtree(t1, root, s0));
    lemma_subtree_of_is(t1, root, s0);
}


/// Restoring a task after archiving it undoes the archive: every stored
/// record of the subtree comes back unarchived, with the status chosen at
/// the restore and the restore's time, filed in the `todo` bucket again;
/// every other record, and every space, is as it was before the archive.
pub proof fn law_restore_undoes_archive(
    r0: RepoView,
    r1: RepoView,
    r2: RepoView,
    root0: TaskView,
    root1: TaskView,
    archived_at: Timestamp,
    restored_at: Timestamp,
    status: TaskStatus,
    archived: Result<OperationOutcome, AppError>,
    restored: Result<OperationOutcome, AppError>,
)
    requires
        ids_unique(r0),
        archive_done(r0, r1, root0, archived_at, archived),
        restore_done(r1, r2, root1, status, restored_at, restored),
        root1.id == root0.id,
    ensures
        r2.spaces == r0.spaces,
        r2.records.len() == r0.records.len(),
        forall|k: int| 0 <= k < r0.records.len() ==> #[trigger] r2.records[k]
            == if subtree_of(all_tasks(r0), root0.id).contains(r0.records[k].task.id) && listed(r0, k) {
                RecordView {
                    task: TaskView { archived: false, status, updated_at: restored_at, ..r0.records[k].task },
                    bucket: TaskBucket::Todo,
                }
            } else {
                r0.records[k]
            },
{
    let s0 = subtree_of(all_tasks(r0), root0.id);
    let fa = archived_copy(archived_at);
    let fr = restored_copy(status, restored_at);
    assert forall|t: TaskView| #![trigger fa(t)] fa(t).id == t.id && fa(t).parent_id == t.parent_id && fa(t).space_id == t.space_id by {}
    assert forall|t: TaskView| #![trigger fr(t)] fr(t).id == t.id && fr(t).parent_id == t.parent_id && fr(t).space_id == t.space_id by {}
    let op1 = choose|op: PendingOperationView| op.kind == PendingOperationKind::TaskArchive
        && op.entries == upsert_entries(subtree_tasks(all_tasks(r0), s0).map_values(fa))
        && r1 == #[trigger] executed(r0, op);
    lemma_subtree_rewrite(r0, fa, s0, op1);
    assert forall|k: int| 0 <= k < r0.records.len() implies {
        &&& (#[trigger] r1.records[k]).task.id == r0.records[k].task.id
        &&& r1.records[k].task.parent_id == r0.records[k].task.parent_id
        &&& r1.records[k].task.space_id == r0.records[k].task.space_id
    } by {
        assert(fa(r0.records[k].task).id == r0.records[k].task.id);
    }
    assert(same_shape(r0, r1));
    assert forall|a: int, b: int| 0 <= a < b < r1.records.len() implies #[trigger] r1.records[a].task.id != #[trigger] r1.records[b].task.id by {
        assert(r1.records[a].task.id == r0.records[a].task.id);
        assert(r1.records[b].task.id == r0.records[b].task.id);
    }
    lemma_same_shape_same_subtree(r0, r1, root0.id);
    let op2 = choose|op: PendingOperationView| op.kind == PendingOperationKind::TaskRestore
        && op.entries == upsert_entries(subtree_tasks(all_tasks(r1), subtree_of(all_tasks(r1), root1.id)).map_values(fr))
        && r2 == #[trigger] executed(r1, op);
    lemma_subtree_rewrite(r1, fr, s0, op2);
    assert forall|k: int| 0 <= k < r0.records.len() implies #[trigger] r2.records[k]
        == if s0.contains(r0.records[k].task.id) && listed(r0, k) {
            RecordView {
                task: TaskView { archived: false, status, updated_at: restored_at, ..r0.records[k].task },
                bucket: TaskBucket::Todo,
            }
        } else {
            r0.records[k]
        } by {
        assert(r1.records[k].task.id == r0.records[k].task.id);
        assert(listed(r1, k) == listed(r0, k));
        if s0.contains(r0.records[k].task.id) && listed(r0, k) {
            assert(r1.records[k] == rewritten(r0.records[k], fa));
            assert(r2.records[k] == rewritten(r1.records[k], fr));
        }
    }
}


/// The spaces of the repository have distinct ids.
pub open spec fn spaces_unique(spaces: Seq<SpaceView>) -> bool {
    forall|a: int, b: int| 0 <= a < b < spaces.len() ==> #[trigger] spaces[a].id != #[trigger] spaces[b].id
}

/// Upserting a space whose id is stored at `i` replaces it there.
proof fn lemma_space_upsert_at(spaces: Seq<SpaceView>, s: SpaceView, i: int)
    requires
        spaces_unique(spaces),
        0 <= i < spaces.len(),
        spaces[i].id == s.id,
    ensures
        upsert_space(spaces, s) == spaces.update(i, s),
        spaces_unique(spaces.update(i, s)),
{
    crate::repository::lemma_space_index_is(spaces, s.id, i);
    let u = spaces.update(i, s);
    assert forall|a: int, b: int| 0 <= a < b < u.len() implies #[trigger] u[a].id != #[trigger] u[b].id by {
        assert(spaces[a].id != spaces[b].id);
    }
}

/// Restoring a space after archiving it undoes the archive: the space is
/// stored as it was, active again, with only its update time moved on;
/// every other space and every task record is as before the archive.
pub proof fn law_space_restore_undoes_archive(
    r0: RepoView,
    r1: RepoView,
    r2: RepoView,
    archive: ArchiveSpaceCommand,
    restore: RestoreSpaceCommand,
    archived: Result<OperationOutcome, AppError>,
    restored: Result<OperationOutcome, AppError>,
)
    requires
        ids_unique(r0),
        archive_space_outcome(r0, archive, archived, r1),
        archived is Ok,
        restore_space_outcome(r1, restore, restored, r2),
        restored is Ok,
        space_resolution(r0.spaces, archive.space_ref@) matches Some(s0)
            && (space_resolution(r1.spaces, restore.space_ref@) matches Some(s1) && s1.id == s0.id),
    ensures
        r2.records == r0.records,
        r2.spaces.len() == r0.spaces.len(),
        forall|k: int| 0 <= k < r0.spaces.len() ==> #[trigger] r2.spaces[k]
            == if r0.spaces[k].id == space_resolution(r0.spaces, archive.space_ref@)->0.id {
                SpaceView { updated_at: r2.spaces[k].updated_at, ..r0.spaces[k] }
            } else {
                r0.spaces[k]
            },
{
    let s0 = space_resolution(r0.spaces, archive.space_ref@)->0;
    let s1 = space_resolution(r1.spaces, restore.space_ref@)->0;
    let id0 = match crate::refs::resolve_space_ref_spec(archive.space_ref@, r0.spaces) {
        crate::refs::RefOutcome::Found(id) => id,
        _ => Seq::empty(),
    };
    crate::refs::lemma_found_space_is_listed(archive.space_ref@, r0.spaces);
    let i = space_index(r0.spaces, id0);
    assert(0 <= i < r0.spaces.len() && r0.spaces[i] == s0);
    let a = archived->Ok_0.root_space->0@;
    let m = StateMutationView {
        current_space_id: crate::space_service::current_after_leaving(r0, s0.id),
        cleared_space_memory_ids: Seq::empty(),
    };
    let es1 = seq![PendingOperationEntryView::SpaceUpsert(a), PendingOperationEntryView::StateUpdate(m)];
    let op1 = choose|op: PendingOperationView| op.kind == PendingOperationKind::SpaceArchive && op.entries == es1
        && r1 == #[trigger] executed(r0, op);
    let base1 = crate::maintenance::state_write(r0, crate::model::AppStateView { pending_operation: Some(op1), ..r0.state });
    let e1 = es1.drop_last();
    assert(e1 =~= seq![PendingOperationEntryView::SpaceUpsert(a)]);
    assert(e1.drop_last() =~= Seq::<PendingOperationEntryView>::empty());
    assert(apply_entries(base1, e1.drop_last()) == base1);
    assert(apply_entries(base1, e1) == crate::maintenance::apply_entry(base1, PendingOperationEntryView::SpaceUpsert(a)));
    lemma_space_upsert_at(r0.spaces, a, i);
    assert(r1.spaces == r0.spaces.update(i, a));
    assert(r1.records == r0.records);
    let id1 = match crate::refs::resolve_space_ref_spec(restore.space_ref@, r1.spaces) {
        crate::refs::RefOutcome::Found(id) => id,
        _ => Seq::empty(),
    };
    crate::refs::lemma_found_space_is_listed(restore.space_ref@, r1.spaces);
    let j = space_index(r1.spaces, id1);
    assert(0 <= j < r1.spaces.len() && r1.spaces[j] == s1);
    if j != i {
        if j < i {
            assert(r1.spaces[j].id != r1.spaces[i].id);
        } else {
            assert(r1.spaces[i].id != r1.spaces[j].id);
        }
    }
    assert(s1 == a);
    let b = restored->Ok_0.root_space->0@;
    let es2 = seq![PendingOperationEntryView::SpaceUpsert(b)];
    let op2 = choose|op: PendingOperationView| op.kind == PendingOperationKind::SpaceRestore && op.entries == es2
        && r2 == #[trigger] executed(r1, op);
    let base2 = crate::maintenance::state_write(r1, crate::model::AppStateView { pending_operation: Some(op2), ..r1.state });
    assert(es2.drop_last() =~= Seq::<PendingOperationEntryView>::empty());
    assert(apply_entries(base2, es2.drop_last()) == base2);
    lemma_space_upsert_at(r1.spaces, b, i);
    assert(r2.spaces == r1.spaces.update(i, b));
    assert(r2.records == r0.records);
}


/// The same law over what `archive_task` and `restore_task` promise: when
/// both succeed and the restore names the task the archive named, the
/// subtree's records come back unarchived with the status the restore asked
/// for, in the `todo` bucket, and nothing else changed but the update times
/// of those records.
pub proof fn law_task_restore_undoes_archive(
    r0: RepoView,
    r1: RepoView,
    r2: RepoView,
    archive: ArchiveTaskCommand,
    restore: RestoreTaskCommand,
    archived: Result<OperationOutcome, AppError>,
    restored: Result<OperationOutcome, AppError>,
)
    requires
        ids_unique(r0),
        archive_task_outcome(r0, archive, archived, r1),
        archived is Ok,
        restore_task_outcome(r1, restore, restored, r2),
        restored is Ok,
        task_found(all_tasks(r0), archive.task_ref@) matches Ok(t0)
            && (task_found(all_tasks(r1), restore.task_ref@) matches Ok(t1) && t1.id == t0.id),
    ensures
        r2.spaces == r0.spaces,
        r2.records.len() == r0.records.len(),
        forall|k: int| 0 <= k < r0.records.len() ==> #[trigger] r2.records[k]
            == if subtree_of(all_tasks(r0), task_found(all_tasks(r0), archive.task_ref@)->Ok_0.id).contains(r0.records[k].task.id)
                && listed(r0, k) {
                RecordView {
                    task: TaskView {
                        archived: false,
                        status: restore.status,
                        updated_at: r2.records[k].task.updated_at,
                        ..r0.records[k].task
                    },
                    bucket: TaskBucket::Todo,
                }
            } else {
                r0.records[k]
            },
{
    let root0 = task_found(all_tasks(r0), archive.task_ref@)->Ok_0;
    let root1 = task_found(all_tasks(r1), restore.task_ref@)->Ok_0;
    let t1 = choose|t: Timestamp| #[trigger] archive_done(r0, r1, root0, t, archived);
    let t2 = choose|t: Timestamp| #[trigger] restore_done(r1, r2, root1, restore.status, t, restored);
    law_restore_undoes_archive(r0, r1, r2, root0, root1, t1, t2, restore.status, archived, restored);
}


proof fn lemma_created_pos_bounds(r: Seq<TaskView>, x: TaskView)
    ensures
        0 <= crate::task_service::created_insert_pos(r, x) <= r.len(),
    decreases r.len(),
{
    if r.len() > 0 && !(x.created_at.unix_nanos > r[0].created_at.unix_nanos) {
        lemma_created_pos_bounds(r.drop_first(), x);
    }
}

/// Ordering tasks newest first loses none of them.
proof fn lemma_newest_first_keeps(s: Seq<TaskView>, x: TaskView)
    requires
        s.contains(x),
    ensures
        crate::task_service::newest_created_first(s).contains(x),
    decreases s.len(),
{
    let r = crate::task_service::newest_created_first(s.drop_last());
    let p = crate::task_service::created_insert_pos(r, s.last());
    lemma_created_pos_bounds(r, s.last());
    let out = r.insert(p, s.last());
    assert(crate::task_service::newest_created_first(s) == out);
    if x == s.last() {
        assert(out[p] == x);
    } else {
        let i = choose|i: int| 0 <= i < s.len() && s[i] == x;
        assert(s.drop_last()[i] == x);
        lemma_newest_first_keeps(s.drop_last(), x);
        let j = choose|j: int| 0 <= j < r.len() && r[j] == x;
        if j < p {
            assert(out[j] == x);
        } else {
            assert(out[j + 1] == x);
        }
    }
}

/// Deleting the records of the tasks one after the other leaves none of
/// them, and nothing that was not stored before.
proof fn lemma_deletes(base: RepoView, ts: Seq<TaskView>)
    requires
        records_unique(base.records),
    ensures
        apply_entries(base, crate::task_service::delete_entries(ts)).spaces == base.spaces,
        records_unique(apply_entries(base, crate::task_service::delete_entries(ts)).records),
        forall|k: int| 0 <= k < apply_entries(base, crate::task_service::delete_entries(ts)).records.len()
            ==> base.records.contains(#[trigger] apply_entries(base, crate::task_service::delete_entries(ts)).records[k]),
        forall|k: int, i: int| 0 <= k < apply_entries(base, crate::task_service::delete_entries(ts)).records.len() && 0 <= i < ts.len()
            ==> #[trigger] apply_entries(base, crate::task_service::delete_entries(ts)).records[k].task.id != #[trigger] ts[i].id,
    decreases ts.len(),
{
    let es = crate::task_service::delete_entries(ts);
    if ts.len() > 0 {
        let init = ts.drop_last();
        assert(es.drop_last() =~= crate::task_service::delete_entries(init));
        lemma_deletes(base, init);
        let mid = apply_entries(base, crate::task_service::delete_entries(init));
        let x = ts[ts.len() - 1].id;
        assert(es.last() == PendingOperationEntryView::TaskDelete { task_id: x });
        let after = apply_entries(base, es);
        let ri = record_index(mid.records, x);
        if ri >= 0 {
            let m = mid.records;
            assert(after.records == m.remove(ri));
            assert forall|k: int| 0 <= k < after.records.len() implies #[trigger] after.records[k] == (if k < ri { m[k] } else { m[k + 1] }) by {}
            assert forall|a: int, b: int| 0 <= a < b < after.records.len() implies #[trigger] after.records[a].task.id != #[trigger] after.records[b].task.id by {
                let a2 = if a < ri { a } else { a + 1 };
                let b2 = if b < ri { b } else { b + 1 };
                assert(m[a2].task.id != m[b2].task.id);
            }
            assert forall|k: int| 0 <= k < after.records.len() implies base.records.contains(#[trigger] after.records[k]) by {
                let k2 = if k < ri { k } else { k + 1 };
                assert(base.records.contains(m[k2]));
            }
            assert forall|k: int, i: int| 0 <= k < after.records.len() && 0 <= i < ts.len()
                implies #[trigger] after.records[k].task.id != #[trigger] ts[i].id by {
                let k2 = if k < ri { k } else { k + 1 };
                if i < ts.len() - 1 {
                    assert(init[i] == ts[i]);
                    assert(m[k2].task.id != init[i].id);
                } else {
                    if k2 < ri {
                        assert(m[k2].task.id != m[ri].task.id);
                    } else {
                        assert(m[ri].task.id != m[k2].task.id);
                    }
                }
            }
        } else {
            assert(after.records == mid.records);
            assert forall|k: int, i: int| 0 <= k < after.records.len() && 0 <= i < ts.len()
                implies #[trigger] after.records[k].task.id != #[trigger] ts[i].id by {
                if i < ts.len() - 1 {
                    assert(init[i] == ts[i]);
                } else {
                    assert(!(0 <= k < mid.records.len() && mid.records[k].task.id == x));
                }
            }
        }
    }
}

/// A purge that succeeds removes the whole subtree: afterwards no task of
/// it can be found, no space changes, and every record left was stored
/// before.
pub proof fn law_purged_subtree_is_gone(r0: RepoView, r1: RepoView, purge: PurgeTaskCommand, purged: Result<OperationOutcome, AppError>)
    requires
        ids_unique(r0),
        purge_task_outcome(r0, purge, purged, r1),
        purged is Ok,
    ensures
        r1.spaces == r0.spaces,
        forall|k: int| 0 <= k < r1.records.len() ==> r0.records.contains(#[trigger] r1.records[k]),
        task_found(all_tasks(r0), purge.task_ref@) matches Ok(root) && forall|y: Seq<char>|
            #[trigger] subtree_of(all_tasks(r0), root.id).contains(y) ==> crate::hierarchy::find_task(all_tasks(r1), y) is None,
{
    let tasks = all_tasks(r0);
    let root = task_found(tasks, purge.task_ref@)->Ok_0;
    let sub = subtree_of(tasks, root.id);
    let doomed = subtree_tasks(tasks, sub);
    let ts = crate::task_service::newest_created_first(doomed);
    let op = choose|op: PendingOperationView| op.kind == PendingOperationKind::TaskPurge
        && op.entries == crate::task_service::delete_entries(ts) && r1 == #[trigger] executed(r0, op);
    let base = crate::maintenance::state_write(r0, crate::model::AppStateView { pending_operation: Some(op), ..r0.state });
    lemma_deletes(base, ts);
    assert forall|y: Seq<char>| #[trigger] sub.contains(y) implies crate::hierarchy::find_task(all_tasks(r1), y) is None by {
        if crate::hierarchy::find_task(all_tasks(r1), y) is Some {
            let f = choose|f: int| crate::hierarchy::is_first_with(all_tasks(r1), y, f);
            let t = all_tasks(r1)[f];
            assert(all_tasks(r1).contains(t));
            lemma_listed_tasks(r1, t);
            let k = choose|k: int| listed(r1, k) && r1.records[k].task == t;
            assert(r0.records.contains(r1.records[k]));
            let k0 = choose|k0: int| 0 <= k0 < r0.records.len() && r0.records[k0] == r1.records[k];
            assert(listed(r0, k0));
            lemma_listed_tasks(r0, t);
            let n = choose|n: int| 0 <= n < tasks.len() && tasks[n] == t;
            tasks.lemma_filter_contains(crate::task_service::in_set(sub), n);
            lemma_newest_first_keeps(doomed, t);
            let i = choose|i: int| 0 <= i < ts.len() && ts[i] == t;
            assert(r1.records[k].task.id != ts[i].id);
        }
    }
}


/// A purge of a space that succeeds removes the space and every task
/// stored in it, keeps every other space and task record in order, and
/// leaves the space neither current nor remembered by the interface.
pub proof fn law_purged_space_is_gone(r0: RepoView, r1: RepoView, purge: PurgeSpaceCommand, purged: Result<OperationOutcome, AppError>)
    requires
        purge_space_outcome(r0, purge, purged, r1),
        purged is Ok,
    ensures
        space_resolution(r0.spaces, purge.space_ref@) matches Some(s) && {
            &&& r1.spaces == r0.spaces.filter(|x: SpaceView| x.id != s.id)
            &&& r1.records == r0.records.filter(|rec: RecordView| rec.task.space_id != s.id)
            &&& forall|i: int| 0 <= i < r1.spaces.len() ==> (#[trigger] r1.spaces[i]).id != s.id
            &&& forall|k: int| 0 <= k < r1.records.len() ==> (#[trigger] r1.records[k]).task.space_id != s.id
            &&& r1.state.current_space_id != Some(s.id)
            &&& forall|i: int| 0 <= i < r1.state.tui_memory.spaces.len() ==> (#[trigger] r1.state.tui_memory.spaces[i]).space_id != s.id
        },
{
    let s = space_resolution(r0.spaces, purge.space_ref@)->0;
    let m = StateMutationView { current_space_id: crate::space_service::current_after_leaving(r0, s.id), cleared_space_memory_ids: seq![s.id] };
    let es = seq![PendingOperationEntryView::SpaceDelete { space_id: s.id }, PendingOperationEntryView::StateUpdate(m)];
    let op = choose|op: PendingOperationView| op.kind == PendingOperationKind::SpacePurge && op.entries == es
        && r1 == #[trigger] executed(r0, op);
    let base = crate::maintenance::state_write(r0, crate::model::AppStateView { pending_operation: Some(op), ..r0.state });
    let e1 = es.drop_last();
    assert(e1 =~= seq![PendingOperationEntryView::SpaceDelete { space_id: s.id }]);
    assert(e1.drop_last() =~= Seq::<PendingOperationEntryView>::empty());
    assert(apply_entries(base, e1.drop_last()) == base);
    let deleted = crate::maintenance::apply_entry(base, PendingOperationEntryView::SpaceDelete { space_id: s.id });
    assert(apply_entries(base, e1) == deleted);
    assert(r1.spaces == r0.spaces.filter(crate::repository::not_space(s.id)));
    assert(r1.records == r0.records.filter(crate::repository::not_in_space(s.id)));
    r0.spaces.filter_lemma(crate::repository::not_space(s.id));
    r0.records.filter_lemma(crate::repository::not_in_space(s.id));
    assert(crate::repository::not_space(s.id) =~= (|x: SpaceView| x.id != s.id));
    assert(crate::repository::not_in_space(s.id) =~= (|rec: RecordView| rec.task.space_id != s.id));
    crate::space_query::law_next_active_is_active(Some(s.id), r0.spaces, Some(s.id));
    let kept = deleted.state.tui_memory.spaces;
    let pred = crate::maintenance::not_cleared(seq![s.id]);
    kept.filter_lemma(pred);
    assert forall|i: int| 0 <= i < r1.state.tui_memory.spaces.len() implies (#[trigger] r1.state.tui_memory.spaces[i]).space_id != s.id by {
        assert(pred(kept.filter(pred)[i]));
        assert(seq![s.id].contains(s.id)) by {
            assert(seq![s.id][0] == s.id);
        }
    }
}

} // verus!
