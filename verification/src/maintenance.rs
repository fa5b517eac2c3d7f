//! Multi-step operations that survive interruption, and the consistency
//! check of the stored data.
//!
//! An operation is first recorded in the state as pending, then its entries
//! are applied one by one, then the pending record is cleared. A run that
//! stops half-way leaves the record behind, and recovery applies the entries
//! again: each entry is an upsert or a delete, so applying it twice is the
//! same as applying it once.

use vstd::prelude::*;
use crate::error::AppError;
use crate::ids::fresh_operation_id;
use crate::model::{
    AppStateView, PendingOperation, PendingOperationEntry, PendingOperationEntryView,
    PendingOperationKind, PendingOperationView, SpaceMemoryEntry, SpaceMemoryEntryView, StateMutation,
    StateMutationView, TuiMemoryView,
};
use crate::ids::TaskId;
use crate::model::TaskView;
use crate::queries::{DoctorIssue, DoctorIssueView, DoctorReport};
use crate::hierarchy::contains_task_id;
use crate::repository::{
    ids_unique, space_index, upsert_record as upsert_record_spec, RecordView as RecView,
    all_records, not_in_space, not_space, record_index, upsert_record, upsert_space, RecordView,
    RepoView, Repository, StorageWriteView, StoredTaskRecord, TaskBucket,
};
use crate::clock::now_utc;
use crate::util::views;

verus! {

/// The repository after the state is replaced and the state written.
pub open spec fn state_write(repo: RepoView, st: AppStateView) -> RepoView {
    RepoView { state: st, writes: repo.writes.push(StorageWriteView::State(st)), ..repo }
}

pub open spec fn not_cleared(ids: Seq<Seq<char>>) -> spec_fn(SpaceMemoryEntryView) -> bool {
    |e: SpaceMemoryEntryView| !ids.contains(e.space_id)
}

/// The state after a mutation: the current space replaced and the view
/// memory of the cleared spaces dropped.
pub open spec fn mutated_state(st: AppStateView, m: StateMutationView) -> AppStateView {
    AppStateView {
        current_space_id: m.current_space_id,
        tui_memory: TuiMemoryView {
            spaces: st.tui_memory.spaces.filter(not_cleared(m.cleared_space_memory_ids)),
            ..st.tui_memory
        },
        ..st
    }
}

/// The repository after one entry of an operation.
pub open spec fn apply_entry(repo: RepoView, e: PendingOperationEntryView) -> RepoView {
    match e {
        PendingOperationEntryView::TaskUpsert(t) => RepoView {
            records: upsert_record(repo.records, t),
            writes: repo.writes.push(StorageWriteView::Task(t)),
            ..repo
        },
        PendingOperationEntryView::TaskDelete { task_id } => RepoView {
            records: if record_index(repo.records, task_id) >= 0 {
                repo.records.remove(record_index(repo.records, task_id))
            } else {
                repo.records
            },
            writes: repo.writes.push(StorageWriteView::DeleteTask(task_id)),
            ..repo
        },
        PendingOperationEntryView::SpaceUpsert(s) => RepoView {
            spaces: upsert_space(repo.spaces, s),
            writes: repo.writes.push(StorageWriteView::Space(s)),
            ..repo
        },
        PendingOperationEntryView::SpaceDelete { space_id } => RepoView {
            spaces: repo.spaces.filter(not_space(space_id)),
            records: repo.records.filter(not_in_space(space_id)),
            writes: repo.writes.push(StorageWriteView::DeleteSpace(space_id)),
            ..repo
        },
        PendingOperationEntryView::StateUpdate(m) => state_write(repo, mutated_state(repo.state, m)),
    }
}

/// The repository after the entries, in order.
pub open spec fn apply_entries(repo: RepoView, es: Seq<PendingOperationEntryView>) -> RepoView
    decreases es.len(),
{
    if es.len() == 0 {
        repo
    } else {
        apply_entry(apply_entries(repo, es.drop_last()), es.last())
    }
}

/// The repository with the pending record cleared.
pub open spec fn cleared(repo: RepoView) -> RepoView {
    state_write(repo, AppStateView { pending_operation: None, ..repo.state })
}

/// The repository after a whole operation: recorded as pending, applied,
/// then cleared.
pub open spec fn executed(repo: RepoView, op: PendingOperationView) -> RepoView {
    cleared(apply_entries(state_write(repo, AppStateView { pending_operation: Some(op), ..repo.state }), op.entries))
}

pub struct MaintenanceService {}

impl MaintenanceService {
    pub fn new() -> (r: Self) {
        MaintenanceService {}
    }

    /// Completes an operation left pending by an interrupted run.
    pub fn recover_pending_operation(&self, repo: &mut Repository) -> (r: Result<Option<PendingOperationKind>, AppError>)
        requires
            old(repo).wf(),
        ensures
            final(repo).wf(),
            match old(repo)@.state.pending_operation {
                None => r matches Ok(None) && final(repo)@ == old(repo)@,
                Some(op) => r matches Ok(Some(k)) && k == op.kind && final(repo)@ == cleared(apply_entries(old(repo)@, op.entries)),
            },
    {
        let state = repo.load_state();
        match state.pending_operation {
            None => Ok(None),
            Some(operation) => {
                self.apply_operation_entries(repo, &operation);
                self.clear_pending_operation(repo);
                Ok(Some(operation.kind))
            },
        }
    }

    /// Runs an operation: records it as pending, applies its entries and
    /// clears the record. Refused while another operation is pending.
    pub fn execute_operation(&self, repo: &mut Repository, kind: PendingOperationKind, entries: Vec<PendingOperationEntry>) -> (r: Result<(), AppError>)
        requires
            old(repo).wf(),
        ensures
            final(repo).wf(),
            match old(repo)@.state.pending_operation {
                Some(p) => r matches Err(AppError::PendingOperationInProgress { operation_id, kind: k })
                    && operation_id@ == p.operation_id && k == p.kind && final(repo)@ == old(repo)@,
                None => r is Ok && exists|op: PendingOperationView|
                    op.kind == kind && op.entries == views(entries@) && final(repo)@ == #[trigger] executed(old(repo)@, op),
            },
    {
        let operation = PendingOperation {
            operation_id: fresh_operation_id(),
            kind,
            created_at: now_utc(),
            entries,
        };
        let mut state = repo.load_state();
        match &state.pending_operation {
            Some(existing) => {
                return Err(AppError::PendingOperationInProgress {
                    operation_id: existing.operation_id.clone(),
                    kind: existing.kind,
                });
            },
            None => {},
        }
        let ghost before = repo@;
        state.pending_operation = Some(operation.clone());
        repo.save_state(&state);
        assert(repo@ == state_write(before, AppStateView { pending_operation: Some(operation@), ..before.state }));
        self.apply_operation_entries(repo, &operation);
        self.clear_pending_operation(repo);
        assert(repo@ == executed(before, operation@));
        Ok(())
    }

    fn apply_operation_entries(&self, repo: &mut Repository, operation: &PendingOperation)
        requires
            old(repo).wf(),
        ensures
            final(repo).wf(),
            final(repo)@ == apply_entries(old(repo)@, operation@.entries),
    {
        let ghost start = repo@;
        let ghost es = operation@.entries;
        let n = operation.entries.len();
        let mut i: usize = 0;
        assert(es.take(0) =~= Seq::<PendingOperationEntryView>::empty());
        while i < n
            invariant
                n == operation.entries@.len(),
                es == operation@.entries,
                es == views(operation.entries@),
                i <= n,
                repo.wf(),
                repo@ == apply_entries(start, es.take(i as int)),
            decreases n - i,
        {
            proof {
                assert(es.take(i + 1).drop_last() =~= es.take(i as int));
                assert(es.take(i + 1).last() == es[i as int]);
                assert(es[i as int] == operation.entries@[i as int]@);
            }
            match &operation.entries[i] {
                PendingOperationEntry::TaskUpsert(task) => repo.save_task(task),
                PendingOperationEntry::TaskDelete { task_id } => repo.delete_task(task_id),
                PendingOperationEntry::SpaceUpsert(space) => repo.save_space(space),
                PendingOperationEntry::SpaceDelete { space_id } => repo.delete_space(space_id),
                PendingOperationEntry::StateUpdate(mutation) => self.apply_state_mutation(repo, mutation),
            }
            i = i + 1;
        }
        assert(es.take(n as int) =~= es);
    }

    fn apply_state_mutation(&self, repo: &mut Repository, mutation: &StateMutation)
        requires
            old(repo).wf(),
        ensures
            final(repo).wf(),
            final(repo)@ == state_write(old(repo)@, mutated_state(old(repo)@.state, mutation@)),
    {
        let mut state = repo.load_state();
        state.current_space_id = crate::model::clone_opt_space_id(&mutation.current_space_id);
        let mut memory: Vec<SpaceMemoryEntry> = Vec::new();
        std::mem::swap(&mut memory, &mut state.tui_memory.spaces);
        let ghost mv = views(memory@);
        let ghost cleared_ids = mutation@.cleared_space_memory_ids;
        let ghost pred = not_cleared(cleared_ids);
        let mut kept: Vec<SpaceMemoryEntry> = Vec::new();
        let n = memory.len();
        let mut i: usize = 0;
        proof {
            reveal_with_fuel(Seq::<_>::filter, 1);
            assert(mv.take(0) =~= Seq::<SpaceMemoryEntryView>::empty());
        }
        while i < n
            invariant
                n == memory@.len(),
                mv == views(memory@),
                cleared_ids == mutation@.cleared_space_memory_ids,
                pred == not_cleared(cleared_ids),
                i <= n,
                views(kept@) == mv.take(i as int).filter(pred),
            decreases n - i,
        {
            proof {
                reveal_with_fuel(Seq::<_>::filter, 1);
                assert(mv.take(i + 1).drop_last() =~= mv.take(i as int));
                assert(mv.take(i + 1).last() == mv[i as int]);
            }
            let id = &memory[i].space_id;
            let mut found = false;
            let m = mutation.cleared_space_memory_ids.len();
            let mut j: usize = 0;
            while j < m
                invariant
                    m == mutation.cleared_space_memory_ids@.len(),
                    cleared_ids == views(mutation.cleared_space_memory_ids@),
                    j <= m,
                    found == exists|k: int| 0 <= k < j && cleared_ids[k] == id@,
                decreases m - j,
            {
                if mutation.cleared_space_memory_ids[j].0 == id.0 {
                    found = true;
                    assert(cleared_ids[j as int] == id@);
                }
                proof {
                    if found && !(exists|k: int| 0 <= k < j && cleared_ids[k] == id@) {
                        assert(cleared_ids[j as int] == id@);
                    }
                }
                j = j + 1;
            }
            if !found {
                let e = memory[i].clone();
                let ghost before = views(kept@);
                kept.push(e);
                assert(views(kept@) =~= before.push(mv[i as int]));
            }
            i = i + 1;
        }
        assert(mv.take(n as int) =~= mv);
        state.tui_memory.spaces = kept;
        repo.save_state(&state);
        assert(state@ =~= mutated_state(old(repo)@.state, mutation@));
    }

    fn clear_pending_operation(&self, repo: &mut Repository)
        requires
            old(repo).wf(),
        ensures
            final(repo).wf(),
            final(repo)@ == cleared(old(repo)@),
    {
        let mut state = repo.load_state();
        state.pending_operation = None;
        repo.save_state(&state);
    }
}

// ---------------------------------------------------------------------------
// Consistency check

/// The task of the last record with the id: the one a map keyed by id keeps.
pub open spec fn last_with(recs: Seq<RecordView>, id: Seq<char>) -> Option<TaskView>
    decreases recs.len(),
{
    if recs.len() == 0 {
        None
    } else if recs.last().task.id == id {
        Some(recs.last().task)
    } else {
        last_with(recs.drop_last(), id)
    }
}

/// A record is misfiled when a live task sits in `archive/` or an archived
/// one in `todo/`.
pub open spec fn bucket_mismatch(bucket: TaskBucket, archived: bool) -> bool {
    (bucket == TaskBucket::Todo && archived) || (bucket == TaskBucket::Archive && !archived)
}

pub open spec fn parent_issues(recs: Seq<RecordView>, r: RecordView) -> Seq<DoctorIssueView> {
    match r.task.parent_id {
        None => Seq::empty(),
        Some(p) => match last_with(recs, p) {
            None => seq![DoctorIssueView::MissingParent { task_id: r.task.id, parent_id: p }],
            Some(parent) => if parent.space_id != r.task.space_id {
                seq![DoctorIssueView::CrossSpaceParent {
                    task_id: r.task.id,
                    task_space_id: r.task.space_id,
                    parent_id: parent.id,
                    parent_space_id: parent.space_id,
                }]
            } else {
                Seq::empty()
            },
        },
    }
}

pub open spec fn bucket_issues(r: RecordView) -> Seq<DoctorIssueView> {
    if bucket_mismatch(r.bucket, r.task.archived) {
        seq![DoctorIssueView::BucketStatusMismatch { task_id: r.task.id, bucket: r.bucket, archived: r.task.archived }]
    } else {
        Seq::empty()
    }
}

/// The parent and bucket issues of the records of `upto`, record by record.
pub open spec fn record_issues(recs: Seq<RecordView>, upto: Seq<RecordView>) -> Seq<DoctorIssueView>
    decreases upto.len(),
{
    if upto.len() == 0 {
        Seq::empty()
    } else {
        record_issues(recs, upto.drop_last()) + parent_issues(recs, upto.last()) + bucket_issues(upto.last())
    }
}

/// Following parents from `current`, an id comes back before the walk
/// leaves the records; `fuel` bounds the number of steps.
pub open spec fn cycle_walk(recs: Seq<RecordView>, current: Option<Seq<char>>, seen: Seq<Seq<char>>, fuel: nat) -> bool
    decreases fuel,
{
    if fuel == 0 {
        false
    } else {
        match current {
            None => false,
            Some(c) => if seen.contains(c) {
                true
            } else {
                match last_with(recs, c) {
                    None => false,
                    Some(t) => cycle_walk(recs, t.parent_id, seen.push(c), (fuel - 1) as nat),
                }
            },
        }
    }
}

/// The parent chain from the task runs into a cycle. One step per record
/// and one more suffice: a walk that long has met an id twice.
pub open spec fn has_cycle(recs: Seq<RecordView>, id: Seq<char>) -> bool {
    cycle_walk(recs, Some(id), Seq::empty(), (recs.len() + 1) as nat)
}

/// The ids of the records of `upto` whose parent chain cycles, each once.
pub open spec fn cycle_ids(recs: Seq<RecordView>, upto: Seq<RecordView>) -> Seq<Seq<char>>
    decreases upto.len(),
{
    if upto.len() == 0 {
        Seq::empty()
    } else {
        let prev = cycle_ids(recs, upto.drop_last());
        let id = upto.last().task.id;
        if has_cycle(recs, id) && !prev.contains(id) {
            prev.push(id)
        } else {
            prev
        }
    }
}

pub open spec fn pending_issues(st: AppStateView) -> Seq<DoctorIssueView> {
    match st.pending_operation {
        Some(op) => seq![DoctorIssueView::PendingOperation { operation_id: op.operation_id, kind: op.kind }],
        None => Seq::empty(),
    }
}

/// The issues the doctor reports: a pending operation, then the parent and
/// bucket issues record by record, then the tasks caught in parent cycles.
pub open spec fn doctor_issues(repo: RepoView) -> Seq<DoctorIssueView> {
    let recs = all_records(repo.spaces, repo.records);
    pending_issues(repo.state) + record_issues(recs, recs)
        + cycle_ids(recs, recs).map_values(|id: Seq<char>| DoctorIssueView::ParentCycle { task_id: id })
}

/// A live task filed under `archive/` or an archived one under `todo/`.
pub fn bucket_mismatches_status(bucket: TaskBucket, archived: bool) -> (r: bool)
    ensures
        r == bucket_mismatch(bucket, archived),
{
    match bucket {
        TaskBucket::Todo => archived,
        TaskBucket::Archive => !archived,
    }
}

/// The position of the last record with the id.
fn last_record_index(recs: &Vec<StoredTaskRecord>, id: &TaskId) -> (r: Option<usize>)
    ensures
        match r {
            Some(i) => i < recs@.len() && last_with(views(recs@), id@) == Some(recs@[i as int]@.task),
            None => last_with(views(recs@), id@) is None,
        },
{
    let ghost rv = views(recs@);
    let mut i: usize = recs.len();
    assert(rv.take(i as int) =~= rv);
    while i > 0
        invariant
            rv == views(recs@),
            i <= recs@.len(),
            last_with(rv, id@) == last_with(rv.take(i as int), id@),
        decreases i,
    {
        let k = i - 1;
        assert(rv.take(i as int).last() == rv[k as int]);
        assert(rv.take(i as int).drop_last() =~= rv.take(k as int));
        if recs[k].task.id.0 == id.0 {
            return Some(k);
        }
        i = k;
    }
    assert(rv.take(0) =~= Seq::<RecordView>::empty());
    None
}

/// Whether the parent chain from the task runs into a cycle.
pub fn has_parent_cycle(task_id: &TaskId, recs: &Vec<StoredTaskRecord>) -> (r: bool)
    ensures
        r == has_cycle(views(recs@), task_id@),
{
    let ghost rv = views(recs@);
    let mut seen: Vec<TaskId> = Vec::new();
    let mut current: Option<TaskId> = Some(task_id.clone());
    let mut fuel: u128 = recs.len() as u128 + 1;
    assert(views(seen@) =~= Seq::<Seq<char>>::empty());
    while fuel > 0
        invariant
            rv == views(recs@),
            cycle_walk(rv, crate::util::opt_view(current), views(seen@), fuel as nat) == has_cycle(rv, task_id@),
        decreases fuel,
    {
        match current {
            None => {
                return false;
            },
            Some(c) => {
                if contains_task_id(&seen, &c) {
                    return true;
                }
                match last_record_index(recs, &c) {
                    None => {
                        return false;
                    },
                    Some(i) => {
                        let ghost before = views(seen@);
                        seen.push(c);
                        assert(views(seen@) =~= before.push(c@));
                        current = crate::model::clone_opt_task_id(&recs[i].task.parent_id);
                        fuel = fuel - 1;
                    },
                }
            },
        }
    }
    false
}

impl MaintenanceService {
    /// Checks the stored data: a pending operation, tasks whose parent is
    /// missing or in another space, misfiled tasks, and parent cycles.
    pub fn doctor(&self, repo: &Repository) -> (r: Result<DoctorReport, AppError>)
        ensures
            r matches Ok(report) && views(report.issues@) == doctor_issues(repo@),
    {
        let mut issues: Vec<DoctorIssue> = Vec::new();
        let state = repo.load_state();
        match &state.pending_operation {
            Some(op) => {
                issues.push(DoctorIssue::PendingOperation { operation_id: op.operation_id.clone(), kind: op.kind });
            },
            None => {},
        }
        let recs = repo.list_all_task_records();
        let ghost rv = views(recs@);
        let ghost head = views(issues@);
        assert(head =~= pending_issues(repo@.state));
        let n = recs.len();
        let mut i: usize = 0;
        assert(rv.take(0) =~= Seq::<RecordView>::empty());
        assert(views(issues@) =~= head + record_issues(rv, rv.take(0)));
        while i < n
            invariant
                n == recs@.len(),
                rv == views(recs@),
                i <= n,
                views(issues@) == head + record_issues(rv, rv.take(i as int)),
            decreases n - i,
        {
            let ghost before = views(issues@);
            let rec = &recs[i];
            proof {
                assert(rv.take(i + 1).drop_last() =~= rv.take(i as int));
                assert(rv.take(i + 1).last() == rv[i as int]);
                assert(rv[i as int] == rec@);
            }
            match &rec.task.parent_id {
                Some(p) => {
                    match last_record_index(&recs, p) {
                        None => {
                            issues.push(DoctorIssue::MissingParent { task_id: rec.task.id.clone(), parent_id: p.clone() });
                        },
                        Some(j) => {
                            let parent = &recs[j].task;
                            if parent.space_id.0 != rec.task.space_id.0 {
                                issues.push(DoctorIssue::CrossSpaceParent {
                                    task_id: rec.task.id.clone(),
                                    task_space_id: rec.task.space_id.clone(),
                                    parent_id: parent.id.clone(),
                                    parent_space_id: parent.space_id.clone(),
                                });
                            }
                        },
                    }
                },
                None => {},
            }
            let ghost mid = views(issues@);
            assert(mid =~= before + parent_issues(rv, rv[i as int]));
            if bucket_mismatches_status(rec.bucket, rec.task.archived) {
                issues.push(DoctorIssue::BucketStatusMismatch {
                    task_id: rec.task.id.clone(),
                    bucket: rec.bucket,
                    archived: rec.task.archived,
                });
            }
            assert(views(issues@) =~= mid + bucket_issues(rv[i as int]));
            assert(views(issues@) =~= head + record_issues(rv, rv.take(i + 1)));
            i = i + 1;
        }
        assert(rv.take(n as int) =~= rv);
        let mut reported: Vec<TaskId> = Vec::new();
        let mut k: usize = 0;
        assert(views(reported@) =~= cycle_ids(rv, rv.take(0)));
        while k < n
            invariant
                n == recs@.len(),
                rv == views(recs@),
                k <= n,
                views(reported@) == cycle_ids(rv, rv.take(k as int)),
            decreases n - k,
        {
            proof {
                assert(rv.take(k + 1).drop_last() =~= rv.take(k as int));
                assert(rv.take(k + 1).last() == rv[k as int]);
            }
            let id = &recs[k].task.id;
            if has_parent_cycle(id, &recs) && !contains_task_id(&reported, id) {
                let ghost before = views(reported@);
                reported.push(id.clone());
                assert(views(reported@) =~= before.push(id@));
            }
            k = k + 1;
        }
        assert(rv.take(n as int) =~= rv);
        let ghost body = views(issues@);
        let ghost cyc = views(reported@);
        let m = reported.len();
        let mut c: usize = 0;
        while c < m
            invariant
                m == reported@.len(),
                cyc == views(reported@),
                c <= m,
                views(issues@) == body + cyc.take(c as int).map_values(|id: Seq<char>| DoctorIssueView::ParentCycle { task_id: id }),
            decreases m - c,
        {
            let ghost before = views(issues@);
            issues.push(DoctorIssue::ParentCycle { task_id: reported[c].clone() });
            assert(cyc.take(c + 1).map_values(|id: Seq<char>| DoctorIssueView::ParentCycle { task_id: id })
                =~= cyc.take(c as int).map_values(|id: Seq<char>| DoctorIssueView::ParentCycle { task_id: id }).push(
                    DoctorIssueView::ParentCycle { task_id: cyc[c as int] }));
            assert(views(issues@) =~= before.push(DoctorIssueView::ParentCycle { task_id: cyc[c as int] }));
            c = c + 1;
        }
        assert(cyc.take(m as int) =~= cyc);
        assert(rv == all_records(repo@.spaces, repo@.records));
        Ok(DoctorReport { issues })
    }
}

// ---------------------------------------------------------------------------
// Replaying an entry

/// What the files hold: configuration, state, spaces and task records.
pub open spec fn stored(repo: RepoView) -> (crate::model::AppConfig, AppStateView, Seq<crate::model::SpaceView>, Seq<RecordView>) {
    (repo.config, repo.state, repo.spaces, repo.records)
}

proof fn lemma_filter_of_filtered<A>(s: Seq<A>, p: spec_fn(A) -> bool)
    ensures
        s.filter(p).filter(p) == s.filter(p),
{
    let f = s.filter(p);
    assert forall|i: int| 0 <= i < f.len() implies p(#[trigger] f[i]) by {
        s.lemma_filter_pred(p, i);
    }
    lemma_filter_all(f, p);
}

proof fn lemma_filter_all<A>(s: Seq<A>, p: spec_fn(A) -> bool)
    requires
        forall|i: int| 0 <= i < s.len() ==> p(#[trigger] s[i]),
    ensures
        s.filter(p) == s,
    decreases s.len(),
{
    reveal_with_fuel(Seq::<_>::filter, 1);
    if s.len() > 0 {
        assert forall|i: int| 0 <= i < s.drop_last().len() implies p(#[trigger] s.drop_last()[i]) by {
            assert(s.drop_last()[i] == s[i]);
        }
        lemma_filter_all(s.drop_last(), p);
        assert(p(s[s.len() - 1]));
        assert(s.drop_last().push(s.last()) =~= s);
    } else {
        assert(s.filter(p) =~= s);
    }
}

proof fn lemma_record_index_at(records: Seq<RecordView>, id: Seq<char>, i: int)
    requires
        0 <= i < records.len(),
        records[i].task.id == id,
        forall|a: int, b: int| 0 <= a < b < records.len() ==> #[trigger] records[a].task.id != #[trigger] records[b].task.id,
    ensures
        record_index(records, id) == i,
{
    let k = record_index(records, id);
    assert(0 <= k < records.len() && records[k].task.id == id);
    if k < i {
        assert(records[k].task.id != records[i].task.id);
    } else if i < k {
        assert(records[i].task.id != records[k].task.id);
    }
}

proof fn lemma_space_index_at(spaces: Seq<crate::model::SpaceView>, id: Seq<char>, i: int)
    requires
        0 <= i < spaces.len(),
        spaces[i].id == id,
        forall|a: int, b: int| 0 <= a < b < spaces.len() ==> #[trigger] spaces[a].id != #[trigger] spaces[b].id,
    ensures
        space_index(spaces, id) == i,
{
    let k = space_index(spaces, id);
    assert(0 <= k < spaces.len() && spaces[k].id == id);
    if k < i {
        assert(spaces[k].id != spaces[i].id);
    } else if i < k {
        assert(spaces[i].id != spaces[k].id);
    }
}

/// Applying an entry of an operation a second time changes nothing
/// more in the stored data, so recovery may replay an operation that was cut
/// off part-way.
pub proof fn law_entry_idempotent(repo: RepoView, e: PendingOperationEntryView)
    requires
        ids_unique(repo),
    ensures
        stored(apply_entry(apply_entry(repo, e), e)) == stored(apply_entry(repo, e)),
{
    let once = apply_entry(repo, e);
    let twice = apply_entry(once, e);
    match e {
        PendingOperationEntryView::TaskUpsert(t) => {
            let r = repo.records;
            let rec = RecView { task: t, bucket: crate::repository::bucket_for(t.archived) };
            let i = record_index(r, t.id);
            let r1 = upsert_record_spec(r, t);
            if i >= 0 {
                assert(r1 == r.update(i, rec));
                assert forall|a: int, b: int| 0 <= a < b < r1.len() implies #[trigger] r1[a].task.id != #[trigger] r1[b].task.id by {
                    assert(r[i].task.id == t.id);
                    if a != i && b != i {
                        assert(r[a].task.id != r[b].task.id);
                    } else if a == i {
                        assert(r[i].task.id != r[b].task.id);
                    } else {
                        assert(r[a].task.id != r[i].task.id);
                    }
                }
                lemma_record_index_at(r1, t.id, i);
                assert(r1.update(i, rec) =~= r1);
            } else {
                assert(forall|j: int| 0 <= j < r.len() ==> r[j].task.id != t.id);
                assert(r1 == r.push(rec));
                assert forall|a: int, b: int| 0 <= a < b < r1.len() implies #[trigger] r1[a].task.id != #[trigger] r1[b].task.id by {
                    if b == r.len() {
                        assert(r[a].task.id != t.id);
                    } else {
                        assert(r[a].task.id != r[b].task.id);
                    }
                }
                lemma_record_index_at(r1, t.id, r.len() as int);
                assert(r1.update(r.len() as int, rec) =~= r1);
            }
            assert(twice.records == once.records);
        },
        PendingOperationEntryView::TaskDelete { task_id } => {
            let r = repo.records;
            let i = record_index(r, task_id);
            if i >= 0 {
                let r1 = r.remove(i);
                assert(r[i].task.id == task_id);
                assert forall|j: int| 0 <= j < r1.len() implies r1[j].task.id != task_id by {
                    if j < i {
                        assert(r1[j] == r[j]);
                        assert(r[j].task.id != r[i].task.id);
                    } else {
                        assert(r1[j] == r[j + 1]);
                        assert(r[i].task.id != r[j + 1].task.id);
                    }
                }
                assert(record_index(r1, task_id) == -1);
            }
            assert(twice.records == once.records);
        },
        PendingOperationEntryView::SpaceUpsert(sp) => {
            let ss = repo.spaces;
            let i = space_index(ss, sp.id);
            let s1 = upsert_space(ss, sp);
            if i >= 0 {
                assert(s1 == ss.update(i, sp));
                assert forall|a: int, b: int| 0 <= a < b < s1.len() implies #[trigger] s1[a].id != #[trigger] s1[b].id by {
                    assert(ss[i].id == sp.id);
                    if a != i && b != i {
                        assert(ss[a].id != ss[b].id);
                    } else if a == i {
                        assert(ss[i].id != ss[b].id);
                    } else {
                        assert(ss[a].id != ss[i].id);
                    }
                }
                lemma_space_index_at(s1, sp.id, i);
                assert(s1.update(i, sp) =~= s1);
            } else {
                assert(forall|j: int| 0 <= j < ss.len() ==> ss[j].id != sp.id);
                assert(s1 == ss.push(sp));
                assert forall|a: int, b: int| 0 <= a < b < s1.len() implies #[trigger] s1[a].id != #[trigger] s1[b].id by {
                    if b == ss.len() {
                        assert(ss[a].id != sp.id);
                    } else {
                        assert(ss[a].id != ss[b].id);
                    }
                }
                lemma_space_index_at(s1, sp.id, ss.len() as int);
                assert(s1.update(ss.len() as int, sp) =~= s1);
            }
            assert(twice.spaces == once.spaces);
        },
        PendingOperationEntryView::SpaceDelete { space_id } => {
            lemma_filter_of_filtered(repo.spaces, not_space(space_id));
            lemma_filter_of_filtered(repo.records, not_in_space(space_id));
        },
        PendingOperationEntryView::StateUpdate(m) => {
            lemma_filter_of_filtered(repo.state.tui_memory.spaces, not_cleared(m.cleared_space_memory_ids));
            assert(mutated_state(mutated_state(repo.state, m), m) =~= mutated_state(repo.state, m));
        },
    }
}


/// Saving a task files it in the bucket its archived flag selects, so saves
/// never make a record misfiled.
pub proof fn law_saves_keep_buckets_consistent(repo: RepoView, t: TaskView)
    requires
        forall|k: int| 0 <= k < repo.records.len() ==> !bucket_mismatch(#[trigger] repo.records[k].bucket, repo.records[k].task.archived),
    ensures
        forall|k: int| 0 <= k < crate::repository::saved_task(repo, t).records.len()
            ==> !bucket_mismatch(#[trigger] crate::repository::saved_task(repo, t).records[k].bucket,
                crate::repository::saved_task(repo, t).records[k].task.archived),
{
    let recs = crate::repository::saved_task(repo, t).records;
    assert forall|k: int| 0 <= k < recs.len() implies !bucket_mismatch(#[trigger] recs[k].bucket, recs[k].task.archived) by {
        let i = record_index(repo.records, t.id);
        if (i >= 0 && k == i) || (i < 0 && k == repo.records.len()) {
            assert(recs[k].bucket == crate::repository::bucket_for(t.archived));
        } else {
            assert(recs[k] == repo.records[k]);
        }
    }
}

} // verus!
