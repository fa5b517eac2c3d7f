//! Space use cases: creating, listing, showing, selecting, renaming,
//! archiving, restoring and purging spaces.

use vstd::prelude::*;
use crate::error::{rview, AppError, AppErrorView, RefErrorView, StorageErrorView};
use crate::ids::{space_prefix, SpaceId};
use crate::model::{AppConfig, AppState, AppStateView, Space, SpaceState, SpaceView};
use crate::refs::{
    ids_comparable, resolve_space_ref, resolve_space_ref_spec, slug_matcher, space_ids, space_prefix_matches,
    space_ref_outcome, prefix_matches, ref_matcher, RefOutcome, ReferenceError,
};
use crate::repository::{
    ids_split, record_tasks, records_in_space, saved_space, space_index, RepoView, Repository, StorageError,
    StorageWriteView,
};
use crate::commands::{RenameSpaceCommand, SetCurrentSpaceCommand};
use crate::queries::{ListSpacesQuery, ShowSpaceQuery, SpaceDetails, SpaceSummary, SpaceSummaryView};
use crate::maintenance::state_write;
use crate::model::{SpaceCounts, TaskView};
use crate::space_query::{sort_spaces, sort_spaces_spec};
use crate::task_query::{archived_task, derive_space_counts, live_task};
use crate::text::{decimal, is_blank, lemma_decimal_injective, push_decimal, str_eq, string_push};
use crate::commands::CreateSpaceCommand;
use crate::model::{slugify, slugify_spec, PendingOperationEntry, PendingOperationEntryView, PendingOperationKind, PendingOperationView, StateMutation, StateMutationView};
use crate::ids::{is_long_id};
use crate::maintenance::{executed, MaintenanceService};
use crate::commands::{ArchiveSpaceCommand, PurgeSpaceCommand, RestoreSpaceCommand};
use crate::queries::OperationOutcome;
use crate::space_query::{next_active, next_active_space_id};
use crate::validation::{ensure_non_empty_space_name, ValidationError};
use crate::clock::now_utc;
use crate::util::{opt_view, views};

verus! {

// ---------------------------------------------------------------------------
// Resolving spaces

/// The space a reference picks out, if it picks out one.
pub open spec fn space_resolution(spaces: Seq<SpaceView>, reference: Seq<char>) -> Option<SpaceView> {
    match resolve_space_ref_spec(reference, spaces) {
        RefOutcome::Found(id) => Some(spaces[space_index(spaces, id)]),
        _ => None,
    }
}

/// The outcome of resolving a space: the reference error when nothing or
/// more than one space matches, `ArchivedSpace` when an active space is
/// required and the match is archived, the space otherwise.
pub open spec fn space_found(spaces: Seq<SpaceView>, reference: Seq<char>, require_active: bool) -> Result<SpaceView, AppErrorView> {
    match resolve_space_ref_spec(reference, spaces) {
        RefOutcome::Found(id) => {
            let s = spaces[space_index(spaces, id)];
            if require_active && s.state != SpaceState::Active {
                Err(AppErrorView::ArchivedSpace(s.id))
            } else {
                Ok(s)
            }
        },
        o => Err(AppErrorView::Reference(RefErrorView { for_space: true, outcome: o, input: reference, invalid: None })),
    }
}

pub open spec fn space_lookup(spaces: Seq<SpaceView>, reference: Seq<char>, require_active: bool, r: Result<Space, AppError>) -> bool {
    rview(r) == space_found(spaces, reference, require_active)
}

/// The space named by the reference or, without one, the current space.
pub open spec fn effective_space(repo: RepoView, reference: Option<Seq<char>>, require_active: bool) -> Result<SpaceView, AppErrorView> {
    match reference {
        Some(rf) => space_found(repo.spaces, rf, require_active),
        None => match repo.state.current_space_id {
            None => Err(AppErrorView::MissingCurrentSpace),
            Some(cid) => if space_index(repo.spaces, cid) < 0 {
                Err(AppErrorView::Storage(StorageErrorView::SpaceNotFound(cid)))
            } else {
                let s = repo.spaces[space_index(repo.spaces, cid)];
                if require_active && s.state != SpaceState::Active {
                    Err(AppErrorView::ArchivedSpace(s.id))
                } else {
                    Ok(s)
                }
            },
        },
    }
}

pub open spec fn effective_lookup(repo: RepoView, reference: Option<Seq<char>>, require_active: bool, r: Result<Space, AppError>) -> bool {
    rview(r) == effective_space(repo, reference, require_active)
}

pub proof fn lemma_found_space_exists(spaces: Seq<SpaceView>, reference: Seq<char>)
    ensures
        resolve_space_ref_spec(reference, spaces) matches RefOutcome::Found(id) ==> exists|i: int| 0 <= i < spaces.len() && spaces[i].id == id,
{
    let ids = space_ids(spaces);
    if let RefOutcome::Found(id) = resolve_space_ref_spec(reference, spaces) {
        if ids.contains(reference) {
            let i = choose|i: int| 0 <= i < ids.len() && ids[i] == reference;
            assert(spaces[i].id == id);
        } else {
            let idm = space_prefix_matches(spaces, reference);
            if idm.len() == 1 {
                assert(idm == prefix_matches(ids, space_prefix(), reference));
                assert(idm.contains(idm[0]));
                ids.lemma_filter_contains_rev(ref_matcher(space_prefix(), reference), idm[0]);
                let i = choose|i: int| 0 <= i < ids.len() && ids[i] == idm[0];
                assert(spaces[i].id == id);
            } else {
                let f = spaces.filter(slug_matcher(reference));
                assert(f.contains(f[0]));
                spaces.lemma_filter_contains_rev(slug_matcher(reference), f[0]);
                let i = choose|i: int| 0 <= i < spaces.len() && spaces[i] == f[0];
                assert(spaces[i].id == id);
            }
        }
    }
}

proof fn lemma_space_ids_comparable(repo: RepoView, reference: Seq<char>)
    requires
        ids_split(repo),
    ensures
        ids_comparable(space_ids(repo.spaces), space_prefix(), reference),
{
    let ids = space_ids(repo.spaces);
    assert forall|i: int| 0 <= i < ids.len() implies (#[trigger] crate::ids::matches_ref_reaches_suffix(ids[i], space_prefix(), reference)
        ==> crate::text::split_once_underscore(ids[i]) is Some) by {
        assert(ids[i] == repo.spaces[i].id);
        assert(crate::text::split_once_underscore(repo.spaces[i].id) is Some);
    }
}

/// The live and archived counts of a list of tasks.
pub open spec fn counts_of(tasks: Seq<TaskView>) -> SpaceCounts {
    SpaceCounts {
        todo_tasks: tasks.filter(live_task()).len() as usize,
        archived_tasks: tasks.filter(archived_task()).len() as usize,
    }
}

/// The tasks stored in a space.
pub open spec fn space_tasks(repo: RepoView, sid: Seq<char>) -> Seq<TaskView> {
    record_tasks(records_in_space(repo.records, sid))
}

pub open spec fn summary_of(repo: RepoView, s: SpaceView) -> SpaceSummaryView {
    SpaceSummaryView {
        space: s,
        counts: counts_of(space_tasks(repo, s.id)),
        is_current: repo.state.current_space_id == Some(s.id),
    }
}

pub open spec fn listed(include_archived: bool) -> spec_fn(SpaceView) -> bool {
    |s: SpaceView| include_archived || s.state == SpaceState::Active
}

/// The summaries a space listing shows: spaces in order, archived ones only
/// when asked for.
pub open spec fn space_summaries(repo: RepoView, include_archived: bool) -> Seq<SpaceSummaryView> {
    sort_spaces_spec(repo.spaces).filter(listed(include_archived)).map_values(|s: SpaceView| summary_of(repo, s))
}

/// The state with another current space.
pub open spec fn with_current(st: AppStateView, id: Option<Seq<char>>) -> AppStateView {
    AppStateView { current_space_id: id, ..st }
}

// ---------------------------------------------------------------------------
// Free slugs

/// `base`, `_` and the decimal digits of `k`.
pub open spec fn suffixed(base: Seq<char>, k: nat) -> Seq<char> {
    base + seq!['_'] + decimal(k)
}

pub open spec fn slug_taken(spaces: Seq<SpaceView>, slug: Seq<char>) -> bool {
    exists|i: int| 0 <= i < spaces.len() && spaces[i].slug == slug
}

/// `k` is the first suffix from 2 on whose slug is free.
pub open spec fn is_first_free(base: Seq<char>, spaces: Seq<SpaceView>, k: nat) -> bool {
    &&& k >= 2
    &&& !slug_taken(spaces, suffixed(base, k))
    &&& forall|j: nat| 2 <= j < k ==> slug_taken(spaces, #[trigger] suffixed(base, j))
}

/// The slug for a new space: `base` when free, else `base_k` for the first
/// `k` from 2 on that is free.
pub open spec fn available_slug(base: Seq<char>, spaces: Seq<SpaceView>) -> Seq<char> {
    if !slug_taken(spaces, base) {
        base
    } else {
        suffixed(base, choose|k: nat| is_first_free(base, spaces, k))
    }
}

proof fn lemma_suffixed_injective(base: Seq<char>, a: nat, b: nat)
    requires
        suffixed(base, a) == suffixed(base, b),
    ensures
        a == b,
{
    let n = base.len() + 1;
    assert(suffixed(base, a).subrange(n as int, suffixed(base, a).len() as int) =~= decimal(a));
    assert(suffixed(base, b).subrange(n as int, suffixed(base, b).len() as int) =~= decimal(b));
    lemma_decimal_injective(a, b);
}

/// Among more candidates than spaces, one slug is free.
proof fn lemma_some_suffix_free(base: Seq<char>, spaces: Seq<SpaceView>)
    ensures
        exists|k: nat| 2 <= k <= spaces.len() + 2 && !slug_taken(spaces, #[trigger] suffixed(base, k)),
{
    if forall|k: nat| 2 <= k <= spaces.len() + 2 ==> slug_taken(spaces, #[trigger] suffixed(base, k)) {
        let n = spaces.len();
        let cands = Seq::new((n + 1) as nat, |i: int| suffixed(base, (i + 2) as nat));
        let slugs = spaces.map_values(|s: SpaceView| s.slug);
        assert(cands.no_duplicates()) by {
            assert forall|i: int, j: int| 0 <= i < cands.len() && 0 <= j < cands.len() && i != j implies cands[i] != cands[j] by {
                if cands[i] == cands[j] {
                    lemma_suffixed_injective(base, (i + 2) as nat, (j + 2) as nat);
                }
            }
        }
        assert(cands.to_set().subset_of(slugs.to_set())) by {
            assert forall|x: Seq<char>| cands.to_set().contains(x) implies slugs.to_set().contains(x) by {
                let i = choose|i: int| 0 <= i < cands.len() && cands[i] == x;
                let k = (i + 2) as nat;
                assert(slug_taken(spaces, suffixed(base, k)));
                let j = choose|j: int| 0 <= j < spaces.len() && spaces[j].slug == suffixed(base, k);
                assert(slugs[j] == x);
            }
        }
        cands.unique_seq_to_set();
        slugs.lemma_cardinality_of_set();
        vstd::set_lib::lemma_len_subset(cands.to_set(), slugs.to_set());
        assert(false);
    }
}

fn slug_in_use(spaces: &Vec<Space>, slug: &String) -> (r: bool)
    ensures
        r == slug_taken(views(spaces@), slug@),
{
    let n = spaces.len();
    let mut i: usize = 0;
    while i < n
        invariant
            n == spaces@.len(),
            i <= n,
            forall|j: int| 0 <= j < i ==> spaces@[j]@.slug != slug@,
        decreases n - i,
    {
        if str_eq(spaces[i].slug.as_str(), slug.as_str()) {
            assert(views(spaces@)[i as int].slug == slug@);
            return true;
        }
        i = i + 1;
    }
    proof {
        if slug_taken(views(spaces@), slug@) {
            let j = choose|j: int| 0 <= j < views(spaces@).len() && views(spaces@)[j].slug == slug@;
            assert(spaces@[j]@.slug == slug@);
        }
    }
    false
}

proof fn lemma_first_free_exists(base: Seq<char>, spaces: Seq<SpaceView>, k: nat)
    requires
        k >= 2,
        !slug_taken(spaces, suffixed(base, k)),
    ensures
        exists|c: nat| is_first_free(base, spaces, c),
    decreases k,
{
    if forall|j: nat| 2 <= j < k ==> slug_taken(spaces, #[trigger] suffixed(base, j)) {
        assert(is_first_free(base, spaces, k));
    } else {
        let j = choose|j: nat| 2 <= j < k && !slug_taken(spaces, #[trigger] suffixed(base, j));
        lemma_first_free_exists(base, spaces, j);
    }
}

/// Law: the slug chosen for a new space is used by no existing space.
pub proof fn law_available_slug_is_free(base: Seq<char>, spaces: Seq<SpaceView>)
    ensures
        !slug_taken(spaces, available_slug(base, spaces)),
{
    if slug_taken(spaces, base) {
        lemma_some_suffix_free(base, spaces);
        let k = choose|k: nat| 2 <= k <= spaces.len() + 2 && !slug_taken(spaces, #[trigger] suffixed(base, k));
        lemma_first_free_exists(base, spaces, k);
        let c = choose|c: nat| is_first_free(base, spaces, c);
        assert(is_first_free(base, spaces, c));
    }
}

/// The first free slug among `base`, `base_2`, `base_3`, ...
pub fn next_available_slug(base: &str, spaces: &Vec<Space>) -> (r: String)
    ensures
        r@ == available_slug(base@, views(spaces@)),
        !slug_taken(views(spaces@), r@),
{
    let ghost sv = views(spaces@);
    let plain = String::from_str(base);
    if !slug_in_use(spaces, &plain) {
        return plain;
    }
    proof {
        lemma_some_suffix_free(base@, sv);
    }
    let n = spaces.len();
    let mut k: u128 = 2;
    while k <= n as u128 + 2
        invariant
            sv == views(spaces@),
            n == spaces@.len(),
            2 <= k,
            slug_taken(sv, base@),
            forall|j: nat| 2 <= j < k ==> slug_taken(sv, #[trigger] suffixed(base@, j)),
            exists|j: nat| 2 <= j <= n + 2 && !slug_taken(sv, #[trigger] suffixed(base@, j)),
        decreases n as u128 + 3 - k,
    {
        let mut candidate = String::from_str(base);
        string_push(&mut candidate, '_');
        push_decimal(&mut candidate, k);
        assert(candidate@ =~= suffixed(base@, k as nat));
        if !slug_in_use(spaces, &candidate) {
            proof {
                assert(is_first_free(base@, sv, k as nat));
                let c = choose|c: nat| is_first_free(base@, sv, c);
                if c < k {
                    assert(slug_taken(sv, suffixed(base@, c)));
                } else if k < c {
                    assert(slug_taken(sv, suffixed(base@, k as nat)));
                }
            }
            return candidate;
        }
        k = k + 1;
    }
    proof {
        let j = choose|j: nat| 2 <= j <= n + 2 && !slug_taken(sv, #[trigger] suffixed(base@, j));
        assert(slug_taken(sv, suffixed(base@, j)));
    }
    plain
}

/// The largest position among the spaces, or -1 when there are none.
pub open spec fn max_space_order(s: Seq<SpaceView>) -> int
    decreases s.len(),
{
    if s.len() == 0 {
        -1
    } else {
        let m = max_space_order(s.drop_last());
        if s.last().sort_order > m {
            s.last().sort_order as int
        } else {
            m
        }
    }
}

/// No space position is the largest `i64`.
pub open spec fn space_orders_bounded(s: Seq<SpaceView>) -> bool {
    forall|i: int| 0 <= i < s.len() ==> #[trigger] s[i].sort_order < i64::MAX
}

proof fn lemma_max_space_order_bounded(s: Seq<SpaceView>)
    requires
        space_orders_bounded(s),
    ensures
        -1 <= max_space_order(s) < i64::MAX,
    decreases s.len(),
{
    if s.len() > 0 {
        assert(space_orders_bounded(s.drop_last())) by {
            assert forall|i: int| 0 <= i < s.drop_last().len() implies #[trigger] s.drop_last()[i].sort_order < i64::MAX by {
                assert(s.drop_last()[i] == s[i]);
            }
        }
        lemma_max_space_order_bounded(s.drop_last());
        assert(s.last() == s[s.len() - 1]);
    }
}

/// What becomes current when the space leaves the active list: the next
/// active space if it was current, else the current space unchanged.
pub open spec fn current_after_leaving(repo: RepoView, sid: Seq<char>) -> Option<Seq<char>> {
    if repo.state.current_space_id == Some(sid) {
        next_active(Some(sid), repo.spaces, Some(sid))
    } else {
        repo.state.current_space_id
    }
}

/// The result of an operation on a named space when the name resolves to
/// `s` and the space passes the checks: refused while another operation is
/// pending, else run as `entries`.
pub open spec fn space_operation_done(old_repo: RepoView, new_repo: RepoView, kind: PendingOperationKind, entries: Seq<PendingOperationEntryView>) -> bool {
    exists|op: PendingOperationView| op.kind == kind && op.entries == entries && new_repo == #[trigger] executed(old_repo, op)
}

// ---------------------------------------------------------------------------
// What each use case does

/// What `use_space` returns and leaves behind.
pub open spec fn use_space_outcome(before: RepoView, command: SetCurrentSpaceCommand, r: Result<Space, AppError>, after: RepoView) -> bool {
    &&& space_lookup(before.spaces, command.space_ref@, true, r)
    &&& match r {
        Ok(s) => after == state_write(before, with_current(before.state, Some(s@.id))),
        Err(_) => after == before,
    }
}

/// What `rename_space` returns and leaves behind.
pub open spec fn rename_space_outcome(before: RepoView, command: RenameSpaceCommand, r: Result<Space, AppError>, after: RepoView) -> bool {
    &&& is_blank(command.new_name@) ==> (r matches Err(AppError::Validation(ValidationError::EmptySpaceName))
        && after == before)
    &&& !is_blank(command.new_name@) ==> match space_resolution(before.spaces, command.space_ref@) {
        None => space_lookup(before.spaces, command.space_ref@, false, r) && after == before,
        Some(s) => r matches Ok(x)
            && x@ == (SpaceView { name: command.new_name@, updated_at: x@.updated_at, ..s })
            && after == saved_space(before, x@),
    }
}

/// What `show_space` returns.
pub open spec fn show_space_outcome(repo: RepoView, query: ShowSpaceQuery, r: Result<SpaceDetails, AppError>) -> bool {
    &&& match space_resolution(repo.spaces, query.space_ref@) {
        None => r matches Err(e) && space_lookup(repo.spaces, query.space_ref@, false, Err(e)),
        Some(s) => r matches Ok(d) && d.space@ == s && d.counts == counts_of(space_tasks(repo, s.id))
            && d.is_current == (repo.state.current_space_id == Some(s.id)),
    }
}

/// What `list_spaces` returns.
pub open spec fn list_spaces_outcome(repo: RepoView, query: ListSpacesQuery, r: Result<Vec<SpaceSummary>, AppError>) -> bool {
    &&& r matches Ok(v) && views(v@) == space_summaries(repo, query.include_archived)
}

/// What `create_space` returns and leaves behind.
pub open spec fn create_space_outcome(before: RepoView, command: CreateSpaceCommand, r: Result<Space, AppError>, after: RepoView) -> bool {
    &&& is_blank(command.name@) ==> (r matches Err(AppError::Validation(ValidationError::EmptySpaceName))
        && after == before)
    &&& !is_blank(command.name@) ==> (r matches Ok(s) && {
        &&& is_long_id(s@.id, space_prefix())
        &&& s@.name == command.name@
        &&& s@.slug == available_slug(slugify_spec(command.name@), before.spaces)
        &&& s@.state == SpaceState::Active
        &&& s@.sort_order == max_space_order(before.spaces) + 1
        &&& s@.counts == (SpaceCounts { todo_tasks: 0, archived_tasks: 0 })
        &&& s@.created_at == s@.updated_at
        &&& after == saved_space(before, s@)
    })
}

/// What `archive_space` returns and leaves behind.
pub open spec fn archive_space_outcome(before: RepoView, command: ArchiveSpaceCommand, r: Result<OperationOutcome, AppError>, after: RepoView) -> bool {
    &&& match space_resolution(before.spaces, command.space_ref@) {
        None => r matches Err(e) && space_lookup(before.spaces, command.space_ref@, true, Err(e))
            && after == before,
        Some(s) => if s.state != SpaceState::Active {
            r matches Err(e) && space_lookup(before.spaces, command.space_ref@, true, Err(e))
                && after == before
        } else {
            match before.state.pending_operation {
                Some(p) => (r matches Err(AppError::PendingOperationInProgress { operation_id, kind }) && operation_id@ == p.operation_id
                    && kind == p.kind) && after == before,
                None => r matches Ok(out) && out.root_task is None && out.affected_count == 1
                    && (out.root_space matches Some(a) && a@ == (SpaceView { state: SpaceState::Archived, updated_at: a@.updated_at, ..s })
                    && space_operation_done(before, after, PendingOperationKind::SpaceArchive, seq![
                        PendingOperationEntryView::SpaceUpsert(a@),
                        PendingOperationEntryView::StateUpdate(StateMutationView {
                            current_space_id: current_after_leaving(before, s.id),
                            cleared_space_memory_ids: Seq::empty(),
                        }),
                    ])),
            }
        },
    }
}

/// What `restore_space` returns and leaves behind.
pub open spec fn restore_space_outcome(before: RepoView, command: RestoreSpaceCommand, r: Result<OperationOutcome, AppError>, after: RepoView) -> bool {
    &&& match space_resolution(before.spaces, command.space_ref@) {
        None => r matches Err(e) && space_lookup(before.spaces, command.space_ref@, false, Err(e))
            && after == before,
        Some(s) => if s.state != SpaceState::Archived {
            (r matches Err(AppError::SpaceMustBeArchived { space_id, action }) && space_id@ == s.id && action@ == "restore"@)
                && after == before
        } else {
            match before.state.pending_operation {
                Some(p) => (r matches Err(AppError::PendingOperationInProgress { operation_id, kind }) && operation_id@ == p.operation_id
                    && kind == p.kind) && after == before,
                None => r matches Ok(out) && out.root_task is None && out.affected_count == 1
                    && (out.root_space matches Some(a) && a@ == (SpaceView { state: SpaceState::Active, updated_at: a@.updated_at, ..s })
                    && space_operation_done(before, after, PendingOperationKind::SpaceRestore, seq![
                        PendingOperationEntryView::SpaceUpsert(a@),
                    ])),
            }
        },
    }
}

/// What `purge_space` returns and leaves behind.
pub open spec fn purge_space_outcome(before: RepoView, command: PurgeSpaceCommand, r: Result<OperationOutcome, AppError>, after: RepoView) -> bool {
    &&& match space_resolution(before.spaces, command.space_ref@) {
        None => r matches Err(e) && space_lookup(before.spaces, command.space_ref@, false, Err(e))
            && after == before,
        Some(s) => if s.state != SpaceState::Archived {
            (r matches Err(AppError::SpaceMustBeArchived { space_id, action }) && space_id@ == s.id && action@ == "purge"@)
                && after == before
        } else {
            match before.state.pending_operation {
                Some(p) => (r matches Err(AppError::PendingOperationInProgress { operation_id, kind }) && operation_id@ == p.operation_id
                    && kind == p.kind) && after == before,
                None => r matches Ok(out) && out.root_task is None && out.affected_count == 1
                    && (out.root_space matches Some(a) && a@ == s
                    && space_operation_done(before, after, PendingOperationKind::SpacePurge, seq![
                        PendingOperationEntryView::SpaceDelete { space_id: s.id },
                        PendingOperationEntryView::StateUpdate(StateMutationView {
                            current_space_id: current_after_leaving(before, s.id),
                            cleared_space_memory_ids: seq![s.id],
                        }),
                    ])),
            }
        },
    }
}

pub struct SpaceService {}

impl SpaceService {
    pub fn new() -> (r: Self) {
        SpaceService {}
    }

    pub fn load_app_config(&self, repo: &Repository) -> (r: Result<AppConfig, AppError>)
        ensures
            r matches Ok(c) && c == repo@.config,
    {
        Ok(repo.load_config())
    }

    pub fn load_app_state(&self, repo: &Repository) -> (r: Result<AppState, AppError>)
        ensures
            r matches Ok(s) && s@ == repo@.state,
    {
        Ok(repo.load_state())
    }

    /// Every stored space, in storage order.
    pub fn list_all_spaces(&self, repo: &Repository) -> (r: Result<Vec<Space>, AppError>)
        ensures
            r matches Ok(v) && views(v@) == repo@.spaces,
    {
        Ok(repo.list_spaces())
    }

    pub fn load_space(&self, repo: &Repository, space_id: &SpaceId) -> (r: Result<Space, AppError>)
        requires
            repo.wf(),
        ensures
            space_index(repo@.spaces, space_id@) >= 0 <==> r is Ok,
            r matches Ok(s) ==> s@ == repo@.spaces[space_index(repo@.spaces, space_id@)],
            r matches Err(e) ==> e matches AppError::Storage(StorageError::SpaceNotFound(m)) && m@ == space_id@,
    {
        match repo.load_space(space_id) {
            Ok(s) => Ok(s),
            Err(e) => Err(AppError::Storage(e)),
        }
    }

    pub fn save_space(&self, repo: &mut Repository, space: &Space) -> (r: Result<(), AppError>)
        requires
            old(repo).wf(),
        ensures
            r is Ok,
            final(repo).wf(),
            final(repo)@ == (RepoView {
                spaces: crate::repository::upsert_space(old(repo)@.spaces, space@),
                writes: old(repo)@.writes.push(StorageWriteView::Space(space@)),
                ..old(repo)@
            }),
    {
        repo.save_space(space);
        Ok(())
    }

    /// The space a reference names: a full id, a short id or a slug.
    pub fn resolve_space(&self, repo: &Repository, reference: &str, require_active: bool) -> (r: Result<Space, AppError>)
        requires
            repo.wf(),
            ids_split(repo@),
        ensures
            space_lookup(repo@.spaces, reference@, require_active, r),
    {
        let spaces = repo.list_spaces();
        proof {
            lemma_space_ids_comparable(repo@, reference@);
            lemma_found_space_exists(repo@.spaces, reference@);
        }
        match resolve_space_ref(reference, &spaces) {
            Err(e) => Err(AppError::Reference(e)),
            Ok(id) => {
                match repo.load_space(&id) {
                    Ok(space) => {
                        if require_active && !space.state.is_active() {
                            Err(AppError::ArchivedSpace(space.id.0.clone()))
                        } else {
                            Ok(space)
                        }
                    },
                    Err(_) => Err(AppError::Reference(ReferenceError::SpaceNotFound(String::from_str(reference)))),
                }
            },
        }
    }

    /// The space a reference names or, without one, the current space.
    pub fn resolve_effective_space(&self, repo: &Repository, reference: Option<&str>, require_active: bool) -> (r: Result<Space, AppError>)
        requires
            repo.wf(),
            ids_split(repo@),
        ensures
            effective_lookup(repo@, match reference { Some(x) => Some(x@), None => None }, require_active, r),
    {
        match reference {
            Some(rf) => self.resolve_space(repo, rf, require_active),
            None => {
                let state = repo.load_state();
                match &state.current_space_id {
                    None => Err(AppError::MissingCurrentSpace),
                    Some(cid) => {
                        match repo.load_space(cid) {
                            Err(e) => Err(AppError::Storage(e)),
                            Ok(space) => {
                                if require_active && !space.state.is_active() {
                                    Err(AppError::ArchivedSpace(space.id.0.clone()))
                                } else {
                                    Ok(space)
                                }
                            },
                        }
                    },
                }
            },
        }
    }

    /// The id of the space a reference names.
    pub fn resolve_space_ref(&self, repo: &Repository, reference: &str) -> (r: Result<SpaceId, AppError>)
        requires
            ids_split(repo@),
        ensures
            match r {
                Ok(id) => resolve_space_ref_spec(reference@, repo@.spaces) == RefOutcome::Found(id@),
                Err(AppError::Reference(e)) => space_ref_outcome(Err(e)) == resolve_space_ref_spec(reference@, repo@.spaces)
                    && e.carries_input(reference@),
                Err(_) => false,
            },
    {
        let spaces = repo.list_spaces();
        proof {
            lemma_space_ids_comparable(repo@, reference@);
        }
        match resolve_space_ref(reference, &spaces) {
            Ok(id) => Ok(id),
            Err(e) => Err(AppError::Reference(e)),
        }
    }

    /// Replaces the current space and saves the state.
    pub fn set_current_space(&self, repo: &mut Repository, current_space_id: Option<SpaceId>) -> (r: Result<AppState, AppError>)
        requires
            old(repo).wf(),
        ensures
            final(repo).wf(),
            r matches Ok(s) && s@ == (AppStateView { current_space_id: opt_view(current_space_id), ..old(repo)@.state }),
            final(repo)@ == (RepoView {
                state: AppStateView { current_space_id: opt_view(current_space_id), ..old(repo)@.state },
                writes: old(repo)@.writes.push(StorageWriteView::State(AppStateView { current_space_id: opt_view(current_space_id), ..old(repo)@.state })),
                ..old(repo)@
            }),
    {
        let mut state = repo.load_state();
        state.current_space_id = current_space_id;
        repo.save_state(&state);
        Ok(state)
    }

    /// Makes the named active space current.
    pub fn use_space(&self, repo: &mut Repository, command: SetCurrentSpaceCommand) -> (r: Result<Space, AppError>)
        requires
            old(repo).wf(),
            ids_split(old(repo)@),
        ensures
            final(repo).wf(),
            use_space_outcome(old(repo)@, command, r, final(repo)@),
    {
        let space = match self.resolve_space(repo, command.space_ref.as_str(), true) {
            Ok(s) => s,
            Err(e) => {
                return Err(e);
            },
        };
        let mut state = repo.load_state();
        state.current_space_id = Some(space.id.clone());
        repo.save_state(&state);
        assert(state@ == with_current(old(repo)@.state, Some(space@.id)));
        Ok(space)
    }

    /// Renames the named space; its id and slug stay.
    pub fn rename_space(&self, repo: &mut Repository, command: RenameSpaceCommand) -> (r: Result<Space, AppError>)
        requires
            old(repo).wf(),
            ids_split(old(repo)@),
        ensures
            final(repo).wf(),
            rename_space_outcome(old(repo)@, command, r, final(repo)@),
    {
        match ensure_non_empty_space_name(command.new_name.as_str()) {
            Err(e) => {
                return Err(AppError::Validation(e));
            },
            Ok(()) => {},
        }
        let mut space = match self.resolve_space(repo, command.space_ref.as_str(), false) {
            Ok(s) => s,
            Err(e) => {
                return Err(e);
            },
        };
        space.rename(command.new_name, now_utc());
        repo.save_space(&space);
        Ok(space)
    }

    /// The named space with its task counts and whether it is current.
    pub fn show_space(&self, repo: &Repository, query: ShowSpaceQuery) -> (r: Result<SpaceDetails, AppError>)
        requires
            repo.wf(),
            ids_split(repo@),
        ensures
            show_space_outcome(repo@, query, r),
    {
        let space = match self.resolve_space(repo, query.space_ref.as_str(), false) {
            Ok(s) => s,
            Err(e) => {
                return Err(e);
            },
        };
        let tasks = repo.list_tasks_in_space(&space.id);
        let state = repo.load_state();
        let counts = derive_space_counts(tasks.as_slice());
        let is_current = match &state.current_space_id {
            Some(c) => c.0 == space.id.0,
            None => false,
        };
        Ok(SpaceDetails { counts, is_current, space })
    }

    /// The spaces in order with their task counts; archived spaces only
    /// when asked for.
    pub fn list_spaces(&self, repo: &Repository, query: ListSpacesQuery) -> (r: Result<Vec<SpaceSummary>, AppError>)
        ensures
            list_spaces_outcome(repo@, query, r),
    {
        let spaces = sort_spaces(repo.list_spaces());
        let ghost sv = views(spaces@);
        let ghost pred = listed(query.include_archived);
        let state = repo.load_state();
        let mut summaries: Vec<SpaceSummary> = Vec::new();
        let n = spaces.len();
        let mut i: usize = 0;
        proof {
            reveal_with_fuel(Seq::<_>::filter, 1);
            assert(sv.take(0) =~= Seq::<SpaceView>::empty());
        }
        assert(views(summaries@) =~= sv.take(0).filter(pred).map_values(|s: SpaceView| summary_of(repo@, s)));
        while i < n
            invariant
                n == spaces@.len(),
                sv == views(spaces@),
                sv == sort_spaces_spec(repo@.spaces),
                pred == listed(query.include_archived),
                state@ == repo@.state,
                i <= n,
                views(summaries@) == sv.take(i as int).filter(pred).map_values(|s: SpaceView| summary_of(repo@, s)),
            decreases n - i,
        {
            proof {
                reveal_with_fuel(Seq::<_>::filter, 1);
                assert(sv.take(i + 1).drop_last() =~= sv.take(i as int));
                assert(sv.take(i + 1).last() == sv[i as int]);
            }
            let space = &spaces[i];
            if query.include_archived || space.state.is_active() {
                let tasks = repo.list_tasks_in_space(&space.id);
                let counts = derive_space_counts(tasks.as_slice());
                let is_current = match &state.current_space_id {
                    Some(c) => c.0 == space.id.0,
                    None => false,
                };
                let ghost before = views(summaries@);
                summaries.push(SpaceSummary { counts, is_current, space: space.clone() });
                proof {
                    let f = sv.take(i as int).filter(pred);
                    assert(sv.take(i + 1).filter(pred) =~= f.push(sv[i as int]));
                    assert(f.push(sv[i as int]).map_values(|s: SpaceView| summary_of(repo@, s))
                        =~= f.map_values(|s: SpaceView| summary_of(repo@, s)).push(summary_of(repo@, sv[i as int])));
                    assert(views(summaries@) =~= before.push(summary_of(repo@, sv[i as int])));
                }
            } else {
                assert(sv.take(i + 1).filter(pred) =~= sv.take(i as int).filter(pred));
            }
            i = i + 1;
        }
        assert(sv.take(n as int) =~= sv);
        Ok(summaries)
    }


    /// Creates an active space named `name`, placed after the others, with
    /// the first free slug derived from the name.
    pub fn create_space(&self, repo: &mut Repository, command: CreateSpaceCommand) -> (r: Result<Space, AppError>)
        requires
            old(repo).wf(),
            space_orders_bounded(old(repo)@.spaces),
        ensures
            final(repo).wf(),
            create_space_outcome(old(repo)@, command, r, final(repo)@),
    {
        match ensure_non_empty_space_name(command.name.as_str()) {
            Err(e) => {
                return Err(AppError::Validation(e));
            },
            Ok(()) => {},
        }
        let spaces = repo.list_spaces();
        let ghost sv = views(spaces@);
        let n = spaces.len();
        let mut best: i64 = -1;
        let mut i: usize = 0;
        assert(sv.take(0) =~= Seq::<SpaceView>::empty());
        while i < n
            invariant
                n == spaces@.len(),
                sv == views(spaces@),
                sv == old(repo)@.spaces,
                space_orders_bounded(sv),
                i <= n,
                best == max_space_order(sv.take(i as int)),
            decreases n - i,
        {
            assert(sv.take(i + 1).drop_last() =~= sv.take(i as int));
            assert(sv.take(i + 1).last() == sv[i as int]);
            if spaces[i].sort_order > best {
                best = spaces[i].sort_order;
            }
            i = i + 1;
        }
        assert(sv.take(n as int) =~= sv);
        proof {
            lemma_max_space_order_bounded(sv);
        }
        let mut space = Space::new(command.name.as_str(), best + 1);
        let base = slugify(command.name.as_str());
        space.slug = next_available_slug(base.as_str(), &spaces);
        repo.save_space(&space);
        Ok(space)
    }

    /// Archives the named active space. When it was current, the next
    /// active space becomes current.
    pub fn archive_space(&self, repo: &mut Repository, command: ArchiveSpaceCommand) -> (r: Result<OperationOutcome, AppError>)
        requires
            old(repo).wf(),
            ids_split(old(repo)@),
        ensures
            final(repo).wf(),
            archive_space_outcome(old(repo)@, command, r, final(repo)@),
    {
        let space = match self.resolve_space(repo, command.space_ref.as_str(), true) {
            Ok(s) => s,
            Err(e) => {
                return Err(e);
            },
        };
        let state = repo.load_state();
        let spaces = repo.list_spaces();
        let mut archived = space.clone();
        archived.state = SpaceState::Archived;
        archived.updated_at = now_utc();
        let next_current = match &state.current_space_id {
            Some(c) => {
                if c.0 == space.id.0 {
                    next_active_space_id(Some(&space.id), spaces.as_slice(), Some(&space.id))
                } else {
                    Some(c.clone())
                }
            },
            None => None,
        };
        assert(opt_view(next_current) == current_after_leaving(old(repo)@, space@.id));
        let cleared: Vec<SpaceId> = Vec::new();
        let mutation = StateMutation { current_space_id: next_current, cleared_space_memory_ids: cleared };
        let mut entries: Vec<PendingOperationEntry> = Vec::new();
        entries.push(PendingOperationEntry::SpaceUpsert(archived.clone()));
        entries.push(PendingOperationEntry::StateUpdate(mutation));
        assert(views(cleared@) =~= Seq::<Seq<char>>::empty());
        assert(views(entries@) =~= seq![
            PendingOperationEntryView::SpaceUpsert(archived@),
            PendingOperationEntryView::StateUpdate(StateMutationView {
                current_space_id: current_after_leaving(old(repo)@, space@.id),
                cleared_space_memory_ids: Seq::empty(),
            }),
        ]);
        let maintenance = MaintenanceService::new();
        match maintenance.execute_operation(repo, PendingOperationKind::SpaceArchive, entries) {
            Err(e) => {
                return Err(e);
            },
            Ok(()) => {},
        }
        Ok(OperationOutcome { root_task: None, root_space: Some(archived), affected_count: 1 })
    }

    /// Makes the named archived space active again.
    pub fn restore_space(&self, repo: &mut Repository, command: RestoreSpaceCommand) -> (r: Result<OperationOutcome, AppError>)
        requires
            old(repo).wf(),
            ids_split(old(repo)@),
        ensures
            final(repo).wf(),
            restore_space_outcome(old(repo)@, command, r, final(repo)@),
    {
        let space = match self.resolve_space(repo, command.space_ref.as_str(), false) {
            Ok(s) => s,
            Err(e) => {
                return Err(e);
            },
        };
        if !space.state.is_archived() {
            proof {
                reveal_strlit("restore");
            }
            return Err(AppError::SpaceMustBeArchived { space_id: space.id.clone(), action: "restore" });
        }
        let mut restored = space.clone();
        restored.state = SpaceState::Active;
        restored.updated_at = now_utc();
        let mut entries: Vec<PendingOperationEntry> = Vec::new();
        entries.push(PendingOperationEntry::SpaceUpsert(restored.clone()));
        assert(views(entries@) =~= seq![PendingOperationEntryView::SpaceUpsert(restored@)]);
        let maintenance = MaintenanceService::new();
        match maintenance.execute_operation(repo, PendingOperationKind::SpaceRestore, entries) {
            Err(e) => {
                return Err(e);
            },
            Ok(()) => {},
        }
        Ok(OperationOutcome { root_task: None, root_space: Some(restored), affected_count: 1 })
    }

    /// Deletes the named archived space with all its tasks. When it was
    /// current, the next active space becomes current; its view memory goes.
    pub fn purge_space(&self, repo: &mut Repository, command: PurgeSpaceCommand) -> (r: Result<OperationOutcome, AppError>)
        requires
            old(repo).wf(),
            ids_split(old(repo)@),
        ensures
            final(repo).wf(),
            purge_space_outcome(old(repo)@, command, r, final(repo)@),
    {
        let space = match self.resolve_space(repo, command.space_ref.as_str(), false) {
            Ok(s) => s,
            Err(e) => {
                return Err(e);
            },
        };
        if !space.state.is_archived() {
            proof {
                reveal_strlit("purge");
            }
            return Err(AppError::SpaceMustBeArchived { space_id: space.id.clone(), action: "purge" });
        }
        let state = repo.load_state();
        let spaces = repo.list_spaces();
        let next_current = match &state.current_space_id {
            Some(c) => {
                if c.0 == space.id.0 {
                    next_active_space_id(Some(&space.id), spaces.as_slice(), Some(&space.id))
                } else {
                    Some(c.clone())
                }
            },
            None => None,
        };
        let mut cleared: Vec<SpaceId> = Vec::new();
        cleared.push(space.id.clone());
        assert(views(cleared@) =~= seq![space@.id]);
        let mutation = StateMutation { current_space_id: next_current, cleared_space_memory_ids: cleared };
        let mut entries: Vec<PendingOperationEntry> = Vec::new();
        entries.push(PendingOperationEntry::SpaceDelete { space_id: space.id.clone() });
        entries.push(PendingOperationEntry::StateUpdate(mutation));
        assert(opt_view(next_current) == current_after_leaving(old(repo)@, space@.id));
        assert(views(entries@) =~= seq![
            PendingOperationEntryView::SpaceDelete { space_id: space@.id },
            PendingOperationEntryView::StateUpdate(StateMutationView {
                current_space_id: current_after_leaving(old(repo)@, space@.id),
                cleared_space_memory_ids: seq![space@.id],
            }),
        ]);
        let maintenance = MaintenanceService::new();
        match maintenance.execute_operation(repo, PendingOperationKind::SpacePurge, entries) {
            Err(e) => {
                return Err(e);
            },
            Ok(()) => {},
        }
        Ok(OperationOutcome { root_task: None, root_space: Some(space), affected_count: 1 })
    }

}

} // verus!
