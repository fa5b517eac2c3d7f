//! Running one command of the command line: the use case it names, the
//! report it prints, and whether the terminal interface opens afterwards.

use vstd::prelude::*;
use crate::cli::{command_of, TodoCli};
use crate::commands::{
    AddTaskLogCommand, ArchiveSpaceCommand, ArchiveTaskCommand, CreateSpaceCommand, CreateTaskCommand,
    EditTaskCommand, PurgeSpaceCommand, PurgeTaskCommand, RenameSpaceCommand, RestoreSpaceCommand,
    RestoreTaskCommand, SetCurrentSpaceCommand, UpdateTaskStatusCommand,
};
use crate::error::{AppError, AppErrorView, StorageErrorView};
use crate::hierarchy::{find_task, orders_bounded};
use crate::ids::{lemma_long_id_suffix, short_id_defined, space_prefix, task_prefix, SpaceId};
use crate::maintenance::{doctor_issues, MaintenanceService};
use crate::model::{SortMode, Space, SpaceView, Task, TaskStatus, TaskView, ViewMode};
use crate::output::{
    doctor_report_text, format_archived_space, format_archived_task, format_created_space, format_created_task,
    format_logged_task, format_purged_space, format_purged_task, format_renamed_space, format_restored_space,
    format_restored_task, format_task_status, format_updated_task, format_used_space, render_doctor_report,
    render_space, render_spaces, render_task, render_task_list, space_details_text, space_tag, spaces_text,
    status_name, task_details_text, task_list_text, task_tag,
};
use crate::queries::{ListSpacesQuery, ListTasksQuery, OperationOutcome, ShowSpaceQuery, ShowTaskQuery};
use crate::repository::{
    all_records, all_tasks, ids_printable, ids_split, lemma_all_records_from_records, record_tasks, records_in_space,
    space_index, RecordView, RepoView, Repository,
};
use crate::space_query::{lemma_sort_spaces_members, sort_spaces_spec};
use crate::space_service::{
    archive_space_outcome, create_space_outcome, effective_space, lemma_found_space_exists, listed,
    purge_space_outcome, rename_space_outcome, restore_space_outcome, show_space_outcome, space_found,
    space_orders_bounded, space_resolution, space_summaries, space_tasks, summary_of, use_space_outcome,
    SpaceService,
};
use crate::refs::{resolve_space_ref_spec, resolve_task_ref_spec, RefOutcome};
use crate::task_query::{flat, group, keyed, law_sort_tasks_sorted_permutation, piece, sort_tasks_spec, task_list_entries, visible_tasks};
use crate::task_service::{
    add_task_log_outcome, archive_task_outcome, children_of, create_task_outcome, edit_task_outcome,
    lemma_found_task_exists, list_tasks_outcome, purge_task_outcome, restore_task_outcome,
    set_task_status_outcome, show_task_outcome, task_found, task_ids, TaskService,
};
use crate::text::decimal;
use crate::util::{opt_view, views};

verus! {

/// A command of the command line, with its arguments.
#[derive(Debug)]
pub enum CliCommand {
    /// Check the stored data.
    Doctor,
    /// Open the terminal interface.
    Tui { space: Option<String>, view: Option<ViewMode>, sort: Option<SortMode> },
    SpaceAdd { name: String, tui: bool },
    SpaceList { include_archived: bool },
    SpaceShow { space_ref: String },
    SpaceUse { space_ref: String, tui: bool },
    SpaceRename { space_ref: String, new_name: String, tui: bool },
    SpaceArchive { space_ref: String, tui: bool },
    SpaceRestore { space_ref: String, tui: bool },
    SpacePurge { space_ref: String, force: bool },
    TaskAdd {
        title: String,
        space: Option<String>,
        description: Option<String>,
        parent: Option<String>,
        status: Option<TaskStatus>,
        tui: bool,
    },
    TaskList { space: Option<String>, view: Option<ViewMode>, sort: Option<SortMode> },
    TaskShow { task_ref: String },
    TaskEdit {
        task_ref: String,
        title: Option<String>,
        description: Option<String>,
        clear_desc: bool,
        status: Option<TaskStatus>,
        parent: Option<String>,
        clear_parent: bool,
        space: Option<String>,
        tui: bool,
    },
    TaskStatusSet { task_ref: String, status: TaskStatus, tui: bool },
    TaskDone { task_ref: String, tui: bool },
    TaskArchive { task_ref: String, tui: bool },
    TaskRestore { task_ref: String, status: Option<TaskStatus>, tui: bool },
    TaskLogAdd { task_ref: String, text: String, tui: bool },
    TaskPurge { task_ref: String, recursive: bool, force: bool },
}

/// Where the terminal interface opens: a space, a view and a sort, each
/// left to the interface's memory when absent.
#[derive(Debug)]
pub struct LaunchOptions {
    pub space_id: Option<SpaceId>,
    pub view: Option<ViewMode>,
    pub sort: Option<SortMode>,
}

/// What a command prints, and the terminal interface it opens afterwards.
#[derive(Debug)]
pub struct CommandOutput {
    pub text: Option<String>,
    pub launch: Option<LaunchOptions>,
}

// ---------------------------------------------------------------------------
// What a command prints

/// The output prints `text` and, when asked to, opens the interface on the
/// space `sid` with the remembered view and sort.
pub open spec fn prints(r: Result<CommandOutput, AppError>, text: Seq<char>, tui: bool, sid: Seq<char>) -> bool {
    r matches Ok(o) && (o.text matches Some(t) && t@ == text) && if tui {
        o.launch matches Some(l) && l.view is None && l.sort is None && (l.space_id matches Some(i) && i@ == sid)
    } else {
        o.launch is None
    }
}

/// The output prints `text` and opens nothing.
pub open spec fn prints_only(r: Result<CommandOutput, AppError>, text: Seq<char>) -> bool {
    r matches Ok(o) && (o.text matches Some(t) && t@ == text) && o.launch is None
}

/// The command fails with the error of its use case.
pub open spec fn fails_with(r: Result<CommandOutput, AppError>, e: AppError) -> bool {
    r matches Err(x) && x@ == e@
}

/// A space use case reported as `lead` and the space.
pub open spec fn space_printed(sr: Result<Space, AppError>, r: Result<CommandOutput, AppError>, lead: Seq<char>, tui: bool) -> bool {
    match sr {
        Ok(s) => prints(r, lead + space_tag(s@), tui, s@.id),
        Err(e) => fails_with(r, e),
    }
}

/// A multi-step space use case reported as `lead` and its space.
pub open spec fn space_op_printed(sr: Result<OperationOutcome, AppError>, r: Result<CommandOutput, AppError>, lead: Seq<char>, tui: bool) -> bool {
    match sr {
        Ok(out) => out.root_space matches Some(s) && prints(r, lead + space_tag(s@), tui, s@.id),
        Err(e) => fails_with(r, e),
    }
}

/// A task use case reported as `lead` and the task.
pub open spec fn task_printed(sr: Result<Task, AppError>, r: Result<CommandOutput, AppError>, lead: Seq<char>, tui: bool) -> bool {
    match sr {
        Ok(t) => prints(r, lead + task_tag(t@), tui, t@.space_id),
        Err(e) => fails_with(r, e),
    }
}

pub open spec fn status_text(t: TaskView) -> Seq<char> {
    "Set task "@ + task_tag(t) + " to "@ + status_name(t.status) + (if t.archived { " and archived"@ } else { ""@ })
}

/// A status change reported with the new status.
pub open spec fn status_printed(sr: Result<Task, AppError>, r: Result<CommandOutput, AppError>, tui: bool) -> bool {
    match sr {
        Ok(t) => prints(r, status_text(t@), tui, t@.space_id),
        Err(e) => fails_with(r, e),
    }
}

pub open spec fn op_text(lead: Seq<char>, t: TaskView, with_status: bool, count: nat) -> Seq<char> {
    if with_status {
        lead + task_tag(t) + " with status "@ + status_name(t.status) + " across "@ + decimal(count) + " task(s)"@
    } else {
        lead + task_tag(t) + " across "@ + decimal(count) + " task(s)"@
    }
}

/// A subtree use case reported with its root task and how many tasks it
/// touched.
pub open spec fn task_op_printed(sr: Result<OperationOutcome, AppError>, r: Result<CommandOutput, AppError>, lead: Seq<char>, with_status: bool, tui: bool) -> bool {
    match sr {
        Ok(out) => out.root_task matches Some(t) && prints(r, op_text(lead, t@, with_status, out.affected_count as nat), tui, t@.space_id),
        Err(e) => fails_with(r, e),
    }
}

/// The status a new or restored task gets when none is named.
pub open spec fn status_or_todo(status: Option<TaskStatus>) -> TaskStatus {
    match status {
        Some(s) => s,
        None => TaskStatus::Todo,
    }
}

// ---------------------------------------------------------------------------
// What each command does

pub open spec fn doctor_run(before: RepoView, r: Result<CommandOutput, AppError>, after: RepoView) -> bool {
    after == before && prints_only(r, doctor_report_text(doctor_issues(before)))
}

pub open spec fn tui_run(before: RepoView, space: Option<String>, view: Option<ViewMode>, sort: Option<SortMode>, r: Result<CommandOutput, AppError>, after: RepoView) -> bool {
    &&& after == before
    &&& match space {
        None => r matches Ok(o) && o.text is None && (o.launch matches Some(l) && l.space_id is None && l.view == view && l.sort == sort),
        Some(rf) => match space_found(before.spaces, rf@, false) {
            Ok(s) => r matches Ok(o) && o.text is None && (o.launch matches Some(l) && l.view == view && l.sort == sort
                && (l.space_id matches Some(i) && i@ == s.id)),
            Err(e) => r matches Err(x) && x@ == e,
        },
    }
}

pub open spec fn space_add_run(before: RepoView, name: String, tui: bool, r: Result<CommandOutput, AppError>, after: RepoView) -> bool {
    exists|sr: Result<Space, AppError>|
        #[trigger] create_space_outcome(before, CreateSpaceCommand { name }, sr, after)
        && space_printed(sr, r, "Created space "@, tui)
}

pub open spec fn space_list_run(before: RepoView, include_archived: bool, r: Result<CommandOutput, AppError>, after: RepoView) -> bool {
    after == before && prints_only(r, spaces_text(space_summaries(before, include_archived)))
}

pub open spec fn space_show_run(before: RepoView, space_ref: String, r: Result<CommandOutput, AppError>, after: RepoView) -> bool {
    after == before && exists|sr: Result<crate::queries::SpaceDetails, AppError>|
        #[trigger] show_space_outcome(before, ShowSpaceQuery { space_ref }, sr) && match sr {
            Ok(d) => prints_only(r, space_details_text(d.space@, d.counts.todo_tasks, d.counts.archived_tasks, d.is_current)),
            Err(e) => fails_with(r, e),
        }
}

pub open spec fn space_use_run(before: RepoView, space_ref: String, tui: bool, r: Result<CommandOutput, AppError>, after: RepoView) -> bool {
    exists|sr: Result<Space, AppError>|
        #[trigger] use_space_outcome(before, SetCurrentSpaceCommand { space_ref }, sr, after)
        && space_printed(sr, r, "Set current space to "@, tui)
}

pub open spec fn space_rename_run(before: RepoView, space_ref: String, new_name: String, tui: bool, r: Result<CommandOutput, AppError>, after: RepoView) -> bool {
    exists|sr: Result<Space, AppError>|
        #[trigger] rename_space_outcome(before, RenameSpaceCommand { space_ref, new_name }, sr, after)
        && space_printed(sr, r, "Renamed space "@, tui)
}

pub open spec fn space_archive_run(before: RepoView, space_ref: String, tui: bool, r: Result<CommandOutput, AppError>, after: RepoView) -> bool {
    exists|sr: Result<OperationOutcome, AppError>|
        #[trigger] archive_space_outcome(before, ArchiveSpaceCommand { space_ref }, sr, after)
        && space_op_printed(sr, r, "Archived space "@, tui)
}

pub open spec fn space_restore_run(before: RepoView, space_ref: String, tui: bool, r: Result<CommandOutput, AppError>, after: RepoView) -> bool {
    exists|sr: Result<OperationOutcome, AppError>|
        #[trigger] restore_space_outcome(before, RestoreSpaceCommand { space_ref }, sr, after)
        && space_op_printed(sr, r, "Restored space "@, tui)
}

pub open spec fn space_purge_run(before: RepoView, space_ref: String, r: Result<CommandOutput, AppError>, after: RepoView) -> bool {
    exists|sr: Result<OperationOutcome, AppError>|
        #[trigger] purge_space_outcome(before, PurgeSpaceCommand { space_ref }, sr, after)
        && space_op_printed(sr, r, "Purged space "@, false)
}

/// The report of a new task names the slug of its space, read back after
/// the task is stored.
pub open spec fn created_task_printed(sr: Result<Task, AppError>, r: Result<CommandOutput, AppError>, after: RepoView, tui: bool) -> bool {
    match sr {
        Ok(t) => if space_index(after.spaces, t@.space_id) >= 0 {
            prints(r, "Created task "@ + task_tag(t@) + " in space "@ + after.spaces[space_index(after.spaces, t@.space_id)].slug, tui, t@.space_id)
        } else {
            r matches Err(x) && x@ == AppErrorView::Storage(StorageErrorView::SpaceNotFound(t@.space_id))
        },
        Err(e) => fails_with(r, e),
    }
}

pub open spec fn task_add_run(
    before: RepoView,
    title: String,
    space: Option<String>,
    description: Option<String>,
    parent: Option<String>,
    status: Option<TaskStatus>,
    tui: bool,
    r: Result<CommandOutput, AppError>,
    after: RepoView,
) -> bool {
    exists|sr: Result<Task, AppError>|
        #[trigger] create_task_outcome(
            before,
            CreateTaskCommand { title, space_ref: space, description, parent_ref: parent, status: status_or_todo(status) },
            sr,
            after,
        ) && created_task_printed(sr, r, after, tui)
}

pub open spec fn task_list_run(before: RepoView, space: Option<String>, view: Option<ViewMode>, sort: Option<SortMode>, r: Result<CommandOutput, AppError>, after: RepoView) -> bool {
    after == before && exists|sr: Result<crate::queries::TaskListResult, AppError>|
        #[trigger] list_tasks_outcome(before, ListTasksQuery { space_ref: space, view, sort, allow_archived_space: false }, sr)
        && match sr {
            Ok(res) => prints_only(r, task_list_text(res.space@, res.view, res.sort, views(res.entries@))),
            Err(e) => fails_with(r, e),
        }
}

pub open spec fn task_show_run(before: RepoView, task_ref: String, r: Result<CommandOutput, AppError>, after: RepoView) -> bool {
    after == before && exists|sr: Result<crate::queries::TaskDetails, AppError>|
        #[trigger] show_task_outcome(before, ShowTaskQuery { task_ref }, sr) && match sr {
            Ok(d) => prints_only(r, task_details_text(d.task@, d.space@, opt_view(d.parent), views(d.children@), views(d.logs@))),
            Err(e) => fails_with(r, e),
        }
}

pub open spec fn task_edit_run(before: RepoView, command: EditTaskCommand, tui: bool, r: Result<CommandOutput, AppError>, after: RepoView) -> bool {
    exists|sr: Result<Task, AppError>|
        #[trigger] edit_task_outcome(before, command, sr, after) && task_printed(sr, r, "Updated task "@, tui)
}

pub open spec fn task_status_run(before: RepoView, task_ref: String, status: TaskStatus, tui: bool, r: Result<CommandOutput, AppError>, after: RepoView) -> bool {
    exists|sr: Result<Task, AppError>|
        #[trigger] set_task_status_outcome(before, UpdateTaskStatusCommand { task_ref, status }, sr, after)
        && status_printed(sr, r, tui)
}

pub open spec fn task_archive_run(before: RepoView, task_ref: String, tui: bool, r: Result<CommandOutput, AppError>, after: RepoView) -> bool {
    exists|sr: Result<OperationOutcome, AppError>|
        #[trigger] archive_task_outcome(before, ArchiveTaskCommand { task_ref }, sr, after)
        && task_op_printed(sr, r, "Archived task "@, false, tui)
}

pub open spec fn task_restore_run(before: RepoView, task_ref: String, status: Option<TaskStatus>, tui: bool, r: Result<CommandOutput, AppError>, after: RepoView) -> bool {
    exists|sr: Result<OperationOutcome, AppError>|
        #[trigger] restore_task_outcome(before, RestoreTaskCommand { task_ref, status: status_or_todo(status) }, sr, after)
        && task_op_printed(sr, r, "Restored task "@, true, tui)
}

pub open spec fn task_log_run(before: RepoView, task_ref: String, text: String, tui: bool, r: Result<CommandOutput, AppError>, after: RepoView) -> bool {
    exists|sr: Result<Task, AppError>|
        #[trigger] add_task_log_outcome(before, AddTaskLogCommand { task_ref, message: text }, sr, after)
        && task_printed(sr, r, "Added log to task "@, tui)
}

pub open spec fn task_purge_run(before: RepoView, task_ref: String, recursive: bool, r: Result<CommandOutput, AppError>, after: RepoView) -> bool {
    exists|sr: Result<OperationOutcome, AppError>|
        #[trigger] purge_task_outcome(before, PurgeTaskCommand { task_ref, recursive }, sr, after)
        && task_op_printed(sr, r, "Purged task "@, false, false)
}

/// What running `command` prints and does to the stored data.
pub open spec fn dispatched(before: RepoView, command: CliCommand, r: Result<CommandOutput, AppError>, after: RepoView) -> bool {
    match command {
        CliCommand::Doctor => doctor_run(before, r, after),
        CliCommand::Tui { space, view, sort } => tui_run(before, space, view, sort, r, after),
        CliCommand::SpaceAdd { name, tui } => space_add_run(before, name, tui, r, after),
        CliCommand::SpaceList { include_archived } => space_list_run(before, include_archived, r, after),
        CliCommand::SpaceShow { space_ref } => space_show_run(before, space_ref, r, after),
        CliCommand::SpaceUse { space_ref, tui } => space_use_run(before, space_ref, tui, r, after),
        CliCommand::SpaceRename { space_ref, new_name, tui } => space_rename_run(before, space_ref, new_name, tui, r, after),
        CliCommand::SpaceArchive { space_ref, tui } => space_archive_run(before, space_ref, tui, r, after),
        CliCommand::SpaceRestore { space_ref, tui } => space_restore_run(before, space_ref, tui, r, after),
        CliCommand::SpacePurge { space_ref, force: _ } => space_purge_run(before, space_ref, r, after),
        CliCommand::TaskAdd { title, space, description, parent, status, tui } =>
            task_add_run(before, title, space, description, parent, status, tui, r, after),
        CliCommand::TaskList { space, view, sort } => task_list_run(before, space, view, sort, r, after),
        CliCommand::TaskShow { task_ref } => task_show_run(before, task_ref, r, after),
        CliCommand::TaskEdit { task_ref, title, description, clear_desc, status, parent, clear_parent, space, tui } =>
            task_edit_run(before, EditTaskCommand {
                task_ref,
                title,
                description,
                clear_description: clear_desc,
                status,
                parent_ref: parent,
                clear_parent,
                space_ref: space,
            }, tui, r, after),
        CliCommand::TaskStatusSet { task_ref, status, tui } => task_status_run(before, task_ref, status, tui, r, after),
        CliCommand::TaskDone { task_ref, tui } => task_status_run(before, task_ref, TaskStatus::Done, tui, r, after),
        CliCommand::TaskArchive { task_ref, tui } => task_archive_run(before, task_ref, tui, r, after),
        CliCommand::TaskRestore { task_ref, status, tui } => task_restore_run(before, task_ref, status, tui, r, after),
        CliCommand::TaskLogAdd { task_ref, text, tui } => task_log_run(before, task_ref, text, tui, r, after),
        CliCommand::TaskPurge { task_ref, recursive, force: _ } => task_purge_run(before, task_ref, recursive, r, after),
    }
}

/// What the command line needs of the stored data: unique ids, each with
/// its `_` and long enough for a short form, and positions below the
/// largest `i64`.
pub open spec fn runnable(repo: RepoView) -> bool {
    &&& crate::repository::ids_unique(repo)
    &&& ids_split(repo)
    &&& ids_printable(repo)
    &&& orders_bounded(record_tasks(repo.records))
    &&& space_orders_bounded(repo.spaces)
}


// ---------------------------------------------------------------------------
// Every id a report prints has a short form

pub open spec fn tasks_printable(s: Seq<TaskView>) -> bool {
    forall|i: int| 0 <= i < s.len() ==> short_id_defined(#[trigger] s[i].id)
}

pub open spec fn spaces_printable(s: Seq<SpaceView>) -> bool {
    forall|i: int| 0 <= i < s.len() ==> short_id_defined(#[trigger] s[i].id)
}

proof fn lemma_member_printable(s: Seq<TaskView>, x: TaskView)
    requires
        tasks_printable(s),
        s.contains(x),
    ensures
        short_id_defined(x.id),
{
    let i = choose|i: int| 0 <= i < s.len() && s[i] == x;
    assert(short_id_defined(s[i].id));
}

proof fn lemma_filter_printable(s: Seq<TaskView>, f: spec_fn(TaskView) -> bool)
    requires
        tasks_printable(s),
    ensures
        tasks_printable(s.filter(f)),
{
    assert forall|i: int| 0 <= i < s.filter(f).len() implies short_id_defined(#[trigger] s.filter(f)[i].id) by {
        let x = s.filter(f)[i];
        assert(s.filter(f).contains(x));
        s.lemma_filter_contains_rev(f, x);
        lemma_member_printable(s, x);
    }
}

proof fn lemma_sort_printable(s: Seq<TaskView>, sort: SortMode)
    requires
        tasks_printable(s),
    ensures
        tasks_printable(sort_tasks_spec(s, sort)),
{
    broadcast use vstd::seq_lib::group_to_multiset_ensures;
    law_sort_tasks_sorted_permutation(s, sort);
    let t = sort_tasks_spec(s, sort);
    assert forall|i: int| 0 <= i < t.len() implies short_id_defined(#[trigger] t[i].id) by {
        assert(t.contains(t[i]));
        assert(t.to_multiset().count(t[i]) > 0);
        assert(s.to_multiset().count(t[i]) > 0);
        lemma_member_printable(s, t[i]);
    }
}

proof fn lemma_flat_printable(vis: Seq<TaskView>, sort: SortMode, sibs: Seq<TaskView>, depth: nat, fuel: nat)
    requires
        tasks_printable(vis),
        tasks_printable(sibs),
    ensures
        forall|i: int| 0 <= i < flat(vis, sort, sibs, depth, fuel).len()
            ==> short_id_defined(#[trigger] flat(vis, sort, sibs, depth, fuel)[i].task.id),
    decreases fuel, sibs.len(),
{
    if sibs.len() > 0 {
        let t = sibs[0];
        assert(short_id_defined(sibs[0].id));
        let kids = group(vis, sort, Some(t.id));
        lemma_filter_printable(vis, keyed(vis, Some(t.id)));
        lemma_sort_printable(vis.filter(keyed(vis, Some(t.id))), sort);
        let below = if fuel == 0 { Seq::<crate::queries::TaskListEntryView>::empty() } else { flat(vis, sort, kids, depth + 1, (fuel - 1) as nat) };
        if fuel > 0 {
            lemma_flat_printable(vis, sort, kids, depth + 1, (fuel - 1) as nat);
        }
        let rest_sibs = sibs.drop_first();
        assert(tasks_printable(rest_sibs)) by {
            assert forall|i: int| 0 <= i < rest_sibs.len() implies short_id_defined(#[trigger] rest_sibs[i].id) by {
                assert(rest_sibs[i] == sibs[i + 1]);
            }
        }
        lemma_flat_printable(vis, sort, rest_sibs, depth, fuel);
        let head = piece(vis, sort, t, depth, fuel);
        let rest = flat(vis, sort, rest_sibs, depth, fuel);
        let all = flat(vis, sort, sibs, depth, fuel);
        assert(all == head + rest);
        assert(head == seq![crate::queries::TaskListEntryView { task: t, depth, child_count: kids.len() }] + below);
        assert forall|i: int| 0 <= i < all.len() implies short_id_defined(#[trigger] all[i].task.id) by {
            if i < head.len() {
                if i > 0 {
                    assert(head[i] == below[i - 1]);
                }
            } else {
                assert(all[i] == rest[i - head.len()]);
            }
        }
    }
}

pub proof fn lemma_listing_printable(tasks: Seq<TaskView>, view: ViewMode, sort: SortMode)
    requires
        tasks_printable(tasks),
    ensures
        forall|i: int| 0 <= i < task_list_entries(tasks, view, sort).len()
            ==> short_id_defined(#[trigger] task_list_entries(tasks, view, sort)[i].task.id),
{
    let vis = visible_tasks(tasks, view);
    lemma_filter_printable(tasks, crate::task_query::visible_filter(view));
    lemma_filter_printable(vis, keyed(vis, None));
    lemma_sort_printable(vis.filter(keyed(vis, None)), sort);
    lemma_flat_printable(vis, sort, group(vis, sort, None), 0, vis.len());
}

proof fn lemma_records_printable(repo: RepoView, recs: Seq<RecordView>)
    requires
        ids_printable(repo),
        forall|k: int| 0 <= k < recs.len() ==> #[trigger] repo.records.contains(recs[k]),
    ensures
        tasks_printable(record_tasks(recs)),
{
    assert forall|k: int| 0 <= k < record_tasks(recs).len() implies short_id_defined(#[trigger] record_tasks(recs)[k].id) by {
        assert(repo.records.contains(recs[k]));
        let j = choose|j: int| 0 <= j < repo.records.len() && repo.records[j] == recs[k];
        assert(short_id_defined(repo.records[j].task.id));
    }
}

pub proof fn lemma_all_tasks_printable(repo: RepoView)
    requires
        ids_printable(repo),
    ensures
        tasks_printable(all_tasks(repo)),
{
    lemma_all_records_from_records(repo.spaces, repo.records);
    lemma_records_printable(repo, all_records(repo.spaces, repo.records));
}

pub proof fn lemma_space_tasks_printable(repo: RepoView, sid: Seq<char>)
    requires
        ids_printable(repo),
    ensures
        tasks_printable(space_tasks(repo, sid)),
{
    let recs = records_in_space(repo.records, sid);
    let a = repo.records.filter(crate::repository::in_space_bucket(sid, crate::repository::TaskBucket::Todo));
    let b = repo.records.filter(crate::repository::in_space_bucket(sid, crate::repository::TaskBucket::Archive));
    assert forall|k: int| 0 <= k < recs.len() implies #[trigger] repo.records.contains(recs[k]) by {
        if k < a.len() {
            assert(recs[k] == a[k]);
            assert(a.contains(a[k]));
            repo.records.lemma_filter_contains_rev(crate::repository::in_space_bucket(sid, crate::repository::TaskBucket::Todo), a[k]);
        } else {
            assert(recs[k] == b[k - a.len()]);
            assert(b.contains(b[k - a.len()]));
            repo.records.lemma_filter_contains_rev(crate::repository::in_space_bucket(sid, crate::repository::TaskBucket::Archive), b[k - a.len()]);
        }
    }
    lemma_records_printable(repo, recs);
}

proof fn lemma_find_task_facts(tasks: Seq<TaskView>, id: Seq<char>)
    ensures
        find_task(tasks, id) matches Some(t) ==> t.id == id && tasks.contains(t),
{
    if exists|i: int| crate::hierarchy::is_first_with(tasks, id, i) {
        let i = choose|i: int| crate::hierarchy::is_first_with(tasks, id, i);
        assert(tasks.contains(tasks[i]));
    }
}

pub proof fn lemma_found_task_printable(tasks: Seq<TaskView>, reference: Seq<char>)
    requires
        tasks_printable(tasks),
    ensures
        task_found(tasks, reference) matches Ok(t) ==> short_id_defined(t.id) && tasks.contains(t),
{
    lemma_found_task_exists(tasks, reference);
    if let RefOutcome::Found(id) = resolve_task_ref_spec(reference, task_ids(tasks)) {
        lemma_find_task_facts(tasks, id);
        if let Some(t) = find_task(tasks, id) {
            lemma_member_printable(tasks, t);
        }
    }
}

pub proof fn lemma_found_space_printable(spaces: Seq<SpaceView>, reference: Seq<char>, require_active: bool)
    requires
        spaces_printable(spaces),
    ensures
        space_found(spaces, reference, require_active) matches Ok(s) ==> short_id_defined(s.id),
        space_resolution(spaces, reference) matches Some(s) ==> short_id_defined(s.id),
{
    lemma_found_space_exists(spaces, reference);
    if let RefOutcome::Found(id) = resolve_space_ref_spec(reference, spaces) {
        assert(0 <= space_index(spaces, id) < spaces.len());
        assert(short_id_defined(spaces[space_index(spaces, id)].id));
    }
}

pub proof fn lemma_effective_space_printable(repo: RepoView, reference: Option<Seq<char>>, require_active: bool)
    requires
        ids_printable(repo),
    ensures
        effective_space(repo, reference, require_active) matches Ok(s) ==> short_id_defined(s.id),
{
    match reference {
        Some(rf) => lemma_found_space_printable(repo.spaces, rf, require_active),
        None => {
            if let Some(cid) = repo.state.current_space_id {
                if space_index(repo.spaces, cid) >= 0 {
                    assert(short_id_defined(repo.spaces[space_index(repo.spaces, cid)].id));
                }
            }
        },
    }
}

pub proof fn lemma_summaries_printable(repo: RepoView, include_archived: bool)
    requires
        ids_printable(repo),
    ensures
        forall|i: int| 0 <= i < space_summaries(repo, include_archived).len()
            ==> short_id_defined(#[trigger] space_summaries(repo, include_archived)[i].space.id),
{
    let sorted = sort_spaces_spec(repo.spaces);
    let f = sorted.filter(listed(include_archived));
    lemma_sort_spaces_members(repo.spaces);
    assert forall|i: int| 0 <= i < space_summaries(repo, include_archived).len()
        implies short_id_defined(#[trigger] space_summaries(repo, include_archived)[i].space.id) by {
        assert(space_summaries(repo, include_archived)[i] == summary_of(repo, f[i]));
        assert(f.contains(f[i]));
        sorted.lemma_filter_contains_rev(listed(include_archived), f[i]);
        let j = choose|j: int| 0 <= j < sorted.len() && sorted[j] == f[i];
        assert(repo.spaces.contains(sorted[j]));
        let k = choose|k: int| 0 <= k < repo.spaces.len() && repo.spaces[k] == sorted[j];
        assert(short_id_defined(repo.spaces[k].id));
    }
}


// ---------------------------------------------------------------------------
// Running the commands

/// Whether the stored data meets what the command line needs of it.
pub fn is_runnable(repo: &Repository) -> (r: bool)
    requires
        repo.wf(),
    ensures
        r == runnable(repo@),
{
    if !repo.ids_well_formed() || !repo.ids_printable() || !repo.orders_fit() {
        return false;
    }
    let n = repo.spaces.len();
    let mut i: usize = 0;
    while i < n
        invariant
            n == repo.spaces@.len(),
            i <= n,
            forall|j: int| 0 <= j < i ==> #[trigger] repo@.spaces[j].sort_order < i64::MAX,
        decreases n - i,
    {
        if repo.spaces[i].sort_order == i64::MAX {
            assert(repo@.spaces[i as int].sort_order == i64::MAX);
            return false;
        }
        i = i + 1;
    }
    true
}

fn launch_on(tui: bool, space_id: &SpaceId) -> (r: Option<LaunchOptions>)
    ensures
        tui ==> (r matches Some(l) && l.view is None && l.sort is None && (l.space_id matches Some(i) && i@ == space_id@)),
        !tui ==> r is None,
{
    if tui {
        Some(LaunchOptions { space_id: Some(space_id.clone()), view: None, sort: None })
    } else {
        None
    }
}

fn printed(text: String, launch: Option<LaunchOptions>) -> (r: Result<CommandOutput, AppError>)
    ensures
        r matches Ok(o) && (o.text matches Some(t) && t@ == text@) && o.launch == launch,
{
    Ok(CommandOutput { text: Some(text), launch })
}

/// Runs `doctor`, which reads any stored data, well formed or not.
pub fn run_doctor(repo: &Repository) -> (r: Result<CommandOutput, AppError>)
    ensures
        doctor_run(repo@, r, repo@),
{
    match MaintenanceService::new().doctor(repo) {
        Ok(report) => printed(render_doctor_report(&report), None),
        Err(e) => Err(e),
    }
}

fn run_tui(repo: &Repository, space: Option<String>, view: Option<ViewMode>, sort: Option<SortMode>) -> (r: Result<CommandOutput, AppError>)
    requires
        runnable(repo@),
    ensures
        tui_run(repo@, space, view, sort, r, repo@),
{
    match space {
        None => Ok(CommandOutput { text: None, launch: Some(LaunchOptions { space_id: None, view, sort }) }),
        Some(rf) => match SpaceService::new().resolve_space(repo, rf.as_str(), false) {
            Ok(s) => Ok(CommandOutput { text: None, launch: Some(LaunchOptions { space_id: Some(s.id), view, sort }) }),
            Err(e) => Err(e),
        },
    }
}

fn run_space_add(repo: &mut Repository, name: String, tui: bool) -> (r: Result<CommandOutput, AppError>)
    requires
        runnable(old(repo)@),
    ensures
        final(repo).wf(),
        space_add_run(old(repo)@, name, tui, r, final(repo)@),
{
    let sr = SpaceService::new().create_space(repo, CreateSpaceCommand { name });
    let ghost g = sr;
    match sr {
        Ok(space) => {
            proof {
                lemma_long_id_suffix(space@.id, space_prefix());
            }
            let launch = launch_on(tui, &space.id);
            let r = printed(format_created_space(&space), launch);
            assert(space_printed(g, r, "Created space "@, tui));
            r
        },
        Err(e) => Err(e),
    }
}

fn run_space_list(repo: &Repository, include_archived: bool) -> (r: Result<CommandOutput, AppError>)
    requires
        runnable(repo@),
    ensures
        space_list_run(repo@, include_archived, r, repo@),
{
    match SpaceService::new().list_spaces(repo, ListSpacesQuery { include_archived }) {
        Ok(items) => {
            proof {
                lemma_summaries_printable(repo@, include_archived);
                assert forall|i: int| 0 <= i < items@.len() implies short_id_defined(#[trigger] items@[i]@.space.id) by {
                    assert(views(items@)[i] == items@[i]@);
                }
            }
            printed(render_spaces(&items), None)
        },
        Err(e) => Err(e),
    }
}

fn run_space_show(repo: &Repository, space_ref: String) -> (r: Result<CommandOutput, AppError>)
    requires
        runnable(repo@),
    ensures
        space_show_run(repo@, space_ref, r, repo@),
{
    let ghost rf = space_ref@;
    let sr = SpaceService::new().show_space(repo, ShowSpaceQuery { space_ref });
    let ghost g = sr;
    match sr {
        Ok(d) => {
            proof {
                lemma_found_space_printable(repo@.spaces, rf, false);
            }
            printed(render_space(&d), None)
        },
        Err(e) => Err(e),
    }
}

fn run_space_use(repo: &mut Repository, space_ref: String, tui: bool) -> (r: Result<CommandOutput, AppError>)
    requires
        runnable(old(repo)@),
    ensures
        final(repo).wf(),
        space_use_run(old(repo)@, space_ref, tui, r, final(repo)@),
{
    let ghost rf = space_ref@;
    let sr = SpaceService::new().use_space(repo, SetCurrentSpaceCommand { space_ref });
    let ghost g = sr;
    match sr {
        Ok(space) => {
            proof {
                lemma_found_space_printable(old(repo)@.spaces, rf, true);
            }
            let launch = launch_on(tui, &space.id);
            let r = printed(format_used_space(&space), launch);
            assert(space_printed(g, r, "Set current space to "@, tui));
            r
        },
        Err(e) => Err(e),
    }
}

fn run_space_rename(repo: &mut Repository, space_ref: String, new_name: String, tui: bool) -> (r: Result<CommandOutput, AppError>)
    requires
        runnable(old(repo)@),
    ensures
        final(repo).wf(),
        space_rename_run(old(repo)@, space_ref, new_name, tui, r, final(repo)@),
{
    let ghost rf = space_ref@;
    let sr = SpaceService::new().rename_space(repo, RenameSpaceCommand { space_ref, new_name });
    let ghost g = sr;
    match sr {
        Ok(space) => {
            proof {
                lemma_found_space_printable(old(repo)@.spaces, rf, false);
            }
            let launch = launch_on(tui, &space.id);
            let r = printed(format_renamed_space(&space), launch);
            assert(space_printed(g, r, "Renamed space "@, tui));
            r
        },
        Err(e) => Err(e),
    }
}

fn run_space_archive(repo: &mut Repository, space_ref: String, tui: bool) -> (r: Result<CommandOutput, AppError>)
    requires
        runnable(old(repo)@),
    ensures
        final(repo).wf(),
        space_archive_run(old(repo)@, space_ref, tui, r, final(repo)@),
{
    let ghost rf = space_ref@;
    let sr = SpaceService::new().archive_space(repo, ArchiveSpaceCommand { space_ref });
    let ghost g = sr;
    match sr {
        Ok(out) => {
            proof {
                lemma_found_space_printable(old(repo)@.spaces, rf, true);
            }
            let space = out.root_space.unwrap();
            let launch = launch_on(tui, &space.id);
            let r = printed(format_archived_space(&space), launch);
            assert(space_op_printed(g, r, "Archived space "@, tui));
            r
        },
        Err(e) => Err(e),
    }
}

fn run_space_restore(repo: &mut Repository, space_ref: String, tui: bool) -> (r: Result<CommandOutput, AppError>)
    requires
        runnable(old(repo)@),
    ensures
        final(repo).wf(),
        space_restore_run(old(repo)@, space_ref, tui, r, final(repo)@),
{
    let ghost rf = space_ref@;
    let sr = SpaceService::new().restore_space(repo, RestoreSpaceCommand { space_ref });
    let ghost g = sr;
    match sr {
        Ok(out) => {
            proof {
                lemma_found_space_printable(old(repo)@.spaces, rf, false);
            }
            let space = out.root_space.unwrap();
            let launch = launch_on(tui, &space.id);
            let r = printed(format_restored_space(&space), launch);
            assert(space_op_printed(g, r, "Restored space "@, tui));
            r
        },
        Err(e) => Err(e),
    }
}

fn run_space_purge(repo: &mut Repository, space_ref: String) -> (r: Result<CommandOutput, AppError>)
    requires
        runnable(old(repo)@),
    ensures
        final(repo).wf(),
        space_purge_run(old(repo)@, space_ref, r, final(repo)@),
{
    let ghost rf = space_ref@;
    let sr = SpaceService::new().purge_space(repo, PurgeSpaceCommand { space_ref });
    let ghost g = sr;
    match sr {
        Ok(out) => {
            proof {
                lemma_found_space_printable(old(repo)@.spaces, rf, false);
            }
            let space = out.root_space.unwrap();
            let r = printed(format_purged_space(&space), None);
            assert(space_op_printed(g, r, "Purged space "@, false));
            r
        },
        Err(e) => Err(e),
    }
}


fn run_task_add(
    repo: &mut Repository,
    title: String,
    space: Option<String>,
    description: Option<String>,
    parent: Option<String>,
    status: Option<TaskStatus>,
    tui: bool,
) -> (r: Result<CommandOutput, AppError>)
    requires
        runnable(old(repo)@),
    ensures
        final(repo).wf(),
        task_add_run(old(repo)@, title, space, description, parent, status, tui, r, final(repo)@),
{
    let status = match status {
        Some(s) => s,
        None => TaskStatus::Todo,
    };
    let command = CreateTaskCommand { title, space_ref: space, description, parent_ref: parent, status };
    let sr = TaskService::new().create_task(repo, command);
    let ghost g = sr;
    match sr {
        Ok(task) => {
            proof {
                lemma_long_id_suffix(task@.id, task_prefix());
            }
            match SpaceService::new().load_space(repo, &task.space_id) {
                Ok(space) => {
                    let launch = launch_on(tui, &task.space_id);
                    let r = printed(format_created_task(&task, &space), launch);
                    assert(created_task_printed(g, r, repo@, tui));
                    r
                },
                Err(e) => Err(e),
            }
        },
        Err(e) => Err(e),
    }
}

fn run_task_list(repo: &Repository, space: Option<String>, view: Option<ViewMode>, sort: Option<SortMode>) -> (r: Result<CommandOutput, AppError>)
    requires
        runnable(repo@),
    ensures
        task_list_run(repo@, space, view, sort, r, repo@),
{
    let ghost rf = opt_view(space);
    let sr = TaskService::new().list_tasks(repo, ListTasksQuery { space_ref: space, view, sort, allow_archived_space: false });
    let ghost g = sr;
    match sr {
        Ok(res) => {
            proof {
                lemma_effective_space_printable(repo@, rf, true);
                lemma_space_tasks_printable(repo@, res.space@.id);
                lemma_listing_printable(space_tasks(repo@, res.space@.id), res.view, res.sort);
                assert forall|i: int| 0 <= i < res.entries@.len() implies short_id_defined(#[trigger] res.entries@[i]@.task.id) by {
                    assert(views(res.entries@)[i] == res.entries@[i]@);
                }
            }
            printed(render_task_list(&res), None)
        },
        Err(e) => Err(e),
    }
}

fn run_task_show(repo: &Repository, task_ref: String) -> (r: Result<CommandOutput, AppError>)
    requires
        runnable(repo@),
    ensures
        task_show_run(repo@, task_ref, r, repo@),
{
    let ghost rf = task_ref@;
    let sr = TaskService::new().show_task(repo, ShowTaskQuery { task_ref });
    let ghost g = sr;
    match sr {
        Ok(d) => {
            proof {
                let tasks = all_tasks(repo@);
                lemma_all_tasks_printable(repo@);
                lemma_found_task_printable(tasks, rf);
                assert(short_id_defined(repo@.spaces[space_index(repo@.spaces, d.task@.space_id)].id));
                if let Some(pid) = d.task@.parent_id {
                    lemma_find_task_facts(tasks, pid);
                    if let Some(p) = find_task(tasks, pid) {
                        lemma_member_printable(tasks, p);
                    }
                }
                lemma_filter_printable(tasks, crate::task_service::child_of(d.task@.id));
                lemma_sort_printable(children_of(tasks, d.task@.id), SortMode::Manual);
                assert forall|i: int| 0 <= i < d.children@.len() implies short_id_defined(#[trigger] d.children@[i]@.id) by {
                    assert(views(d.children@)[i] == d.children@[i]@);
                }
            }
            printed(render_task(&d), None)
        },
        Err(e) => Err(e),
    }
}

fn run_task_edit(repo: &mut Repository, command: EditTaskCommand, tui: bool) -> (r: Result<CommandOutput, AppError>)
    requires
        runnable(old(repo)@),
    ensures
        final(repo).wf(),
        task_edit_run(old(repo)@, command, tui, r, final(repo)@),
{
    let ghost c = command;
    let sr = TaskService::new().edit_task(repo, command);
    let ghost g = sr;
    match sr {
        Ok(task) => {
            proof {
                let tasks = all_tasks(old(repo)@);
                lemma_all_tasks_printable(old(repo)@);
                if let Ok(plan) = crate::task_service::edit_plan(old(repo)@, c) {
                    let upd = crate::task_service::subtree_tasks(tasks, plan.sub);
                    lemma_filter_printable(tasks, crate::task_service::in_set(plan.sub));
                    assert(short_id_defined(upd[crate::task_service::root_pos(upd, plan.current.id)].id));
                }
            }
            let launch = launch_on(tui, &task.space_id);
            let r = printed(format_updated_task(&task), launch);
            assert(task_printed(g, r, "Updated task "@, tui));
            r
        },
        Err(e) => Err(e),
    }
}

fn run_task_status(repo: &mut Repository, task_ref: String, status: TaskStatus, tui: bool) -> (r: Result<CommandOutput, AppError>)
    requires
        runnable(old(repo)@),
    ensures
        final(repo).wf(),
        task_status_run(old(repo)@, task_ref, status, tui, r, final(repo)@),
{
    let ghost rf = task_ref@;
    let sr = TaskService::new().set_task_status(repo, UpdateTaskStatusCommand { task_ref, status });
    let ghost g = sr;
    match sr {
        Ok(task) => {
            proof {
                lemma_all_tasks_printable(old(repo)@);
                lemma_found_task_printable(all_tasks(old(repo)@), rf);
            }
            let launch = launch_on(tui, &task.space_id);
            let r = printed(format_task_status(&task), launch);
            assert(status_printed(g, r, tui));
            r
        },
        Err(e) => Err(e),
    }
}

fn run_task_archive(repo: &mut Repository, task_ref: String, tui: bool) -> (r: Result<CommandOutput, AppError>)
    requires
        runnable(old(repo)@),
    ensures
        final(repo).wf(),
        task_archive_run(old(repo)@, task_ref, tui, r, final(repo)@),
{
    let ghost rf = task_ref@;
    let sr = TaskService::new().archive_task(repo, ArchiveTaskCommand { task_ref });
    let ghost g = sr;
    match sr {
        Ok(out) => {
            proof {
                lemma_all_tasks_printable(old(repo)@);
                lemma_found_task_printable(all_tasks(old(repo)@), rf);
                if let Ok(root) = task_found(all_tasks(old(repo)@), rf) {
                    lemma_find_task_facts(all_tasks(repo@), root.id);
                }
            }
            let task = out.root_task.unwrap();
            let launch = launch_on(tui, &task.space_id);
            let r = printed(format_archived_task(&task, out.affected_count), launch);
            assert(task_op_printed(g, r, "Archived task "@, false, tui));
            r
        },
        Err(e) => Err(e),
    }
}

fn run_task_restore(repo: &mut Repository, task_ref: String, status: Option<TaskStatus>, tui: bool) -> (r: Result<CommandOutput, AppError>)
    requires
        runnable(old(repo)@),
    ensures
        final(repo).wf(),
        task_restore_run(old(repo)@, task_ref, status, tui, r, final(repo)@),
{
    let ghost rf = task_ref@;
    let status = match status {
        Some(s) => s,
        None => TaskStatus::Todo,
    };
    let sr = TaskService::new().restore_task(repo, RestoreTaskCommand { task_ref, status });
    let ghost g = sr;
    match sr {
        Ok(out) => {
            proof {
                lemma_all_tasks_printable(old(repo)@);
                lemma_found_task_printable(all_tasks(old(repo)@), rf);
                if let Ok(root) = task_found(all_tasks(old(repo)@), rf) {
                    lemma_find_task_facts(all_tasks(repo@), root.id);
                }
            }
            let task = out.root_task.unwrap();
            let launch = launch_on(tui, &task.space_id);
            let r = printed(format_restored_task(&task, out.affected_count), launch);
            assert(task_op_printed(g, r, "Restored task "@, true, tui));
            r
        },
        Err(e) => Err(e),
    }
}

fn run_task_log(repo: &mut Repository, task_ref: String, text: String, tui: bool) -> (r: Result<CommandOutput, AppError>)
    requires
        runnable(old(repo)@),
    ensures
        final(repo).wf(),
        task_log_run(old(repo)@, task_ref, text, tui, r, final(repo)@),
{
    let ghost rf = task_ref@;
    let sr = TaskService::new().add_task_log(repo, AddTaskLogCommand { task_ref, message: text });
    let ghost g = sr;
    match sr {
        Ok(task) => {
            proof {
                lemma_all_tasks_printable(old(repo)@);
                lemma_found_task_printable(all_tasks(old(repo)@), rf);
            }
            let launch = launch_on(tui, &task.space_id);
            let r = printed(format_logged_task(&task), launch);
            assert(task_printed(g, r, "Added log to task "@, tui));
            r
        },
        Err(e) => Err(e),
    }
}

fn run_task_purge(repo: &mut Repository, task_ref: String, recursive: bool) -> (r: Result<CommandOutput, AppError>)
    requires
        runnable(old(repo)@),
    ensures
        final(repo).wf(),
        task_purge_run(old(repo)@, task_ref, recursive, r, final(repo)@),
{
    let ghost rf = task_ref@;
    let sr = TaskService::new().purge_task(repo, PurgeTaskCommand { task_ref, recursive });
    let ghost g = sr;
    match sr {
        Ok(out) => {
            proof {
                lemma_all_tasks_printable(old(repo)@);
                lemma_found_task_printable(all_tasks(old(repo)@), rf);
            }
            let task = out.root_task.unwrap();
            let r = printed(format_purged_task(&task, out.affected_count), None);
            assert(task_op_printed(g, r, "Purged task "@, false, false));
            r
        },
        Err(e) => Err(e),
    }
}

/// Runs the command a parsed command line names.
pub fn dispatch(repo: &mut Repository, cli: TodoCli) -> (r: Result<CommandOutput, AppError>)
    requires
        runnable(old(repo)@),
    ensures
        final(repo).wf(),
        dispatched(old(repo)@, command_of(cli), r, final(repo)@),
{
    run_command(repo, cli.into_command())
}

/// Runs one command: calls the use case it names and reports the result
/// as the command line prints it, with the interface to open afterwards
/// when the command asked for one.
pub fn run_command(repo: &mut Repository, command: CliCommand) -> (r: Result<CommandOutput, AppError>)
    requires
        runnable(old(repo)@),
    ensures
        final(repo).wf(),
        dispatched(old(repo)@, command, r, final(repo)@),
{
    match command {
        CliCommand::Doctor => run_doctor(repo),
        CliCommand::Tui { space, view, sort } => run_tui(repo, space, view, sort),
        CliCommand::SpaceAdd { name, tui } => run_space_add(repo, name, tui),
        CliCommand::SpaceList { include_archived } => run_space_list(repo, include_archived),
        CliCommand::SpaceShow { space_ref } => run_space_show(repo, space_ref),
        CliCommand::SpaceUse { space_ref, tui } => run_space_use(repo, space_ref, tui),
        CliCommand::SpaceRename { space_ref, new_name, tui } => run_space_rename(repo, space_ref, new_name, tui),
        CliCommand::SpaceArchive { space_ref, tui } => run_space_archive(repo, space_ref, tui),
        CliCommand::SpaceRestore { space_ref, tui } => run_space_restore(repo, space_ref, tui),
        CliCommand::SpacePurge { space_ref, force: _ } => run_space_purge(repo, space_ref),
        CliCommand::TaskAdd { title, space, description, parent, status, tui } =>
            run_task_add(repo, title, space, description, parent, status, tui),
        CliCommand::TaskList { space, view, sort } => run_task_list(repo, space, view, sort),
        CliCommand::TaskShow { task_ref } => run_task_show(repo, task_ref),
        CliCommand::TaskEdit { task_ref, title, description, clear_desc, status, parent, clear_parent, space, tui } =>
            run_task_edit(repo, EditTaskCommand {
                task_ref,
                title,
                description,
                clear_description: clear_desc,
                status,
                parent_ref: parent,
                clear_parent,
                space_ref: space,
            }, tui),
        CliCommand::TaskStatusSet { task_ref, status, tui } => run_task_status(repo, task_ref, status, tui),
        CliCommand::TaskDone { task_ref, tui } => run_task_status(repo, task_ref, TaskStatus::Done, tui),
        CliCommand::TaskArchive { task_ref, tui } => run_task_archive(repo, task_ref, tui),
        CliCommand::TaskRestore { task_ref, status, tui } => run_task_restore(repo, task_ref, status, tui),
        CliCommand::TaskLogAdd { task_ref, text, tui } => run_task_log(repo, task_ref, text, tui),
        CliCommand::TaskPurge { task_ref, recursive, force: _ } => run_task_purge(repo, task_ref, recursive),
    }
}

} // verus!
