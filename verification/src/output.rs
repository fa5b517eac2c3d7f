//! The text the command line prints for results and reports.

use vstd::prelude::*;
use vstd::string::*;
use crate::clock::Timestamp;
use crate::ids::{short_id_defined, short_id_of, space_prefix, task_prefix};
use crate::model::{SortMode, Space, SpaceState, SpaceView, Task, TaskStatus, TaskView, ViewMode};
use crate::queries::{DoctorIssue, DoctorIssueView, DoctorReport, SpaceDetails, SpaceSummary, SpaceSummaryView, TaskDetails, TaskListResult, TaskListEntryView};
use crate::model::{TaskLog, TaskLogView};
use crate::repository::TaskBucket;
use crate::text::{decimal, push_decimal};
use crate::tree_view::{marker_text, status_marker, sort_text, sort_label};
use crate::util::views;

verus! {

// ---------------------------------------------------------------------------
// Names

pub open spec fn status_name(status: TaskStatus) -> Seq<char> {
    match status {
        TaskStatus::Todo => "todo"@,
        TaskStatus::InProgress => "in_progress"@,
        TaskStatus::Done => "done"@,
        TaskStatus::Close => "close"@,
    }
}

pub fn format_task_status_name(status: TaskStatus) -> (r: &'static str)
    ensures
        r@ == status_name(status),
{
    match status {
        TaskStatus::Todo => "todo",
        TaskStatus::InProgress => "in_progress",
        TaskStatus::Done => "done",
        TaskStatus::Close => "close",
    }
}

pub open spec fn view_name(view: ViewMode) -> Seq<char> {
    match view {
        ViewMode::Todo => "todo"@,
        ViewMode::Archive => "archive"@,
        ViewMode::All => "all"@,
    }
}

pub fn format_view_name(view: ViewMode) -> (r: &'static str)
    ensures
        r@ == view_name(view),
{
    match view {
        ViewMode::Todo => "todo",
        ViewMode::Archive => "archive",
        ViewMode::All => "all",
    }
}

pub fn format_sort_name(sort: SortMode) -> (r: &'static str)
    ensures
        r@ == sort_text(sort),
{
    sort_label(sort)
}

pub open spec fn state_name(state: SpaceState) -> Seq<char> {
    match state {
        SpaceState::Active => "active"@,
        SpaceState::Archived => "archived"@,
    }
}

pub fn format_space_state(state: SpaceState) -> (r: &'static str)
    ensures
        r@ == state_name(state),
{
    match state {
        SpaceState::Active => "active",
        SpaceState::Archived => "archived",
    }
}

pub open spec fn bucket_name(bucket: TaskBucket) -> Seq<char> {
    match bucket {
        TaskBucket::Todo => "todo/"@,
        TaskBucket::Archive => "archive/"@,
    }
}

pub fn format_bucket(bucket: TaskBucket) -> (r: &'static str)
    ensures
        r@ == bucket_name(bucket),
{
    match bucket {
        TaskBucket::Todo => "todo/",
        TaskBucket::Archive => "archive/",
    }
}

pub open spec fn yes_no_text(value: bool) -> Seq<char> {
    if value {
        "yes"@
    } else {
        "no"@
    }
}

pub fn yes_no(value: bool) -> (r: &'static str)
    ensures
        r@ == yes_no_text(value),
{
    if value {
        "yes"
    } else {
        "no"
    }
}

/// The RFC 3339 text of an instant, as `time` formats it.
pub uninterp spec fn rfc3339(unix_nanos: i128) -> Seq<char>;

/// Calls `time::OffsetDateTime::from_unix_timestamp_nanos` and formats the
/// instant with the `Rfc3339` description, falling back to the `Display`
/// form of the instant (or of the number, for an instant out of range). The
/// text is named by `rfc3339` and depends on the number alone.
#[verifier::external_body]
pub fn format_timestamp(value: Timestamp) -> (r: String)
    ensures
        r@ == rfc3339(value.unix_nanos),
{
    match time::OffsetDateTime::from_unix_timestamp_nanos(value.unix_nanos) {
        Ok(at) => at.format(&time::format_description::well_known::Rfc3339).unwrap_or_else(|_| at.to_string()),
        Err(_) => value.unix_nanos.to_string(),
    }
}

// ---------------------------------------------------------------------------
// One-line results

/// `[short] name (id)` for a space.
pub open spec fn space_tag(s: SpaceView) -> Seq<char> {
    "["@ + short_id_of(s.id, space_prefix()) + "] "@ + s.name + " ("@ + s.id + ")"@
}

/// `[short] title (id)` for a task.
pub open spec fn task_tag(t: TaskView) -> Seq<char> {
    "["@ + short_id_of(t.id, task_prefix()) + "] "@ + t.title + " ("@ + t.id + ")"@
}

fn space_line(lead: &str, space: &Space) -> (r: String)
    requires
        short_id_defined(space@.id),
    ensures
        r@ == lead@ + space_tag(space@),
{
    let mut out = String::from_str(lead);
    out.append("[");
    out.append(space.id.short_id().as_str());
    out.append("] ");
    out.append(space.name.as_str());
    out.append(" (");
    out.append(space.id.as_str());
    out.append(")");
    proof {
        reveal_strlit("[");
        reveal_strlit("] ");
        reveal_strlit(" (");
        reveal_strlit(")");
    }
    assert(out@ =~= lead@ + space_tag(space@));
    out
}

fn task_line(lead: &str, task: &Task) -> (r: String)
    requires
        short_id_defined(task@.id),
    ensures
        r@ == lead@ + task_tag(task@),
{
    let mut out = String::from_str(lead);
    out.append("[");
    out.append(task.id.short_id().as_str());
    out.append("] ");
    out.append(task.title.as_str());
    out.append(" (");
    out.append(task.id.as_str());
    out.append(")");
    proof {
        reveal_strlit("[");
        reveal_strlit("] ");
        reveal_strlit(" (");
        reveal_strlit(")");
    }
    assert(out@ =~= lead@ + task_tag(task@));
    out
}

pub fn format_created_space(space: &Space) -> (r: String)
    requires
        short_id_defined(space@.id),
    ensures
        r@ == "Created space "@ + space_tag(space@),
{
    space_line("Created space ", space)
}

pub fn format_used_space(space: &Space) -> (r: String)
    requires
        short_id_defined(space@.id),
    ensures
        r@ == "Set current space to "@ + space_tag(space@),
{
    space_line("Set current space to ", space)
}

pub fn format_renamed_space(space: &Space) -> (r: String)
    requires
        short_id_defined(space@.id),
    ensures
        r@ == "Renamed space "@ + space_tag(space@),
{
    space_line("Renamed space ", space)
}

pub fn format_archived_space(space: &Space) -> (r: String)
    requires
        short_id_defined(space@.id),
    ensures
        r@ == "Archived space "@ + space_tag(space@),
{
    space_line("Archived space ", space)
}

pub fn format_restored_space(space: &Space) -> (r: String)
    requires
        short_id_defined(space@.id),
    ensures
        r@ == "Restored space "@ + space_tag(space@),
{
    space_line("Restored space ", space)
}

pub fn format_purged_space(space: &Space) -> (r: String)
    requires
        short_id_defined(space@.id),
    ensures
        r@ == "Purged space "@ + space_tag(space@),
{
    space_line("Purged space ", space)
}

pub fn format_created_task(task: &Task, space: &Space) -> (r: String)
    requires
        short_id_defined(task@.id),
    ensures
        r@ == "Created task "@ + task_tag(task@) + " in space "@ + space@.slug,
{
    let mut out = task_line("Created task ", task);
    out.append(" in space ");
    out.append(space.slug.as_str());
    out
}

pub fn format_updated_task(task: &Task) -> (r: String)
    requires
        short_id_defined(task@.id),
    ensures
        r@ == "Updated task "@ + task_tag(task@),
{
    task_line("Updated task ", task)
}

pub fn format_task_status(task: &Task) -> (r: String)
    requires
        short_id_defined(task@.id),
    ensures
        r@ == "Set task "@ + task_tag(task@) + " to "@ + status_name(task@.status)
            + (if task@.archived { " and archived"@ } else { ""@ }),
{
    let mut out = task_line("Set task ", task);
    out.append(" to ");
    out.append(format_task_status_name(task.status));
    let ghost before = out@;
    if task.archived {
        out.append(" and archived");
    } else {
        proof {
            reveal_strlit("");
        }
        assert(before =~= before + ""@);
    }
    out
}

pub fn format_logged_task(task: &Task) -> (r: String)
    requires
        short_id_defined(task@.id),
    ensures
        r@ == "Added log to task "@ + task_tag(task@),
{
    task_line("Added log to task ", task)
}

pub fn format_archived_task(task: &Task, affected_count: usize) -> (r: String)
    requires
        short_id_defined(task@.id),
    ensures
        r@ == "Archived task "@ + task_tag(task@) + " across "@ + decimal(affected_count as nat) + " task(s)"@,
{
    let mut out = task_line("Archived task ", task);
    out.append(" across ");
    push_decimal(&mut out, affected_count as u128);
    out.append(" task(s)");
    out
}

pub fn format_restored_task(task: &Task, affected_count: usize) -> (r: String)
    requires
        short_id_defined(task@.id),
    ensures
        r@ == "Restored task "@ + task_tag(task@) + " with status "@ + status_name(task@.status) + " across "@
            + decimal(affected_count as nat) + " task(s)"@,
{
    let mut out = task_line("Restored task ", task);
    out.append(" with status ");
    out.append(format_task_status_name(task.status));
    out.append(" across ");
    push_decimal(&mut out, affected_count as u128);
    out.append(" task(s)");
    out
}

pub fn format_purged_task(task: &Task, affected_count: usize) -> (r: String)
    requires
        short_id_defined(task@.id),
    ensures
        r@ == "Purged task "@ + task_tag(task@) + " across "@ + decimal(affected_count as nat) + " task(s)"@,
{
    let mut out = task_line("Purged task ", task);
    out.append(" across ");
    push_decimal(&mut out, affected_count as u128);
    out.append(" task(s)");
    out
}

// ---------------------------------------------------------------------------
// Multi-line reports

/// Lines joined by `\n`.
pub open spec fn join_lines(lines: Seq<Seq<char>>) -> Seq<char>
    decreases lines.len(),
{
    if lines.len() == 0 {
        Seq::empty()
    } else if lines.len() == 1 {
        lines[0]
    } else {
        join_lines(lines.drop_last()) + "\n"@ + lines.last()
    }
}

/// Appends `line` to text that holds the first `count` lines.
fn push_line(out: &mut String, line: &str, count: usize)
    ensures
        final(out)@ == if count == 0 { old(out)@ + line@ } else { old(out)@ + "\n"@ + line@ },
{
    if count > 0 {
        out.append("\n");
    }
    out.append(line);
    proof {
        if count == 0 {
            assert(old(out)@ + line@ == final(out)@);
        }
    }
}

proof fn lemma_join_push(lines: Seq<Seq<char>>, line: Seq<char>)
    ensures
        join_lines(lines.push(line)) == if lines.len() == 0 { line } else { join_lines(lines) + "\n"@ + line },
{
    assert(lines.push(line).drop_last() =~= lines);
    if lines.len() == 0 {
        assert(lines.push(line)[0] == line);
    }
}

/// One line of the issue list of the consistency check.
pub open spec fn issue_text(issue: DoctorIssueView) -> Seq<char> {
    match issue {
        DoctorIssueView::PendingOperation { operation_id, kind } =>
            "pending operation "@ + operation_id + " ("@ + kind.name() + ")"@,
        DoctorIssueView::MissingParent { task_id, parent_id } =>
            "task "@ + task_id + " has missing parent "@ + parent_id,
        DoctorIssueView::CrossSpaceParent { task_id, task_space_id, parent_id, parent_space_id } =>
            "task "@ + task_id + " in space "@ + task_space_id + " points to parent "@ + parent_id + " in space "@ + parent_space_id,
        DoctorIssueView::ParentCycle { task_id } => "task "@ + task_id + " participates in a parent cycle"@,
        DoctorIssueView::BucketStatusMismatch { task_id, bucket, archived } =>
            "task "@ + task_id + " is stored in "@ + bucket_name(bucket) + " but archived is "@ + yes_no_text(archived),
    }
}

pub fn format_doctor_issue(issue: &DoctorIssue) -> (r: String)
    ensures
        r@ == issue_text(issue@),
{
    match issue {
        DoctorIssue::PendingOperation { operation_id, kind } => {
            let mut out = String::from_str("pending operation ");
            out.append(operation_id.as_str());
            out.append(" (");
            out.append(kind.as_str());
            out.append(")");
            out
        },
        DoctorIssue::MissingParent { task_id, parent_id } => {
            let mut out = String::from_str("task ");
            out.append(task_id.as_str());
            out.append(" has missing parent ");
            out.append(parent_id.as_str());
            out
        },
        DoctorIssue::CrossSpaceParent { task_id, task_space_id, parent_id, parent_space_id } => {
            let mut out = String::from_str("task ");
            out.append(task_id.as_str());
            out.append(" in space ");
            out.append(task_space_id.as_str());
            out.append(" points to parent ");
            out.append(parent_id.as_str());
            out.append(" in space ");
            out.append(parent_space_id.as_str());
            out
        },
        DoctorIssue::ParentCycle { task_id } => {
            let mut out = String::from_str("task ");
            out.append(task_id.as_str());
            out.append(" participates in a parent cycle");
            out
        },
        DoctorIssue::BucketStatusMismatch { task_id, bucket, archived } => {
            let mut out = String::from_str("task ");
            out.append(task_id.as_str());
            out.append(" is stored in ");
            out.append(format_bucket(*bucket));
            out.append(" but archived is ");
            out.append(yes_no(*archived));
            out
        },
    }
}

/// The report of the consistency check.
pub open spec fn doctor_report_text(issues: Seq<DoctorIssueView>) -> Seq<char> {
    if issues.len() == 0 {
        "No problems found."@
    } else {
        join_lines(seq!["Problems found: "@ + decimal(issues.len())] + issues.map_values(|i: DoctorIssueView| "- "@ + issue_text(i)))
    }
}

pub fn render_doctor_report(report: &DoctorReport) -> (r: String)
    ensures
        r@ == doctor_report_text(views(report.issues@)),
{
    let ghost iv = views(report.issues@);
    if report.issues.len() == 0 {
        return String::from_str("No problems found.");
    }
    let mut out = String::from_str("Problems found: ");
    push_decimal(&mut out, report.issues.len() as u128);
    let ghost lines = seq!["Problems found: "@ + decimal(iv.len())] + iv.map_values(|i: DoctorIssueView| "- "@ + issue_text(i));
    assert(out@ == join_lines(lines.take(1)));
    let n = report.issues.len();
    let mut k: usize = 0;
    while k < n
        invariant
            n == report.issues@.len(),
            iv == views(report.issues@),
            lines == seq!["Problems found: "@ + decimal(iv.len())] + iv.map_values(|i: DoctorIssueView| "- "@ + issue_text(i)),
            k <= n,
            out@ == join_lines(lines.take(k + 1)),
        decreases n - k,
    {
        let mut line = String::from_str("- ");
        let text = format_doctor_issue(&report.issues[k]);
        line.append(text.as_str());
        push_line(&mut out, line.as_str(), 1);
        proof {
            assert(lines.take(k + 2) =~= lines.take(k + 1).push(lines[k + 1]));
            assert(lines[k + 1] == "- "@ + issue_text(iv[k as int]));
            assert(iv[k as int] == report.issues@[k as int]@);
            lemma_join_push(lines.take(k + 1), lines[k + 1]);
        }
        k = k + 1;
    }
    assert(lines.take(n + 1) =~= lines);
    out
}

/// One line of the space listing.
pub open spec fn space_summary_line(item: SpaceSummaryView) -> Seq<char> {
    (if item.is_current { "*"@ } else { "-"@ }) + " "@ + item.space.name + " ["@ + short_id_of(item.space.id, space_prefix())
        + "] slug: "@ + item.space.slug + " state: "@ + state_name(item.space.state) + " tasks: "@
        + decimal(item.counts.todo_tasks as nat) + " active / "@ + decimal(item.counts.archived_tasks as nat) + " archived"@
}

pub open spec fn spaces_text(items: Seq<SpaceSummaryView>) -> Seq<char> {
    if items.len() == 0 {
        "No spaces found."@
    } else {
        join_lines(items.map_values(|i: SpaceSummaryView| space_summary_line(i)))
    }
}

fn summary_line(item: &SpaceSummary) -> (r: String)
    requires
        short_id_defined(item@.space.id),
    ensures
        r@ == space_summary_line(item@),
{
    let mut out = String::from_str(if item.is_current { "*" } else { "-" });
    out.append(" ");
    out.append(item.space.name.as_str());
    out.append(" [");
    out.append(item.space.id.short_id().as_str());
    out.append("] slug: ");
    out.append(item.space.slug.as_str());
    out.append(" state: ");
    out.append(format_space_state(item.space.state));
    out.append(" tasks: ");
    push_decimal(&mut out, item.counts.todo_tasks as u128);
    out.append(" active / ");
    push_decimal(&mut out, item.counts.archived_tasks as u128);
    out.append(" archived");
    out
}

/// The space listing, one line per space.
pub fn render_spaces(items: &Vec<SpaceSummary>) -> (r: String)
    requires
        forall|i: int| 0 <= i < items@.len() ==> short_id_defined(#[trigger] items@[i]@.space.id),
    ensures
        r@ == spaces_text(views(items@)),
{
    let ghost iv = views(items@);
    if items.len() == 0 {
        return String::from_str("No spaces found.");
    }
    let ghost lines = iv.map_values(|i: SpaceSummaryView| space_summary_line(i));
    let mut out = String::new();
    let n = items.len();
    let mut k: usize = 0;
    assert(out@ == join_lines(lines.take(0)));
    while k < n
        invariant
            n == items@.len(),
            iv == views(items@),
            lines == iv.map_values(|i: SpaceSummaryView| space_summary_line(i)),
            forall|i: int| 0 <= i < items@.len() ==> short_id_defined(#[trigger] items@[i]@.space.id),
            k <= n,
            out@ == join_lines(lines.take(k as int)),
        decreases n - k,
    {
        let line = summary_line(&items[k]);
        push_line(&mut out, line.as_str(), k);
        proof {
            assert(lines.take(k + 1) =~= lines.take(k as int).push(lines[k as int]));
            assert(iv[k as int] == items@[k as int]@);
            lemma_join_push(lines.take(k as int), lines[k as int]);
        }
        k = k + 1;
    }
    assert(lines.take(n as int) =~= lines);
    out
}

/// Two spaces per level of depth.
pub open spec fn indent(depth: nat) -> Seq<char>
    decreases depth,
{
    if depth == 0 {
        Seq::empty()
    } else {
        indent((depth - 1) as nat) + "  "@
    }
}

/// The check box of a listed task: `[a]` while it is archived, else its status.
pub open spec fn listing_marker(t: TaskView) -> Seq<char> {
    if t.archived {
        "[a]"@
    } else {
        marker_text(t.status)
    }
}

/// One line of the task listing.
pub open spec fn entry_line(e: TaskListEntryView) -> Seq<char> {
    indent(e.depth) + (if e.depth == 0 { ""@ } else { "- "@ }) + listing_marker(e.task) + " "@ + e.task.title
        + " ["@ + short_id_of(e.task.id, task_prefix()) + "]"@
}

pub open spec fn task_list_text(space: SpaceView, view: ViewMode, sort: SortMode, entries: Seq<TaskListEntryView>) -> Seq<char> {
    let head = seq![
        "Space: "@ + space.name + " ["@ + short_id_of(space.id, space_prefix()) + "]"@,
        "View: "@ + view_name(view),
        "Sort: "@ + sort_text(sort),
        Seq::empty(),
    ];
    if entries.len() == 0 {
        join_lines(head.push("No tasks found."@))
    } else {
        join_lines(head + entries.map_values(|e: TaskListEntryView| entry_line(e)))
    }
}

fn entry_text(entry: &crate::queries::TaskListEntry) -> (r: String)
    requires
        short_id_defined(entry@.task.id),
    ensures
        r@ == entry_line(entry@),
{
    let mut out = String::new();
    let mut d: usize = 0;
    while d < entry.depth
        invariant
            d <= entry.depth,
            out@ == indent(d as nat),
        decreases entry.depth - d,
    {
        out.append("  ");
        d = d + 1;
    }
    if entry.depth != 0 {
        out.append("- ");
    } else {
        proof {
            reveal_strlit("");
        }
        assert(out@ =~= out@ + ""@);
    }
    if entry.task.archived {
        out.append("[a]");
    } else {
        out.append(status_marker(entry.task.status));
    }
    out.append(" ");
    out.append(entry.task.title.as_str());
    out.append(" [");
    out.append(entry.task.id.short_id().as_str());
    out.append("]");
    out
}

/// The task listing of a space.
pub fn render_task_list(result: &TaskListResult) -> (r: String)
    requires
        short_id_defined(result.space@.id),
        forall|i: int| 0 <= i < result.entries@.len() ==> short_id_defined(#[trigger] result.entries@[i]@.task.id),
    ensures
        r@ == task_list_text(result.space@, result.view, result.sort, views(result.entries@)),
{
    let ghost ev = views(result.entries@);
    let ghost head = seq![
        "Space: "@ + result.space@.name + " ["@ + short_id_of(result.space@.id, space_prefix()) + "]"@,
        "View: "@ + view_name(result.view),
        "Sort: "@ + sort_text(result.sort),
        Seq::<char>::empty(),
    ];
    let mut out = String::from_str("Space: ");
    out.append(result.space.name.as_str());
    out.append(" [");
    out.append(result.space.id.short_id().as_str());
    out.append("]");
    proof {
        lemma_join_push(Seq::empty(), head[0]);
        assert(head.take(1) =~= Seq::<Seq<char>>::empty().push(head[0]));
    }
    let mut view_line = String::from_str("View: ");
    view_line.append(format_view_name(result.view));
    push_line(&mut out, view_line.as_str(), 1);
    proof {
        lemma_join_push(head.take(1), head[1]);
        assert(head.take(2) =~= head.take(1).push(head[1]));
    }
    let mut sort_line = String::from_str("Sort: ");
    sort_line.append(format_sort_name(result.sort));
    push_line(&mut out, sort_line.as_str(), 2);
    proof {
        lemma_join_push(head.take(2), head[2]);
        assert(head.take(3) =~= head.take(2).push(head[2]));
    }
    push_line(&mut out, "", 3);
    proof {
        reveal_strlit("");
        lemma_join_push(head.take(3), head[3]);
        assert(head.take(4) =~= head.take(3).push(head[3]));
        assert(head.take(4) =~= head);
    }
    assert(out@ == join_lines(head));
    if result.entries.len() == 0 {
        push_line(&mut out, "No tasks found.", 4);
        proof {
            lemma_join_push(head, "No tasks found."@);
        }
        return out;
    }
    let ghost lines = head + ev.map_values(|e: TaskListEntryView| entry_line(e));
    let n = result.entries.len();
    let mut k: usize = 0;
    assert(lines.take(4) =~= head);
    while k < n
        invariant
            n == result.entries@.len(),
            ev == views(result.entries@),
            lines == head + ev.map_values(|e: TaskListEntryView| entry_line(e)),
            head.len() == 4,
            forall|i: int| 0 <= i < result.entries@.len() ==> short_id_defined(#[trigger] result.entries@[i]@.task.id),
            k <= n,
            out@ == join_lines(lines.take(k + 4)),
        decreases n - k,
    {
        let line = entry_text(&result.entries[k]);
        push_line(&mut out, line.as_str(), 1);
        proof {
            assert(lines.take(k + 5) =~= lines.take(k + 4).push(lines[k + 4]));
            assert(lines[k + 4] == entry_line(ev[k as int]));
            assert(ev[k as int] == result.entries@[k as int]@);
            lemma_join_push(lines.take(k + 4), lines[k + 4]);
        }
        k = k + 1;
    }
    assert(lines.take(n + 4) =~= lines);
    out
}

// ---------------------------------------------------------------------------
// Detail views

/// Items joined by a separator.
pub open spec fn join_sep(items: Seq<Seq<char>>, sep: Seq<char>) -> Seq<char>
    decreases items.len(),
{
    if items.len() == 0 {
        Seq::empty()
    } else if items.len() == 1 {
        items[0]
    } else {
        join_sep(items.drop_last(), sep) + sep + items.last()
    }
}

pub fn join_strings(parts: &Vec<String>, sep: &str) -> (r: String)
    ensures
        r@ == join_sep(views(parts@), sep@),
{
    let ghost pv = views(parts@);
    let mut out = String::new();
    let n = parts.len();
    let mut k: usize = 0;
    assert(pv.take(0) =~= Seq::<Seq<char>>::empty());
    while k < n
        invariant
            n == parts@.len(),
            pv == views(parts@),
            k <= n,
            out@ == join_sep(pv.take(k as int), sep@),
        decreases n - k,
    {
        proof {
            assert(pv.take(k + 1).drop_last() =~= pv.take(k as int));
            assert(pv.take(k + 1).last() == pv[k as int]);
            assert(pv[k as int] == parts@[k as int]@);
        }
        if k > 0 {
            out.append(sep);
        } else {
            assert(pv.take(1)[0] == pv[0]);
        }
        out.append(parts[k].as_str());
        k = k + 1;
    }
    assert(pv.take(n as int) =~= pv);
    out
}

fn labeled(label: &str, value: &str) -> (r: String)
    ensures
        r@ == label@ + value@,
{
    let mut out = String::from_str(label);
    out.append(value);
    out
}

/// The detail view of a space.
pub open spec fn space_details_text(space: SpaceView, todo: usize, archived: usize, is_current: bool) -> Seq<char> {
    join_sep(seq![
        "Name: "@ + space.name,
        "Space ID: "@ + space.id,
        "Short ID: "@ + short_id_of(space.id, space_prefix()),
        "Slug: "@ + space.slug,
        "State: "@ + state_name(space.state),
        "Current: "@ + yes_no_text(is_current),
        "Tasks: "@ + decimal(todo as nat) + " active / "@ + decimal(archived as nat) + " archived"@,
        "Created: "@ + rfc3339(space.created_at.unix_nanos),
        "Updated: "@ + rfc3339(space.updated_at.unix_nanos),
    ], "\n"@)
}

pub fn render_space(details: &SpaceDetails) -> (r: String)
    requires
        short_id_defined(details.space@.id),
    ensures
        r@ == space_details_text(details.space@, details.counts.todo_tasks, details.counts.archived_tasks, details.is_current),
{
    let space = &details.space;
    let mut lines: Vec<String> = Vec::new();
    lines.push(labeled("Name: ", space.name.as_str()));
    lines.push(labeled("Space ID: ", space.id.as_str()));
    lines.push(labeled("Short ID: ", space.id.short_id().as_str()));
    lines.push(labeled("Slug: ", space.slug.as_str()));
    lines.push(labeled("State: ", format_space_state(space.state)));
    lines.push(labeled("Current: ", yes_no(details.is_current)));
    let mut tasks = String::from_str("Tasks: ");
    push_decimal(&mut tasks, details.counts.todo_tasks as u128);
    tasks.append(" active / ");
    push_decimal(&mut tasks, details.counts.archived_tasks as u128);
    tasks.append(" archived");
    lines.push(tasks);
    lines.push(labeled("Created: ", format_timestamp(space.created_at).as_str()));
    lines.push(labeled("Updated: ", format_timestamp(space.updated_at).as_str()));
    assert(views(lines@) =~= seq![
        "Name: "@ + space@.name,
        "Space ID: "@ + space@.id,
        "Short ID: "@ + short_id_of(space@.id, space_prefix()),
        "Slug: "@ + space@.slug,
        "State: "@ + state_name(space@.state),
        "Current: "@ + yes_no_text(details.is_current),
        "Tasks: "@ + decimal(details.counts.todo_tasks as nat) + " active / "@ + decimal(details.counts.archived_tasks as nat) + " archived"@,
        "Created: "@ + rfc3339(space@.created_at.unix_nanos),
        "Updated: "@ + rfc3339(space@.updated_at.unix_nanos),
    ]);
    join_strings(&lines, "\n")
}

pub open spec fn child_text(t: TaskView) -> Seq<char> {
    marker_text(t.status) + " "@ + t.title + " ["@ + short_id_of(t.id, task_prefix()) + "]"@
}

pub open spec fn log_text(l: TaskLogView) -> Seq<char> {
    "- "@ + rfc3339(l.at.unix_nanos) + " "@ + l.message
}

/// The detail view of a task.
pub open spec fn task_details_text(task: TaskView, space: SpaceView, parent: Option<TaskView>, children: Seq<TaskView>, logs: Seq<TaskLogView>) -> Seq<char> {
    let parent_text = match parent {
        Some(p) => p.title + " ["@ + short_id_of(p.id, task_prefix()) + "]"@,
        None => "-"@,
    };
    let children_text = if children.len() == 0 { "-"@ } else { join_sep(children.map_values(|c: TaskView| child_text(c)), ", "@) };
    let description = match task.description {
        Some(d) => d,
        None => "-"@,
    };
    let logs_text = if logs.len() == 0 { "-"@ } else { join_sep(logs.map_values(|l: TaskLogView| log_text(l)), "\n"@) };
    join_sep(seq![
        "Title: "@ + task.title,
        "Task ID: "@ + task.id,
        "Short ID: "@ + short_id_of(task.id, task_prefix()),
        "Space: "@ + space.name + " ["@ + short_id_of(space.id, space_prefix()) + "] ("@ + space.slug + ")"@,
        "Status: "@ + status_name(task.status),
        "Archived: "@ + yes_no_text(task.archived),
        "Parent: "@ + parent_text,
        "Children: "@ + children_text,
        "Created: "@ + rfc3339(task.created_at.unix_nanos),
        "Updated: "@ + rfc3339(task.updated_at.unix_nanos),
        "Description: "@ + description,
        "Recent Logs:"@,
        logs_text,
    ], "\n"@)
}

fn child_line(t: &Task) -> (r: String)
    requires
        short_id_defined(t@.id),
    ensures
        r@ == child_text(t@),
{
    let mut out = String::from_str(status_marker(t.status));
    out.append(" ");
    out.append(t.title.as_str());
    out.append(" [");
    out.append(t.id.short_id().as_str());
    out.append("]");
    out
}

fn log_line(l: &TaskLog) -> (r: String)
    ensures
        r@ == log_text(l@),
{
    let mut out = String::from_str("- ");
    out.append(format_timestamp(l.at).as_str());
    out.append(" ");
    out.append(l.message.as_str());
    out
}

pub fn render_task(details: &TaskDetails) -> (r: String)
    requires
        short_id_defined(details.task@.id),
        short_id_defined(details.space@.id),
        details.parent matches Some(p) ==> short_id_defined(p@.id),
        forall|i: int| 0 <= i < details.children@.len() ==> short_id_defined(#[trigger] details.children@[i]@.id),
    ensures
        r@ == task_details_text(details.task@, details.space@, crate::util::opt_view(details.parent), views(details.children@), views(details.logs@)),
{
    let task = &details.task;
    let space = &details.space;
    let parent_text = match &details.parent {
        Some(p) => {
            let mut out = String::new();
            out.append(p.title.as_str());
            out.append(" [");
            out.append(p.id.short_id().as_str());
            out.append("]");
            out
        },
        None => String::from_str("-"),
    };
    let ghost cv = views(details.children@);
    let children_text = if details.children.len() == 0 {
        String::from_str("-")
    } else {
        let mut parts: Vec<String> = Vec::new();
        let n = details.children.len();
        let mut k: usize = 0;
        while k < n
            invariant
                n == details.children@.len(),
                cv == views(details.children@),
                forall|i: int| 0 <= i < details.children@.len() ==> short_id_defined(#[trigger] details.children@[i]@.id),
                k <= n,
                views(parts@) == cv.map_values(|c: TaskView| child_text(c)).take(k as int),
            decreases n - k,
        {
            let line = child_line(&details.children[k]);
            let ghost before = views(parts@);
            parts.push(line);
            assert(cv[k as int] == details.children@[k as int]@);
            assert(views(parts@) =~= before.push(child_text(cv[k as int])));
            assert(views(parts@) =~= cv.map_values(|c: TaskView| child_text(c)).take(k + 1));
            k = k + 1;
        }
        assert(cv.map_values(|c: TaskView| child_text(c)).take(n as int) =~= cv.map_values(|c: TaskView| child_text(c)));
        join_strings(&parts, ", ")
    };
    let description = match &task.description {
        Some(d) => d.clone(),
        None => String::from_str("-"),
    };
    let ghost lv = views(details.logs@);
    let logs_text = if details.logs.len() == 0 {
        String::from_str("-")
    } else {
        let mut parts: Vec<String> = Vec::new();
        let n = details.logs.len();
        let mut k: usize = 0;
        while k < n
            invariant
                n == details.logs@.len(),
                lv == views(details.logs@),
                k <= n,
                views(parts@) == lv.map_values(|l: TaskLogView| log_text(l)).take(k as int),
            decreases n - k,
        {
            let line = log_line(&details.logs[k]);
            let ghost before = views(parts@);
            parts.push(line);
            assert(lv[k as int] == details.logs@[k as int]@);
            assert(views(parts@) =~= before.push(log_text(lv[k as int])));
            assert(views(parts@) =~= lv.map_values(|l: TaskLogView| log_text(l)).take(k + 1));
            k = k + 1;
        }
        assert(lv.map_values(|l: TaskLogView| log_text(l)).take(n as int) =~= lv.map_values(|l: TaskLogView| log_text(l)));
        join_strings(&parts, "\n")
    };
    let mut space_line = String::from_str("Space: ");
    space_line.append(space.name.as_str());
    space_line.append(" [");
    space_line.append(space.id.short_id().as_str());
    space_line.append("] (");
    space_line.append(space.slug.as_str());
    space_line.append(")");
    let mut lines: Vec<String> = Vec::new();
    lines.push(labeled("Title: ", task.title.as_str()));
    lines.push(labeled("Task ID: ", task.id.as_str()));
    lines.push(labeled("Short ID: ", task.id.short_id().as_str()));
    lines.push(space_line);
    lines.push(labeled("Status: ", format_task_status_name(task.status)));
    lines.push(labeled("Archived: ", yes_no(task.archived)));
    lines.push(labeled("Parent: ", parent_text.as_str()));
    lines.push(labeled("Children: ", children_text.as_str()));
    lines.push(labeled("Created: ", format_timestamp(task.created_at).as_str()));
    lines.push(labeled("Updated: ", format_timestamp(task.updated_at).as_str()));
    lines.push(labeled("Description: ", description.as_str()));
    lines.push(String::from_str("Recent Logs:"));
    lines.push(logs_text);
    let ghost expected = task_details_text(task@, space@, crate::util::opt_view(details.parent), cv, lv);
    assert(views(lines@) =~= seq![
        "Title: "@ + task@.title,
        "Task ID: "@ + task@.id,
        "Short ID: "@ + short_id_of(task@.id, task_prefix()),
        "Space: "@ + space@.name + " ["@ + short_id_of(space@.id, space_prefix()) + "] ("@ + space@.slug + ")"@,
        "Status: "@ + status_name(task@.status),
        "Archived: "@ + yes_no_text(task@.archived),
        "Parent: "@ + parent_text@,
        "Children: "@ + children_text@,
        "Created: "@ + rfc3339(task@.created_at.unix_nanos),
        "Updated: "@ + rfc3339(task@.updated_at.unix_nanos),
        "Description: "@ + description@,
        "Recent Logs:"@,
        logs_text@,
    ]);
    join_strings(&lines, "\n")
}

} // verus!
