//! Query inputs and the results handed back to interfaces.

use vstd::prelude::*;
use crate::ids::{SpaceId, TaskId};
use crate::model::{PendingOperationKind, SortMode, Space, SpaceCounts, SpaceView, Task, TaskLog, TaskLogView, TaskView, ViewMode};
use crate::repository::TaskBucket;
use crate::util::views;

verus! {

#[derive(Debug)]
pub struct ListSpacesQuery {
    pub include_archived: bool,
}

#[derive(Debug)]
pub struct ShowSpaceQuery {
    pub space_ref: String,
}

#[derive(Debug)]
pub struct ListTasksQuery {
    pub space_ref: Option<String>,
    pub view: Option<ViewMode>,
    pub sort: Option<SortMode>,
    pub allow_archived_space: bool,
}

#[derive(Debug)]
pub struct ShowTaskQuery {
    pub task_ref: String,
}

#[derive(Debug)]
pub struct SpaceSummary {
    pub space: Space,
    pub counts: SpaceCounts,
    pub is_current: bool,
}

#[derive(Debug)]
pub struct SpaceDetails {
    pub space: Space,
    pub counts: SpaceCounts,
    pub is_current: bool,
}

#[derive(Debug)]
pub struct TaskListEntry {
    pub task: Task,
    pub depth: usize,
    pub child_count: usize,
}

#[derive(Debug)]
pub struct TaskListResult {
    pub space: Space,
    pub view: ViewMode,
    pub sort: SortMode,
    pub entries: Vec<TaskListEntry>,
}

#[derive(Debug)]
pub struct TaskDetails {
    pub task: Task,
    pub space: Space,
    pub parent: Option<Task>,
    pub children: Vec<Task>,
    pub logs: Vec<TaskLog>,
}

#[derive(Debug)]
pub struct OperationOutcome {
    pub root_task: Option<Task>,
    pub root_space: Option<Space>,
    pub affected_count: usize,
}

#[derive(Debug)]
pub struct DoctorReport {
    pub issues: Vec<DoctorIssue>,
}

#[derive(Debug)]
pub enum DoctorIssue {
    PendingOperation { operation_id: String, kind: PendingOperationKind },
    MissingParent { task_id: TaskId, parent_id: TaskId },
    CrossSpaceParent { task_id: TaskId, task_space_id: SpaceId, parent_id: TaskId, parent_space_id: SpaceId },
    ParentCycle { task_id: TaskId },
    BucketStatusMismatch { task_id: TaskId, bucket: TaskBucket, archived: bool },
}

pub struct SpaceSummaryView {
    pub space: SpaceView,
    pub counts: SpaceCounts,
    pub is_current: bool,
}

impl View for SpaceSummary {
    type V = SpaceSummaryView;

    open spec fn view(&self) -> SpaceSummaryView {
        SpaceSummaryView { space: self.space@, counts: self.counts, is_current: self.is_current }
    }
}

pub enum DoctorIssueView {
    PendingOperation { operation_id: Seq<char>, kind: PendingOperationKind },
    MissingParent { task_id: Seq<char>, parent_id: Seq<char> },
    CrossSpaceParent { task_id: Seq<char>, task_space_id: Seq<char>, parent_id: Seq<char>, parent_space_id: Seq<char> },
    ParentCycle { task_id: Seq<char> },
    BucketStatusMismatch { task_id: Seq<char>, bucket: TaskBucket, archived: bool },
}

impl View for DoctorIssue {
    type V = DoctorIssueView;

    open spec fn view(&self) -> DoctorIssueView {
        match self {
            DoctorIssue::PendingOperation { operation_id, kind } => DoctorIssueView::PendingOperation {
                operation_id: operation_id@,
                kind: *kind,
            },
            DoctorIssue::MissingParent { task_id, parent_id } => DoctorIssueView::MissingParent {
                task_id: task_id@,
                parent_id: parent_id@,
            },
            DoctorIssue::CrossSpaceParent { task_id, task_space_id, parent_id, parent_space_id } => DoctorIssueView::CrossSpaceParent {
                task_id: task_id@,
                task_space_id: task_space_id@,
                parent_id: parent_id@,
                parent_space_id: parent_space_id@,
            },
            DoctorIssue::ParentCycle { task_id } => DoctorIssueView::ParentCycle { task_id: task_id@ },
            DoctorIssue::BucketStatusMismatch { task_id, bucket, archived } => DoctorIssueView::BucketStatusMismatch {
                task_id: task_id@,
                bucket: *bucket,
                archived: *archived,
            },
        }
    }
}

pub struct TaskListEntryView {
    pub task: TaskView,
    pub depth: nat,
    pub child_count: nat,
}

impl View for TaskListEntry {
    type V = TaskListEntryView;

    open spec fn view(&self) -> TaskListEntryView {
        TaskListEntryView { task: self.task@, depth: self.depth as nat, child_count: self.child_count as nat }
    }
}

impl Clone for TaskListEntry {
    fn clone(&self) -> (r: Self)
        ensures
            r@ == self@,
    {
        TaskListEntry { task: self.task.clone(), depth: self.depth, child_count: self.child_count }
    }
}

} // verus!
