//! The errors the services report.

use vstd::prelude::*;
use crate::ids::{IdError, IdErrorKind, IdErrorView, SpaceId, TaskId};
use crate::model::PendingOperationKind;
use crate::refs::{RefOutcome, ReferenceError};
use crate::repository::StorageError;
use crate::validation::ValidationError;

verus! {

#[derive(Debug)]
pub enum AppError {
    Storage(StorageError),
    Id(IdError),
    Reference(ReferenceError),
    Validation(ValidationError),
    /// An edit named no field to change.
    NoTaskChanges,
    /// No space was named and none is current.
    MissingCurrentSpace,
    /// The space (by id) is archived and cannot be changed.
    ArchivedSpace(String),
    /// A new parent lives in another space than the one asked for.
    ParentSpaceMismatch { parent_id: TaskId, parent_space_id: SpaceId, target_space_id: SpaceId },
    /// The new parent lies in the task's own subtree.
    TaskParentCycle { task_id: TaskId, parent_id: TaskId },
    /// Moving a task to another space would part it from its parent.
    CrossSpaceParentMismatch {
        task_id: TaskId,
        parent_id: TaskId,
        parent_space_id: SpaceId,
        target_space_id: SpaceId,
    },
    /// A task with open subtasks cannot be finished.
    OpenSubtasks { task_id: TaskId, open_count: usize },
    /// Restore and purge apply to archived tasks only.
    TaskMustBeArchived { task_id: TaskId, action: &'static str },
    /// A task cannot be restored below an archived ancestor.
    TaskRestoreBlockedByArchivedAncestor { task_id: TaskId, ancestor_id: TaskId },
    /// A task with subtasks is purged only when asked to purge recursively.
    TaskPurgeRequiresRecursive { task_id: TaskId, child_count: usize },
    /// Every task of a purged subtree must be archived.
    TaskPurgeRequiresArchivedSubtree { task_id: TaskId, offender_id: TaskId },
    /// The task is already first (or last) among its siblings.
    TaskReorderBoundary { task_id: TaskId, direction: &'static str },
    /// Restore and purge apply to archived spaces only.
    SpaceMustBeArchived { space_id: SpaceId, action: &'static str },
    /// An earlier multi-step operation has not been completed.
    PendingOperationInProgress { operation_id: String, kind: PendingOperationKind },
    /// The stored data holds an id without a short form, or a position at
    /// the largest `i64`, which the interfaces cannot work with.
    UnsupportedData,
}

impl AppError {
    /// The process exit code for the error: 5 when the command was refused
    /// for want of something the user must supply (a current space, or
    /// `--recursive` for a purge), 1 otherwise.
    pub fn exit_code(&self) -> (r: u8)
        ensures
            r == (if *self is MissingCurrentSpace || *self is TaskPurgeRequiresRecursive { 5u8 } else { 1u8 }),
    {
        match self {
            AppError::MissingCurrentSpace => 5,
            AppError::TaskPurgeRequiresRecursive { .. } => 5,
            _ => 1,
        }
    }

    /// The suggestion shown next to the message of the errors a user can fix
    /// with a command.
    pub open spec fn hint_text(self) -> Option<Seq<char>> {
        match self {
            AppError::MissingCurrentSpace => Some(
                "create a space with `todo space add <NAME>` or pick one with `todo space use <SPACE>`"@,
            ),
            AppError::ArchivedSpace(_) => Some("restore the space with `todo space restore <SPACE>` first"@),
            AppError::TaskPurgeRequiresRecursive { .. } => Some("pass `--recursive` to purge the whole subtree"@),
            AppError::OpenSubtasks { .. } => Some("finish or close every subtask first"@),
            _ => None,
        }
    }

    pub fn hint(&self) -> (r: Option<&'static str>)
        ensures
            match r {
                Some(h) => self.hint_text() == Some(h@),
                None => self.hint_text() is None,
            },
    {
        match self {
            AppError::MissingCurrentSpace => Some(
                "create a space with `todo space add <NAME>` or pick one with `todo space use <SPACE>`",
            ),
            AppError::ArchivedSpace(_) => Some("restore the space with `todo space restore <SPACE>` first"),
            AppError::TaskPurgeRequiresRecursive { .. } => Some("pass `--recursive` to purge the whole subtree"),
            AppError::OpenSubtasks { .. } => Some("finish or close every subtask first"),
            _ => None,
        }
    }
}

// ---------------------------------------------------------------------------
// Views of the errors, as contracts speak of them

pub enum StorageErrorView {
    Io { path: Seq<char>, message: Seq<char> },
    RonSerialize { message: Seq<char> },
    RonDeserialize { message: Seq<char> },
    PathResolution(Seq<char>),
    TaskNotFound(Seq<char>),
    SpaceNotFound(Seq<char>),
}

impl View for StorageError {
    type V = StorageErrorView;

    open spec fn view(&self) -> StorageErrorView {
        match self {
            StorageError::Io { path, message } => StorageErrorView::Io { path: path@, message: message@ },
            StorageError::RonSerialize { message } => StorageErrorView::RonSerialize { message: message@ },
            StorageError::RonDeserialize { message } => StorageErrorView::RonDeserialize { message: message@ },
            StorageError::PathResolution(m) => StorageErrorView::PathResolution(m@),
            StorageError::TaskNotFound(m) => StorageErrorView::TaskNotFound(m@),
            StorageError::SpaceNotFound(m) => StorageErrorView::SpaceNotFound(m@),
        }
    }
}

/// A reference error as what resolving came to and the text resolved.
pub struct RefErrorView {
    pub for_space: bool,
    pub outcome: RefOutcome,
    pub input: Seq<char>,
    /// The id error in full, for a malformed reference.
    pub invalid: Option<IdErrorView>,
}

impl View for ReferenceError {
    type V = RefErrorView;

    open spec fn view(&self) -> RefErrorView {
        match self {
            ReferenceError::InvalidId(e) => RefErrorView {
                for_space: false,
                outcome: RefOutcome::Invalid(e.kind_of()),
                input: e.value_of(),
                invalid: Some(e@),
            },
            ReferenceError::AmbiguousTaskReference { input, matches } => RefErrorView {
                for_space: false,
                outcome: RefOutcome::Ambiguous(crate::util::views(matches@)),
                input: input@,
                invalid: None,
            },
            ReferenceError::AmbiguousSpaceReference { input, matches } => RefErrorView {
                for_space: true,
                outcome: RefOutcome::Ambiguous(crate::util::views(matches@)),
                input: input@,
                invalid: None,
            },
            ReferenceError::TaskNotFound(s) => RefErrorView { for_space: false, outcome: RefOutcome::NotFound, input: s@, invalid: None },
            ReferenceError::SpaceNotFound(s) => RefErrorView { for_space: true, outcome: RefOutcome::NotFound, input: s@, invalid: None },
        }
    }
}

pub enum ValidationErrorView {
    EmptyTaskTitle,
    EmptySpaceName,
    SelfParent { task_id: Seq<char> },
}

impl View for ValidationError {
    type V = ValidationErrorView;

    open spec fn view(&self) -> ValidationErrorView {
        match self {
            ValidationError::EmptyTaskTitle => ValidationErrorView::EmptyTaskTitle,
            ValidationError::EmptySpaceName => ValidationErrorView::EmptySpaceName,
            ValidationError::SelfParent { task_id } => ValidationErrorView::SelfParent { task_id: task_id@ },
        }
    }
}

pub enum AppErrorView {
    Storage(StorageErrorView),
    Id(IdErrorView),
    Reference(RefErrorView),
    Validation(ValidationErrorView),
    NoTaskChanges,
    MissingCurrentSpace,
    ArchivedSpace(Seq<char>),
    ParentSpaceMismatch { parent_id: Seq<char>, parent_space_id: Seq<char>, target_space_id: Seq<char> },
    TaskParentCycle { task_id: Seq<char>, parent_id: Seq<char> },
    CrossSpaceParentMismatch { task_id: Seq<char>, parent_id: Seq<char>, parent_space_id: Seq<char>, target_space_id: Seq<char> },
    OpenSubtasks { task_id: Seq<char>, open_count: nat },
    TaskMustBeArchived { task_id: Seq<char>, action: Seq<char> },
    TaskRestoreBlockedByArchivedAncestor { task_id: Seq<char>, ancestor_id: Seq<char> },
    TaskPurgeRequiresRecursive { task_id: Seq<char>, child_count: nat },
    TaskPurgeRequiresArchivedSubtree { task_id: Seq<char>, offender_id: Seq<char> },
    TaskReorderBoundary { task_id: Seq<char>, direction: Seq<char> },
    SpaceMustBeArchived { space_id: Seq<char>, action: Seq<char> },
    PendingOperationInProgress { operation_id: Seq<char>, kind: PendingOperationKind },
    UnsupportedData,
}

impl View for AppError {
    type V = AppErrorView;

    open spec fn view(&self) -> AppErrorView {
        match self {
            AppError::Storage(e) => AppErrorView::Storage(e@),
            AppError::Id(e) => AppErrorView::Id(e@),
            AppError::Reference(e) => AppErrorView::Reference(e@),
            AppError::Validation(e) => AppErrorView::Validation(e@),
            AppError::NoTaskChanges => AppErrorView::NoTaskChanges,
            AppError::MissingCurrentSpace => AppErrorView::MissingCurrentSpace,
            AppError::ArchivedSpace(s) => AppErrorView::ArchivedSpace(s@),
            AppError::ParentSpaceMismatch { parent_id, parent_space_id, target_space_id } => AppErrorView::ParentSpaceMismatch {
                parent_id: parent_id@,
                parent_space_id: parent_space_id@,
                target_space_id: target_space_id@,
            },
            AppError::TaskParentCycle { task_id, parent_id } => AppErrorView::TaskParentCycle { task_id: task_id@, parent_id: parent_id@ },
            AppError::CrossSpaceParentMismatch { task_id, parent_id, parent_space_id, target_space_id } => AppErrorView::CrossSpaceParentMismatch {
                task_id: task_id@,
                parent_id: parent_id@,
                parent_space_id: parent_space_id@,
                target_space_id: target_space_id@,
            },
            AppError::OpenSubtasks { task_id, open_count } => AppErrorView::OpenSubtasks { task_id: task_id@, open_count: *open_count as nat },
            AppError::TaskMustBeArchived { task_id, action } => AppErrorView::TaskMustBeArchived { task_id: task_id@, action: action@ },
            AppError::TaskRestoreBlockedByArchivedAncestor { task_id, ancestor_id } => AppErrorView::TaskRestoreBlockedByArchivedAncestor {
                task_id: task_id@,
                ancestor_id: ancestor_id@,
            },
            AppError::TaskPurgeRequiresRecursive { task_id, child_count } => AppErrorView::TaskPurgeRequiresRecursive {
                task_id: task_id@,
                child_count: *child_count as nat,
            },
            AppError::TaskPurgeRequiresArchivedSubtree { task_id, offender_id } => AppErrorView::TaskPurgeRequiresArchivedSubtree {
                task_id: task_id@,
                offender_id: offender_id@,
            },
            AppError::TaskReorderBoundary { task_id, direction } => AppErrorView::TaskReorderBoundary { task_id: task_id@, direction: direction@ },
            AppError::SpaceMustBeArchived { space_id, action } => AppErrorView::SpaceMustBeArchived { space_id: space_id@, action: action@ },
            AppError::PendingOperationInProgress { operation_id, kind } => AppErrorView::PendingOperationInProgress {
                operation_id: operation_id@,
                kind: *kind,
            },
            AppError::UnsupportedData => AppErrorView::UnsupportedData,
        }
    }
}

/// The view of a service result.
pub open spec fn rview<T: View>(r: Result<T, AppError>) -> Result<T::V, AppErrorView> {
    match r {
        Ok(x) => Ok(x@),
        Err(e) => Err(e@),
    }
}

} // verus!
