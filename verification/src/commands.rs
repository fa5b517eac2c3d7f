//! The requests the interfaces hand to the services.

use vstd::prelude::*;
use crate::ids::SpaceId;
use crate::model::TaskStatus;

verus! {

#[derive(Debug, Clone, Copy, PartialEq, Eq, Structural)]
pub enum MoveTaskDirection {
    Up,
    Down,
}

#[derive(Debug)]
pub struct CreateSpaceCommand {
    pub name: String,
}

#[derive(Debug)]
pub struct RenameSpaceCommand {
    pub space_ref: String,
    pub new_name: String,
}

#[derive(Debug)]
pub struct SetCurrentSpaceCommand {
    pub space_ref: String,
}

#[derive(Debug)]
pub struct CreateTaskCommand {
    pub title: String,
    pub space_ref: Option<String>,
    pub description: Option<String>,
    pub parent_ref: Option<String>,
    pub status: TaskStatus,
}

#[derive(Debug)]
pub struct EditTaskCommand {
    pub task_ref: String,
    pub title: Option<String>,
    pub description: Option<String>,
    pub clear_description: bool,
    pub status: Option<TaskStatus>,
    pub parent_ref: Option<String>,
    pub clear_parent: bool,
    pub space_ref: Option<String>,
}

impl EditTaskCommand {
    pub open spec fn changes_something(&self) -> bool {
        self.title is Some || self.description is Some || self.clear_description || self.status is Some
            || self.parent_ref is Some || self.clear_parent || self.space_ref is Some
    }

    /// Whether the edit names at least one field to change.
    pub fn has_any_change(&self) -> (r: bool)
        ensures
            r == self.changes_something(),
    {
        self.title.is_some() || self.description.is_some() || self.clear_description || self.status.is_some()
            || self.parent_ref.is_some() || self.clear_parent || self.space_ref.is_some()
    }
}

#[derive(Debug)]
pub struct UpdateTaskStatusCommand {
    pub task_ref: String,
    pub status: TaskStatus,
}

#[derive(Debug)]
pub struct AddTaskLogCommand {
    pub task_ref: String,
    pub message: String,
}

#[derive(Debug)]
pub struct ArchiveTaskCommand {
    pub task_ref: String,
}

/// Restores an archived task and its subtree, giving each the status.
#[derive(Debug)]
pub struct RestoreTaskCommand {
    pub task_ref: String,
    pub status: TaskStatus,
}

#[derive(Debug)]
pub struct PurgeTaskCommand {
    pub task_ref: String,
    pub recursive: bool,
}

#[derive(Debug)]
pub struct MoveTaskCommand {
    pub task_ref: String,
    pub direction: MoveTaskDirection,
}

#[derive(Debug)]
pub struct ArchiveSpaceCommand {
    pub space_ref: String,
}

#[derive(Debug)]
pub struct RestoreSpaceCommand {
    pub space_ref: String,
}

#[derive(Debug)]
pub struct PurgeSpaceCommand {
    pub space_ref: String,
}

#[derive(Debug)]
pub struct TuiLaunchCommand {
    pub space_ref: Option<String>,
    pub space_id: Option<SpaceId>,
}

pub open spec fn direction_label(direction: MoveTaskDirection) -> Seq<char> {
    match direction {
        MoveTaskDirection::Up => "up"@,
        MoveTaskDirection::Down => "down"@,
    }
}

/// The word for a direction in messages.
pub fn move_direction_label(direction: MoveTaskDirection) -> (r: &'static str)
    ensures
        r@ == direction_label(direction),
{
    proof {
        reveal_strlit("up");
        reveal_strlit("down");
    }
    match direction {
        MoveTaskDirection::Up => "up",
        MoveTaskDirection::Down => "down",
    }
}

} // verus!
