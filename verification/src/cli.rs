//! The command line grammar as plain data, and how each command line names
//! one command of the runner.

use vstd::prelude::*;
use crate::dispatch::CliCommand;
use crate::model::{SortMode, TaskStatus, ViewMode};

verus! {

/// A parsed command line.
#[derive(Debug)]
pub struct TodoCli {
    pub command: RootCommand,
}

#[derive(Debug)]
pub enum RootCommand {
    Tui(TuiArgs),
    Task(TaskArgs),
    Space(SpaceArgs),
    Doctor,
}

#[derive(Debug)]
pub struct TuiArgs {
    pub space: Option<String>,
    pub view: Option<ViewArg>,
    pub sort: Option<SortArg>,
}

#[derive(Debug)]
pub struct TaskArgs {
    pub command: TaskCommand,
}

#[derive(Debug)]
pub enum TaskCommand {
    Add(TaskAddArgs),
    List(TaskListArgs),
    Show(TaskShowArgs),
    Edit(TaskEditArgs),
    Status(TaskStatusArgs),
    Done(TaskDoneArgs),
    Archive(TaskRefArgs),
    Restore(TaskRestoreArgs),
    Log(TaskLogArgs),
    Purge(TaskPurgeArgs),
}

#[derive(Debug)]
pub struct SpaceArgs {
    pub command: SpaceCommand,
}

#[derive(Debug)]
pub enum SpaceCommand {
    Add(SpaceAddArgs),
    List(SpaceListArgs),
    Show(SpaceShowArgs),
    Use(SpaceUseArgs),
    Rename(SpaceRenameArgs),
    Archive(SpaceRefArgs),
    Restore(SpaceRefArgs),
    Purge(SpacePurgeArgs),
}

#[derive(Debug)]
pub struct TaskAddArgs {
    pub title: String,
    pub space: Option<String>,
    pub description: Option<String>,
    pub parent: Option<String>,
    pub status: Option<ActiveTaskStatusArg>,
    pub tui: bool,
}

#[derive(Debug)]
pub struct TaskListArgs {
    pub space: Option<String>,
    pub view: Option<ViewArg>,
    pub sort: Option<SortArg>,
}

#[derive(Debug)]
pub struct TaskShowArgs {
    pub task_ref: String,
}

#[derive(Debug)]
pub struct TaskEditArgs {
    pub task_ref: String,
    pub title: Option<String>,
    pub description: Option<String>,
    pub clear_desc: bool,
    pub status: Option<ActiveTaskStatusArg>,
    pub parent: Option<String>,
    pub clear_parent: bool,
    pub space: Option<String>,
    pub tui: bool,
}

#[derive(Debug)]
pub struct TaskStatusArgs {
    pub command: TaskStatusCommand,
}

#[derive(Debug)]
pub enum TaskStatusCommand {
    SetStatus(TaskStatusSetArgs),
}

#[derive(Debug)]
pub struct TaskStatusSetArgs {
    pub task_ref: String,
    pub status: ActiveTaskStatusArg,
    pub tui: bool,
}

#[derive(Debug)]
pub struct TaskDoneArgs {
    pub task_ref: String,
    pub tui: bool,
}

/// A task named by reference, for archiving.
#[derive(Debug)]
pub struct TaskRefArgs {
    pub task_ref: String,
    pub tui: bool,
}

#[derive(Debug)]
pub struct TaskRestoreArgs {
    pub task_ref: String,
    pub status: Option<ActiveTaskStatusArg>,
    pub tui: bool,
}

#[derive(Debug)]
pub struct TaskLogArgs {
    pub command: TaskLogCommand,
}

#[derive(Debug)]
pub enum TaskLogCommand {
    Add(TaskLogAddArgs),
}

#[derive(Debug)]
pub struct TaskLogAddArgs {
    pub task_ref: String,
    pub text: String,
    pub tui: bool,
}

#[derive(Debug)]
pub struct TaskPurgeArgs {
    pub task_ref: String,
    pub recursive: bool,
    pub force: bool,
}

#[derive(Debug)]
pub struct SpaceAddArgs {
    pub name: String,
    pub tui: bool,
}

#[derive(Debug)]
pub struct SpaceListArgs {
    pub include_archived: bool,
}

#[derive(Debug)]
pub struct SpaceShowArgs {
    pub space_ref: String,
}

#[derive(Debug)]
pub struct SpaceUseArgs {
    pub space_ref: String,
    pub tui: bool,
}

#[derive(Debug)]
pub struct SpaceRenameArgs {
    pub space_ref: String,
    pub new_name: String,
    pub tui: bool,
}

/// A space named by reference, for archiving or restoring.
#[derive(Debug)]
pub struct SpaceRefArgs {
    pub space_ref: String,
    pub tui: bool,
}

#[derive(Debug)]
pub struct SpacePurgeArgs {
    pub space_ref: String,
    pub force: bool,
}

#[derive(Debug, Clone, Copy, PartialEq, Eq, Structural)]
pub enum ViewArg {
    Todo,
    Archive,
    All,
}

#[derive(Debug, Clone, Copy, PartialEq, Eq, Structural)]
pub enum SortArg {
    Created,
    Updated,
    Status,
    Manual,
}

/// The statuses a command line may give a live task.
#[derive(Debug, Clone, Copy, PartialEq, Eq, Structural)]
pub enum ActiveTaskStatusArg {
    Todo,
    InProgress,
    Done,
}

pub open spec fn view_of(value: ViewArg) -> ViewMode {
    match value {
        ViewArg::Todo => ViewMode::Todo,
        ViewArg::Archive => ViewMode::Archive,
        ViewArg::All => ViewMode::All,
    }
}

pub open spec fn sort_of(value: SortArg) -> SortMode {
    match value {
        SortArg::Created => SortMode::Created,
        SortArg::Updated => SortMode::Updated,
        SortArg::Status => SortMode::Status,
        SortArg::Manual => SortMode::Manual,
    }
}

pub open spec fn status_of(value: ActiveTaskStatusArg) -> TaskStatus {
    match value {
        ActiveTaskStatusArg::Todo => TaskStatus::Todo,
        ActiveTaskStatusArg::InProgress => TaskStatus::InProgress,
        ActiveTaskStatusArg::Done => TaskStatus::Done,
    }
}

impl From<ViewArg> for ViewMode {
    fn from(value: ViewArg) -> (r: Self) {
        match value {
            ViewArg::Todo => ViewMode::Todo,
            ViewArg::Archive => ViewMode::Archive,
            ViewArg::All => ViewMode::All,
        }
    }
}

impl vstd::std_specs::convert::FromSpecImpl<ViewArg> for ViewMode {
    open spec fn obeys_from_spec() -> bool {
        true
    }

    open spec fn from_spec(value: ViewArg) -> ViewMode {
        view_of(value)
    }
}

impl From<SortArg> for SortMode {
    fn from(value: SortArg) -> (r: Self) {
        match value {
            SortArg::Created => SortMode::Created,
            SortArg::Updated => SortMode::Updated,
            SortArg::Status => SortMode::Status,
            SortArg::Manual => SortMode::Manual,
        }
    }
}

impl vstd::std_specs::convert::FromSpecImpl<SortArg> for SortMode {
    open spec fn obeys_from_spec() -> bool {
        true
    }

    open spec fn from_spec(value: SortArg) -> SortMode {
        sort_of(value)
    }
}

impl From<ActiveTaskStatusArg> for TaskStatus {
    fn from(value: ActiveTaskStatusArg) -> (r: Self) {
        match value {
            ActiveTaskStatusArg::Todo => TaskStatus::Todo,
            ActiveTaskStatusArg::InProgress => TaskStatus::InProgress,
            ActiveTaskStatusArg::Done => TaskStatus::Done,
        }
    }
}

impl vstd::std_specs::convert::FromSpecImpl<ActiveTaskStatusArg> for TaskStatus {
    open spec fn obeys_from_spec() -> bool {
        true
    }

    open spec fn from_spec(value: ActiveTaskStatusArg) -> TaskStatus {
        status_of(value)
    }
}


pub open spec fn opt_view_of(value: Option<ViewArg>) -> Option<ViewMode> {
    match value {
        Some(v) => Some(view_of(v)),
        None => None,
    }
}

pub open spec fn opt_sort_of(value: Option<SortArg>) -> Option<SortMode> {
    match value {
        Some(v) => Some(sort_of(v)),
        None => None,
    }
}

pub open spec fn opt_status_of(value: Option<ActiveTaskStatusArg>) -> Option<TaskStatus> {
    match value {
        Some(v) => Some(status_of(v)),
        None => None,
    }
}

/// The command a command line names, its arguments carried over as they
/// were given.
pub open spec fn command_of(cli: TodoCli) -> CliCommand {
    match cli.command {
        RootCommand::Doctor => CliCommand::Doctor,
        RootCommand::Tui(a) => CliCommand::Tui { space: a.space, view: opt_view_of(a.view), sort: opt_sort_of(a.sort) },
        RootCommand::Space(sp) => match sp.command {
            SpaceCommand::Add(a) => CliCommand::SpaceAdd { name: a.name, tui: a.tui },
            SpaceCommand::List(a) => CliCommand::SpaceList { include_archived: a.include_archived },
            SpaceCommand::Show(a) => CliCommand::SpaceShow { space_ref: a.space_ref },
            SpaceCommand::Use(a) => CliCommand::SpaceUse { space_ref: a.space_ref, tui: a.tui },
            SpaceCommand::Rename(a) => CliCommand::SpaceRename { space_ref: a.space_ref, new_name: a.new_name, tui: a.tui },
            SpaceCommand::Archive(a) => CliCommand::SpaceArchive { space_ref: a.space_ref, tui: a.tui },
            SpaceCommand::Restore(a) => CliCommand::SpaceRestore { space_ref: a.space_ref, tui: a.tui },
            SpaceCommand::Purge(a) => CliCommand::SpacePurge { space_ref: a.space_ref, force: a.force },
        },
        RootCommand::Task(t) => match t.command {
            TaskCommand::Add(a) => CliCommand::TaskAdd {
                title: a.title,
                space: a.space,
                description: a.description,
                parent: a.parent,
                status: opt_status_of(a.status),
                tui: a.tui,
            },
            TaskCommand::List(a) => CliCommand::TaskList { space: a.space, view: opt_view_of(a.view), sort: opt_sort_of(a.sort) },
            TaskCommand::Show(a) => CliCommand::TaskShow { task_ref: a.task_ref },
            TaskCommand::Edit(a) => CliCommand::TaskEdit {
                task_ref: a.task_ref,
                title: a.title,
                description: a.description,
                clear_desc: a.clear_desc,
                status: opt_status_of(a.status),
                parent: a.parent,
                clear_parent: a.clear_parent,
                space: a.space,
                tui: a.tui,
            },
            TaskCommand::Status(st) => match st.command {
                TaskStatusCommand::SetStatus(a) => CliCommand::TaskStatusSet { task_ref: a.task_ref, status: status_of(a.status), tui: a.tui },
            },
            TaskCommand::Done(a) => CliCommand::TaskDone { task_ref: a.task_ref, tui: a.tui },
            TaskCommand::Archive(a) => CliCommand::TaskArchive { task_ref: a.task_ref, tui: a.tui },
            TaskCommand::Restore(a) => CliCommand::TaskRestore { task_ref: a.task_ref, status: opt_status_of(a.status), tui: a.tui },
            TaskCommand::Log(l) => match l.command {
                TaskLogCommand::Add(a) => CliCommand::TaskLogAdd { task_ref: a.task_ref, text: a.text, tui: a.tui },
            },
            TaskCommand::Purge(a) => CliCommand::TaskPurge { task_ref: a.task_ref, recursive: a.recursive, force: a.force },
        },
    }
}

fn view_arg(value: Option<ViewArg>) -> (r: Option<ViewMode>)
    ensures
        r == opt_view_of(value),
{
    match value {
        Some(v) => Some(ViewMode::from(v)),
        None => None,
    }
}

fn sort_arg(value: Option<SortArg>) -> (r: Option<SortMode>)
    ensures
        r == opt_sort_of(value),
{
    match value {
        Some(v) => Some(SortMode::from(v)),
        None => None,
    }
}

fn status_arg(value: Option<ActiveTaskStatusArg>) -> (r: Option<TaskStatus>)
    ensures
        r == opt_status_of(value),
{
    match value {
        Some(v) => Some(TaskStatus::from(v)),
        None => None,
    }
}

impl TodoCli {
    /// The command this command line names.
    pub fn into_command(self) -> (r: CliCommand)
        ensures
            r == command_of(self),
    {
        match self.command {
            RootCommand::Doctor => CliCommand::Doctor,
            RootCommand::Tui(a) => CliCommand::Tui { space: a.space, view: view_arg(a.view), sort: sort_arg(a.sort) },
            RootCommand::Space(sp) => match sp.command {
                SpaceCommand::Add(a) => CliCommand::SpaceAdd { name: a.name, tui: a.tui },
                SpaceCommand::List(a) => CliCommand::SpaceList { include_archived: a.include_archived },
                SpaceCommand::Show(a) => CliCommand::SpaceShow { space_ref: a.space_ref },
                SpaceCommand::Use(a) => CliCommand::SpaceUse { space_ref: a.space_ref, tui: a.tui },
                SpaceCommand::Rename(a) => CliCommand::SpaceRename { space_ref: a.space_ref, new_name: a.new_name, tui: a.tui },
                SpaceCommand::Archive(a) => CliCommand::SpaceArchive { space_ref: a.space_ref, tui: a.tui },
                SpaceCommand::Restore(a) => CliCommand::SpaceRestore { space_ref: a.space_ref, tui: a.tui },
                SpaceCommand::Purge(a) => CliCommand::SpacePurge { space_ref: a.space_ref, force: a.force },
            },
            RootCommand::Task(t) => match t.command {
                TaskCommand::Add(a) => CliCommand::TaskAdd {
                    title: a.title,
                    space: a.space,
                    description: a.description,
                    parent: a.parent,
                    status: status_arg(a.status),
                    tui: a.tui,
                },
                TaskCommand::List(a) => CliCommand::TaskList { space: a.space, view: view_arg(a.view), sort: sort_arg(a.sort) },
                TaskCommand::Show(a) => CliCommand::TaskShow { task_ref: a.task_ref },
                TaskCommand::Edit(a) => CliCommand::TaskEdit {
                    task_ref: a.task_ref,
                    title: a.title,
                    description: a.description,
                    clear_desc: a.clear_desc,
                    status: status_arg(a.status),
                    parent: a.parent,
                    clear_parent: a.clear_parent,
                    space: a.space,
                    tui: a.tui,
                },
                TaskCommand::Status(st) => match st.command {
                    TaskStatusCommand::SetStatus(a) => CliCommand::TaskStatusSet {
                        task_ref: a.task_ref,
                        status: TaskStatus::from(a.status),
                        tui: a.tui,
                    },
                },
                TaskCommand::Done(a) => CliCommand::TaskDone { task_ref: a.task_ref, tui: a.tui },
                TaskCommand::Archive(a) => CliCommand::TaskArchive { task_ref: a.task_ref, tui: a.tui },
                TaskCommand::Restore(a) => CliCommand::TaskRestore { task_ref: a.task_ref, status: status_arg(a.status), tui: a.tui },
                TaskCommand::Log(l) => match l.command {
                    TaskLogCommand::Add(a) => CliCommand::TaskLogAdd { task_ref: a.task_ref, text: a.text, tui: a.tui },
                },
                TaskCommand::Purge(a) => CliCommand::TaskPurge { task_ref: a.task_ref, recursive: a.recursive, force: a.force },
            },
        }
    }
}

} // verus!
