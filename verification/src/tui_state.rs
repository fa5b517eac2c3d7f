//! The state of the terminal interface and the decisions it takes: which
//! dialog is open, what is selected and scrolled, and which use case a
//! click or a key runs. Drawing, hit-testing and text editing stay with
//! the program that runs the interface; it hands the outcome here as plain
//! values (the clicked target, the edited text, the viewport heights).

use vstd::prelude::*;
use crate::error::AppError;
use crate::ids::{SpaceId, TaskId};
use crate::model::{FocusArea, SortMode, SpaceListMode, SpaceMemoryEntry, SpaceState, SpaceViewMemory, TaskStatus, TuiMemory, ViewMode};
use crate::commands::MoveTaskDirection;
use crate::queries::{SpaceSummary, TaskDetails, TaskListResult};
use crate::text::{str_eq, str_is_blank};
use crate::tree_view::{trim_text, trimmed, VisibleTaskEntry};
use crate::model::{SpaceMemoryEntryView, SpaceViewMemoryView, TuiMemoryView};
use crate::queries::{SpaceSummaryView, TaskListEntry, TaskListEntryView};
use crate::ids::short_id_defined;
use crate::tree_view::{build_visible_tasks, filter_task_entries, filtered_entries, index_of_task, visible_scan, VisibleTaskEntryView};
use crate::text::is_blank;
use crate::queries::{ListSpacesQuery, ListTasksQuery, ShowTaskQuery};
use crate::repository::{ids_split, RepoView, Repository};
use crate::space_service::{effective_space, space_summaries, space_tasks, SpaceService};
use crate::task_service::{show_task_outcome, TaskService};
use crate::task_query::task_list_entries;
use crate::dispatch::{runnable, LaunchOptions};
use crate::hierarchy::{collect_subtree_ids, subtree_of};
use crate::model::{Task, TaskView};
use crate::tree_view::{entry_tasks, status_label, status_text};
use crate::commands::{
    AddTaskLogCommand, ArchiveSpaceCommand, CreateSpaceCommand, CreateTaskCommand, EditTaskCommand, MoveTaskCommand,
    PurgeSpaceCommand, PurgeTaskCommand, RenameSpaceCommand, RestoreSpaceCommand, RestoreTaskCommand, SetCurrentSpaceCommand,
    UpdateTaskStatusCommand, direction_label, move_direction_label,
};
use crate::space_service::{archive_space_outcome, restore_space_outcome, use_space_outcome};
use crate::task_service::{move_outcome, restore_task_outcome, set_task_status_outcome};
use crate::dispatch::is_runnable;
use crate::space_service::{create_space_outcome, purge_space_outcome, rename_space_outcome};
use crate::task_service::{add_task_log_outcome, archive_task_outcome, create_task_outcome, edit_task_outcome, purge_task_outcome};
use crate::text::{decimal, push_decimal};
use crate::queries::OperationOutcome;
use crate::maintenance::state_write;
use crate::model::{AppState, AppStateView};
use crate::util::{opt_view, views};

verus! {

/// What the task dialog does on save.
#[derive(Debug)]
pub enum TaskFormKind {
    CreateRoot,
    CreateChild { parent_id: TaskId },
    Edit { task_id: TaskId },
}

/// The field of the task dialog that takes the typing.
#[derive(Debug, Clone, Copy, PartialEq, Eq, Structural)]
pub enum TaskFormField {
    Title,
    Status,
    Description,
}

/// The dialog on top of the task browser, if any, with what it holds.
#[derive(Debug)]
pub enum Mode {
    Browse,
    SpaceManager { scroll: usize, origin_focus: FocusArea },
    /// Creates a space, or renames the one given.
    SpaceForm { rename_of: Option<SpaceId>, name: String },
    TaskForm { kind: TaskFormKind, focus: TaskFormField, title: String, description: String, status: TaskStatus },
    LogForm { task_id: TaskId, task_title: String, text: String },
    PurgeTaskConfirm { task_id: TaskId, task_title: String, affected_count: usize, requires_phrase: bool, phrase: String },
    PurgeSpaceConfirm { space_id: SpaceId, space_name: String, task_count: usize, phrase: String },
    Filter { text: String },
    Help,
}

/// A clickable element of the interface.
#[derive(Debug)]
pub enum MouseTarget {
    SwitchView(ViewMode),
    CycleSort,
    OpenFilter,
    OpenSpaceManager,
    OpenHelp,
    CloseHelp,
    CloseSpaceManager,
    SelectManagedSpace(usize),
    OpenSelectedSpace,
    SetSpaceListMode(SpaceListMode),
    OpenSpaceCreate,
    OpenSpaceRename,
    ArchiveSpace,
    RestoreSpace,
    OpenPurgeSpace,
    SelectTask(usize),
    ToggleTask(TaskId),
    CreateTask,
    CreateSubtask,
    CloseDetails,
    EditTask,
    SetTaskStatus(TaskStatus),
    AddLog,
    RestoreTask,
    OpenPurgeTask,
    MoveTask(MoveTaskDirection),
    SpaceFormInput,
    SpaceFormSave,
    SpaceFormCancel,
    TaskFormTitle,
    TaskFormDescription,
    TaskFormStatus(TaskStatus),
    TaskFormSave,
    TaskFormCancel,
    LogFormInput,
    LogFormSave,
    LogFormCancel,
    FilterInput,
    FilterApply,
    FilterClear,
    FilterCancel,
    ConfirmPhraseInput,
    ConfirmCancel,
    ConfirmPurge,
}

/// A key press, as far as the interface itself reacts to it; other keys go
/// to the text field being edited.
#[derive(Debug, Clone, Copy, PartialEq, Eq, Structural)]
pub enum KeyInput {
    /// Ctrl+C, which always quits.
    Quit,
    Esc,
    Char(char),
    Other,
}

/// What the interface shows and remembers.
#[derive(Debug)]
pub struct TuiState {
    pub should_quit: bool,
    pub mode: Mode,
    pub background_mode: Option<Mode>,
    pub focus_area: FocusArea,
    pub return_focus: FocusArea,
    pub current_space_id: Option<SpaceId>,
    pub viewed_space_id: Option<SpaceId>,
    pub current_view: ViewMode,
    pub current_sort: SortMode,
    pub space_list_mode: SpaceListMode,
    pub task_filter: String,
    pub spaces: Vec<SpaceSummary>,
    pub space_index: usize,
    pub task_result: Option<TaskListResult>,
    pub visible_tasks: Vec<VisibleTaskEntry>,
    /// The selected row of the task tree.
    pub selected: Option<usize>,
    /// The first row of the task tree on screen.
    pub tree_offset: usize,
    pub details: Option<TaskDetails>,
    pub details_scroll: usize,
    pub tui_memory: TuiMemory,
    pub status_message: Option<String>,
    /// Rows of tasks the tree showed in the last frame.
    pub tree_rows: usize,
    /// Rows of spaces the space manager showed in the last frame.
    pub manager_rows: usize,
    /// Whether the last frame was too narrow for the side-by-side layout.
    pub narrow: bool,
}

pub open spec fn is_browse(m: Mode) -> bool {
    m is Browse
}

pub open spec fn entries_printable(entries: Seq<TaskListEntryView>) -> bool {
    forall|i: int| 0 <= i < entries.len() ==> short_id_defined(#[trigger] entries[i].task.id)
}
/// Everything but the dialogs, the focus and the scroll positions is the
/// same in `a` and `b`.
pub open spec fn keeps_data(a: TuiState, b: TuiState) -> bool {
    &&& a.should_quit == b.should_quit
    &&& a.current_space_id == b.current_space_id
    &&& a.viewed_space_id == b.viewed_space_id
    &&& a.current_view == b.current_view
    &&& a.current_sort == b.current_sort
    &&& a.space_list_mode == b.space_list_mode
    &&& a.task_filter == b.task_filter
    &&& a.spaces == b.spaces
    &&& a.space_index == b.space_index
    &&& a.task_result == b.task_result
    &&& a.visible_tasks == b.visible_tasks
    &&& a.selected == b.selected
    &&& a.details == b.details
    &&& a.tui_memory == b.tui_memory
    &&& a.status_message == b.status_message
    &&& a.tree_rows == b.tree_rows
    &&& a.manager_rows == b.manager_rows
    &&& a.narrow == b.narrow
}

/// The scroll positions are the same in `a` and `b`.
pub open spec fn keeps_scroll(a: TuiState, b: TuiState) -> bool {
    a.tree_offset == b.tree_offset && a.details_scroll == b.details_scroll
}

/// The dialogs and the focus are the same in `a` and `b`.
pub open spec fn keeps_dialogs(a: TuiState, b: TuiState) -> bool {
    &&& a.mode == b.mode
    &&& a.background_mode == b.background_mode
    &&& a.focus_area == b.focus_area
    &&& a.return_focus == b.return_focus
}

/// The task actions of the detail panel: which buttons it shows, and which
/// of them it enables.
#[derive(Debug)]
pub struct DetailActions {
    pub can_create: bool,
    pub can_edit_task: bool,
    pub can_restore: bool,
    pub can_purge: bool,
    pub can_status: bool,
    pub show_arrange: bool,
    pub can_reorder: bool,
    /// Whether the task shown is archived: then restore and purge are
    /// offered in place of the status buttons.
    pub selected_archived: bool,
    pub selected_status: Option<TaskStatus>,
}

/// The buttons of the space manager for the space selected in it: which it
/// enables, and whether the lifecycle button restores or archives.
#[derive(Debug)]
pub struct ManagerActions {
    pub can_open: bool,
    pub can_rename: bool,
    pub can_archive: bool,
    pub can_restore: bool,
    pub can_purge: bool,
    /// The lifecycle button restores the space (else it archives it).
    pub lifecycle_restores: bool,
}

/// How the space manager names a space's state.
pub open spec fn state_word(state: SpaceState) -> Seq<char> {
    match state {
        SpaceState::Archived => "archived"@,
        SpaceState::Active => "active"@,
    }
}

/// The interface shows what is stored: the task tree lists the space on
/// view in the current view and sort, and the selected task's details are
/// loaded.
pub open spec fn shows_listing(repo: RepoView, s: TuiState) -> bool {
    &&& match s.viewed_space_id {
        None => s.task_result is None && s.visible_tasks@.len() == 0 && s.selected is None && s.details is None,
        Some(v) => match effective_space(repo, Some(v@), false) {
            Ok(sp) => s.task_result matches Some(res) && res.space@ == sp && res.view == s.current_view
                && res.sort == s.current_sort
                && views(res.entries@) == task_list_entries(space_tasks(repo, sp.id), s.current_view, s.current_sort),
            Err(_) => false,
        },
    }
    &&& views(s.visible_tasks@) == shown_rows(s)
    &&& s.selected matches Some(i) ==> (s.details matches Some(d)
        && details_loaded(repo, s.visible_tasks@[i as int]@.task.id, Ok(d)))
}

/// The rows of the task tree for the listing `s` holds: its entries with
/// the filter applied and the collapsed subtrees hidden (with a filter,
/// every row that has children is open).
pub open spec fn shown_rows(s: TuiState) -> Seq<VisibleTaskEntryView> {
    match s.task_result {
        None => Seq::empty(),
        Some(res) => {
            let filtered = filtered_entries(views(res.entries@), s.task_filter@);
            visible_scan(filtered, expanded_for(filtered, s.task_filter@, s.viewed_memory().expanded_task_ids)).0
        },
    }
}

/// What `persist` leaves: the current space, view and sort and the
/// interface memory, refreshed from the state `a0` was in, written as the
/// stored state.
pub open spec fn persisted(a0: TuiState, a1: TuiState, rb: RepoView, ra: RepoView) -> bool {
    &&& ra == state_write(rb, AppStateView {
        current_space_id: opt_view(a0.current_space_id),
        current_view: a0.current_view,
        current_sort: a0.current_sort,
        tui_memory: a1.tui_memory@,
        ..rb.state
    })
    &&& a1.tui_memory@.focus_area == a0.focus_area
    &&& a1.tui_memory@.spaces_cursor == a0.space_index
    &&& a1.tui_memory@.selected_space_id == opt_view(a0.viewed_space_id)
    &&& a1.tui_memory@.space_list_mode == a0.space_list_mode
    &&& a1.tui_memory@.task_filter == a0.task_filter@
}

/// Where the interface opens in the tree of the space on view: on the task
/// the space remembers (else the first row), scrolled from where the space
/// left it just enough to show it, with the details scrolled as left; and
/// what it shows is what it remembers, as saved.
pub open spec fn opened_rows(rb: RepoView, app: TuiState) -> bool {
    match app.viewed_space_id {
        None => app.selected is None && app.tree_offset == 0 && app.details_scroll == 0,
        Some(v) => {
            let mem = memory_of(rb.state.tui_memory, v@);
            &&& app.selected == pick_selection(shown_rows(app), None, mem.selected_task_id, None)
            &&& app.tree_offset == offset_showing(app.selected, mem.task_tree_scroll, app.tree_height())
            &&& app.details_scroll == mem.details_scroll
            &&& app.viewed_memory() == (SpaceViewMemoryView {
                selected_task_id: app.selected_row_id(),
                task_tree_scroll: app.tree_offset,
                details_scroll: app.details_scroll,
                ..mem
            })
        },
    }
}

/// How the interface opens on the stored state: browsing, with the view,
/// sort and space that the options name, else the remembered ones.
pub open spec fn opened(rb: RepoView, options: LaunchOptions, app: TuiState) -> bool {
    &&& app.mode is Browse
    &&& app.background_mode is None
    &&& !app.should_quit
    &&& app.current_view == (match options.view { Some(v) => v, None => rb.state.current_view })
    &&& app.current_sort == (match options.sort { Some(v) => v, None => rb.state.current_sort })
    &&& app.focus_area == rb.state.tui_memory.focus_area
    &&& app.space_list_mode == rb.state.tui_memory.space_list_mode
    &&& app.task_filter@ == rb.state.tui_memory.task_filter
    &&& opt_view(app.viewed_space_id) == next_viewed(
        match options.space_id {
            Some(id) => Some(id@),
            None => match rb.state.tui_memory.selected_space_id {
                Some(id) => Some(id),
                None => rb.state.current_space_id,
            },
        },
        rb.state.current_space_id,
        views(app.spaces@),
    )
}

impl TuiState {
    /// The selection points into the visible rows, and every listed task
    /// has an id with a short form.
    pub open spec fn wf(&self) -> bool {
        &&& self.selected matches Some(i) ==> i < self.visible_tasks@.len()
        &&& self.task_result matches Some(res) ==> entries_printable(views(res.entries@))
    }

    /// The focus a dialog returns to: the one the space manager was opened
    /// from, else the one saved when the dialog opened.
    pub open spec fn base_focus(&self) -> FocusArea {
        match self.mode {
            Mode::SpaceManager { origin_focus, .. } => origin_focus,
            _ => match self.background_mode {
                Some(Mode::SpaceManager { origin_focus, .. }) => origin_focus,
                _ => self.return_focus,
            },
        }
    }

    fn base_focus_area(&self) -> (r: FocusArea)
        ensures
            r == self.base_focus(),
    {
        match &self.mode {
            Mode::SpaceManager { origin_focus, .. } => *origin_focus,
            _ => match &self.background_mode {
                Some(Mode::SpaceManager { origin_focus, .. }) => *origin_focus,
                _ => self.return_focus,
            },
        }
    }

    fn is_browsing(&self) -> (r: bool)
        ensures
            r == (self.mode is Browse),
    {
        match &self.mode {
            Mode::Browse => true,
            _ => false,
        }
    }

    /// Opens a dialog over the task browser, replacing any dialog open.
    pub fn enter_root_overlay(&mut self, mode: Mode)
        requires
            old(self).wf(),
        ensures
            final(self).wf(),
            final(self).mode == mode,
            final(self).background_mode matches Some(b) && b is Browse,
            final(self).return_focus == (if old(self).mode is Browse { old(self).focus_area } else { old(self).base_focus() }),
            final(self).focus_area == old(self).focus_area,
            keeps_data(*final(self), *old(self)),
            keeps_scroll(*final(self), *old(self)),
    {
        self.return_focus = if self.is_browsing() { self.focus_area } else { self.base_focus_area() };
        self.background_mode = Some(Mode::Browse);
        self.mode = mode;
    }

    /// Opens a dialog over the current one, which comes back when it closes.
    pub fn enter_child_overlay(&mut self, mode: Mode)
        requires
            old(self).wf(),
        ensures
            final(self).wf(),
            final(self).mode == mode,
            final(self).background_mode == Some(old(self).mode),
            final(self).return_focus == old(self).focus_area,
            final(self).focus_area == old(self).focus_area,
            keeps_data(*final(self), *old(self)),
            keeps_scroll(*final(self), *old(self)),
    {
        self.return_focus = self.focus_area;
        let mut previous = mode;
        std::mem::swap(&mut previous, &mut self.mode);
        self.background_mode = Some(previous);
    }

    /// Closes the open dialog: the one below it comes back (the task
    /// browser when none), and so does the focus saved when it opened, or
    /// the space list under the space manager.
    pub fn close_modal(&mut self)
        requires
            old(self).wf(),
        ensures
            final(self).wf(),
            closed(*old(self), *final(self)),
    {
        let next = match self.background_mode.take() {
            Some(m) => m,
            None => Mode::Browse,
        };
        self.mode = next;
        self.focus_area = self.return_focus;
        let origin = match &self.mode {
            Mode::SpaceManager { origin_focus, .. } => Some(*origin_focus),
            _ => None,
        };
        match origin {
            Some(o) => {
                self.focus_area = FocusArea::Spaces;
                self.return_focus = o;
            },
            None => {},
        }
    }

    /// Opens the space manager over the task browser, with the space list
    /// focused.
    pub fn open_space_manager(&mut self)
        requires
            old(self).wf(),
        ensures
            final(self).wf(),
            final(self).mode matches Mode::SpaceManager { scroll, origin_focus }
                && scroll == 0
                && origin_focus == (if old(self).mode is Browse { old(self).focus_area } else { old(self).base_focus() }),
            final(self).background_mode matches Some(b) && b is Browse,
            final(self).return_focus == (if old(self).mode is Browse { old(self).focus_area } else { old(self).base_focus() }),
            final(self).focus_area == FocusArea::Spaces,
            keeps_data(*final(self), *old(self)),
            keeps_scroll(*final(self), *old(self)),
    {
        let origin_focus = if self.is_browsing() { self.focus_area } else { self.base_focus_area() };
        self.enter_root_overlay(Mode::SpaceManager { scroll: 0, origin_focus });
        self.focus_area = FocusArea::Spaces;
    }

    /// Opens the filter dialog holding the current filter.
    pub fn open_filter(&mut self)
        requires
            old(self).wf(),
        ensures
            final(self).wf(),
            final(self).mode matches Mode::Filter { text } && text@ == old(self).task_filter@,
            root_opened(*old(self), *final(self)),
    {
        let text = self.task_filter.clone();
        self.enter_root_overlay(Mode::Filter { text });
    }

    /// Opens the help overlay.
    pub fn open_help(&mut self)
        requires
            old(self).wf(),
        ensures
            final(self).wf(),
            final(self).mode is Help,
            root_opened(*old(self), *final(self)),
    {
        self.enter_root_overlay(Mode::Help);
    }

    /// Reacts to a key: Ctrl+C quits anywhere; Esc closes any dialog; `?`
    /// opens and closes the help and `/` the filter from the browser.
    /// Returns whether something changed; other keys change nothing here.
    pub fn handle_key(&mut self, key: KeyInput) -> (changed: bool)
        requires
            old(self).wf(),
        ensures
            final(self).wf(),
            key == KeyInput::Quit ==> changed && *final(self) == (TuiState { should_quit: true, ..*old(self) }),
            key != KeyInput::Quit ==> final(self).should_quit == old(self).should_quit,
            key != KeyInput::Quit && old(self).mode is Browse ==> match key {
                KeyInput::Char('?') => changed && final(self).mode is Help && root_opened(*old(self), *final(self)),
                KeyInput::Char('/') => changed && (final(self).mode matches Mode::Filter { text } && text@ == old(self).task_filter@)
                    && root_opened(*old(self), *final(self)),
                _ => !changed && *final(self) == *old(self),
            },
            (key == KeyInput::Esc && !(old(self).mode is Browse)) || (key == KeyInput::Char('?') && old(self).mode is Help)
                ==> changed && closed(*old(self), *final(self)),
            key != KeyInput::Quit && key != KeyInput::Esc && !(old(self).mode is Browse)
                && !(key == KeyInput::Char('?') && old(self).mode is Help)
                ==> *final(self) == *old(self) && changed == !(old(self).mode is Help || old(self).mode is SpaceManager),
            key != KeyInput::Quit ==> keeps_data(*final(self), *old(self)),
            keeps_scroll(*final(self), *old(self)),
            final(self).visible_tasks == old(self).visible_tasks,
            final(self).selected == old(self).selected,
    {
        if key == KeyInput::Quit {
            self.should_quit = true;
            return true;
        }
        if self.is_browsing() {
            return match key {
                KeyInput::Char('?') => {
                    self.open_help();
                    true
                },
                KeyInput::Char('/') => {
                    self.open_filter();
                    true
                },
                _ => false,
            };
        }
        let is_help = match &self.mode {
            Mode::Help => true,
            _ => false,
        };
        if key == KeyInput::Esc || (is_help && key == KeyInput::Char('?')) {
            self.close_modal();
            return true;
        }
        match &self.mode {
            Mode::Help => false,
            Mode::SpaceManager { .. } => false,
            _ => true,
        }
    }

    /// The rows of the task tree on screen, at least one.
    pub open spec fn tree_height(&self) -> nat {
        if self.tree_rows == 0 { 1 } else { self.tree_rows as nat }
    }

    /// The rows of the space manager on screen, at least one.
    pub open spec fn manager_height(&self) -> nat {
        if self.manager_rows == 0 { 1 } else { self.manager_rows as nat }
    }

    /// Scrolls the task tree by `delta` rows, within the rows there are.
    pub fn scroll_task_tree(&mut self, delta: i64)
        requires
            old(self).wf(),
        ensures
            final(self).wf(),
            final(self).tree_offset == clamp_offset(old(self).tree_offset as int + delta, old(self).visible_tasks@.len() as int - old(self).tree_height()),
            keeps_data(*final(self), *old(self)),
            keeps_dialogs(*final(self), *old(self)),
            final(self).details_scroll == old(self).details_scroll,
    {
        let height: usize = if self.tree_rows == 0 { 1 } else { self.tree_rows };
        let max_offset: usize = if self.visible_tasks.len() > height { self.visible_tasks.len() - height } else { 0 };
        self.tree_offset = clamped(self.tree_offset, delta, max_offset);
    }

    /// Scrolls the space manager by `delta` rows, within the spaces there
    /// are; nothing happens outside the space manager.
    pub fn scroll_space_manager(&mut self, delta: i64)
        requires
            old(self).wf(),
        ensures
            final(self).wf(),
            match old(self).mode {
                Mode::SpaceManager { scroll, origin_focus } => final(self).mode == (Mode::SpaceManager {
                    scroll: clamp_offset(scroll as int + delta, old(self).spaces@.len() as int - old(self).manager_height()),
                    origin_focus,
                }),
                _ => final(self).mode == old(self).mode,
            },
            keeps_data(*final(self), *old(self)),
            keeps_scroll(*final(self), *old(self)),
            final(self).background_mode == old(self).background_mode,
            final(self).focus_area == old(self).focus_area,
            final(self).return_focus == old(self).return_focus,
    {
        let height: usize = if self.manager_rows == 0 { 1 } else { self.manager_rows };
        let max_offset: usize = if self.spaces.len() > height { self.spaces.len() - height } else { 0 };
        let next = match &self.mode {
            Mode::SpaceManager { scroll, origin_focus } => Some((clamped(*scroll, delta, max_offset), *origin_focus)),
            _ => None,
        };
        match next {
            Some((scroll, origin_focus)) => {
                self.mode = Mode::SpaceManager { scroll, origin_focus };
            },
            None => {},
        }
    }

    /// Scrolls the detail panel by `delta` rows, not above the top.
    pub fn scroll_details(&mut self, delta: i64)
        requires
            old(self).wf(),
        ensures
            final(self).wf(),
            final(self).details_scroll == (if old(self).details_scroll as int + delta <= 0 { 0 }
                else if old(self).details_scroll as int + delta > usize::MAX { usize::MAX as int }
                else { old(self).details_scroll as int + delta }),
            keeps_data(*final(self), *old(self)),
            keeps_dialogs(*final(self), *old(self)),
            final(self).tree_offset == old(self).tree_offset,
    {
        let current = self.details_scroll;
        if delta < 0 {
            let back: u64 = (0 - (delta as i128)) as u64;
            self.details_scroll = if (back as u128) >= (current as u128) { 0 } else { current - (back as usize) };
        } else {
            let forward: u64 = delta as u64;
            self.details_scroll = if (current as u128) + (forward as u128) > (usize::MAX as u128) {
                usize::MAX
            } else {
                current + (forward as usize)
            };
        }
    }

    /// Moves the task tree so the selected row is on screen.
    pub fn ensure_selected_task_visible(&mut self)
        requires
            old(self).wf(),
        ensures
            final(self).wf(),
            match old(self).selected {
                None => final(self).tree_offset == old(self).tree_offset,
                Some(s) => final(self).tree_offset == (if s < old(self).tree_offset { s as int }
                    else if s >= old(self).tree_offset + old(self).tree_height() { s - old(self).tree_height() + 1 }
                    else { old(self).tree_offset as int }),
            },
            keeps_data(*final(self), *old(self)),
            keeps_dialogs(*final(self), *old(self)),
            final(self).details_scroll == old(self).details_scroll,
    {
        let height: usize = if self.tree_rows == 0 { 1 } else { self.tree_rows };
        match self.selected {
            None => {},
            Some(s) => {
                let offset = self.tree_offset;
                if s < offset {
                    self.tree_offset = s;
                } else if (s as u128) >= (offset as u128) + (height as u128) {
                    self.tree_offset = s - (height - 1);
                }
            },
        }
    }

    /// Moves the space manager so the selected space is on screen.
    pub fn ensure_space_manager_selection_visible(&mut self)
        requires
            old(self).wf(),
        ensures
            final(self).wf(),
            match old(self).mode {
                Mode::SpaceManager { scroll, origin_focus } => final(self).mode == (Mode::SpaceManager {
                    scroll: (if old(self).space_index < scroll { old(self).space_index as int }
                        else if old(self).space_index >= scroll + old(self).manager_height() { old(self).space_index - old(self).manager_height() + 1 }
                        else { scroll as int }) as usize,
                    origin_focus,
                }),
                _ => final(self).mode == old(self).mode,
            },
            keeps_data(*final(self), *old(self)),
            keeps_scroll(*final(self), *old(self)),
            final(self).background_mode == old(self).background_mode,
            final(self).focus_area == old(self).focus_area,
            final(self).return_focus == old(self).return_focus,
    {
        let height: usize = if self.manager_rows == 0 { 1 } else { self.manager_rows };
        let index = self.space_index;
        let next = match &self.mode {
            Mode::SpaceManager { scroll, origin_focus } => {
                let s = *scroll;
                let moved = if index < s {
                    index
                } else if (index as u128) >= (s as u128) + (height as u128) {
                    index - (height - 1)
                } else {
                    s
                };
                Some((moved, *origin_focus))
            },
            _ => None,
        };
        match next {
            Some((scroll, origin_focus)) => {
                self.mode = Mode::SpaceManager { scroll, origin_focus };
            },
            None => {},
        }
    }
}

/// `value` kept within `0..=max` (and at 0 when `max` is negative).
pub open spec fn clamp_offset(value: int, max: int) -> usize {
    if value <= 0 || max <= 0 {
        0
    } else if value >= max {
        max as usize
    } else {
        value as usize
    }
}

fn clamped(current: usize, delta: i64, max_offset: usize) -> (r: usize)
    ensures
        r == clamp_offset(current as int + delta, max_offset as int),
{
    let target: i128 = (current as i128) + (delta as i128);
    if target <= 0 || max_offset == 0 {
        0
    } else if target >= (max_offset as i128) {
        max_offset
    } else {
        target as usize
    }
}


// ---------------------------------------------------------------------------
// Finding things by id

/// `i` is the first position of a summary of the space `id`.
pub open spec fn is_first_summary(spaces: Seq<SpaceSummaryView>, id: Seq<char>, i: int) -> bool {
    &&& 0 <= i < spaces.len()
    &&& spaces[i].space.id == id
    &&& forall|j: int| 0 <= j < i ==> spaces[j].space.id != id
}

/// The first position of a summary of the space `id`, or -1.
pub open spec fn summary_pos(spaces: Seq<SpaceSummaryView>, id: Seq<char>) -> int {
    if exists|i: int| is_first_summary(spaces, id, i) {
        choose|i: int| is_first_summary(spaces, id, i)
    } else {
        -1
    }
}

proof fn lemma_summary_pos(spaces: Seq<SpaceSummaryView>, id: Seq<char>, i: int)
    requires
        is_first_summary(spaces, id, i),
    ensures
        summary_pos(spaces, id) == i,
{
    let k = choose|k: int| is_first_summary(spaces, id, k);
    assert(is_first_summary(spaces, id, k));
    if k < i {
        assert(spaces[k].space.id != id);
    } else if i < k {
        assert(spaces[i].space.id != id);
    }
}

proof fn lemma_no_summary(spaces: Seq<SpaceSummaryView>, id: Seq<char>)
    requires
        forall|j: int| 0 <= j < spaces.len() ==> spaces[j].space.id != id,
    ensures
        summary_pos(spaces, id) == -1,
{
    if exists|i: int| is_first_summary(spaces, id, i) {
        let k = choose|k: int| is_first_summary(spaces, id, k);
        assert(spaces[k].space.id != id);
    }
}

/// The position of the first summary of the space `id`.
pub fn find_summary(spaces: &Vec<SpaceSummary>, id: &SpaceId) -> (r: Option<usize>)
    ensures
        match r {
            Some(i) => summary_pos(views(spaces@), id@) == i as int,
            None => summary_pos(views(spaces@), id@) == -1,
        },
{
    let ghost sv = views(spaces@);
    let n = spaces.len();
    let mut i: usize = 0;
    while i < n
        invariant
            n == spaces@.len(),
            sv == views(spaces@),
            i <= n,
            forall|j: int| 0 <= j < i ==> sv[j].space.id != id@,
        decreases n - i,
    {
        if str_eq(spaces[i].space.id.0.as_str(), id.0.as_str()) {
            proof {
                assert(sv[i as int].space.id == id@);
                lemma_summary_pos(sv, id@, i as int);
            }
            return Some(i);
        }
        assert(sv[i as int].space.id != id@);
        i = i + 1;
    }
    proof {
        lemma_no_summary(sv, id@);
    }
    None
}

/// `i` is the first position of the memory of the space `id`.
pub open spec fn is_first_memory(entries: Seq<SpaceMemoryEntryView>, id: Seq<char>, i: int) -> bool {
    &&& 0 <= i < entries.len()
    &&& entries[i].space_id == id
    &&& forall|j: int| 0 <= j < i ==> entries[j].space_id != id
}

/// The first position of the memory of the space `id`, or -1.
pub open spec fn memory_pos(entries: Seq<SpaceMemoryEntryView>, id: Seq<char>) -> int {
    if exists|i: int| is_first_memory(entries, id, i) {
        choose|i: int| is_first_memory(entries, id, i)
    } else {
        -1
    }
}

proof fn lemma_memory_pos(entries: Seq<SpaceMemoryEntryView>, id: Seq<char>, i: int)
    requires
        is_first_memory(entries, id, i),
    ensures
        memory_pos(entries, id) == i,
{
    let k = choose|k: int| is_first_memory(entries, id, k);
    assert(is_first_memory(entries, id, k));
    if k < i {
        assert(entries[k].space_id != id);
    } else if i < k {
        assert(entries[i].space_id != id);
    }
}

proof fn lemma_no_memory(entries: Seq<SpaceMemoryEntryView>, id: Seq<char>)
    requires
        forall|j: int| 0 <= j < entries.len() ==> entries[j].space_id != id,
    ensures
        memory_pos(entries, id) == -1,
{
    if exists|i: int| is_first_memory(entries, id, i) {
        let k = choose|k: int| is_first_memory(entries, id, k);
        assert(entries[k].space_id != id);
    }
}

fn find_memory(entries: &Vec<SpaceMemoryEntry>, id: &SpaceId) -> (r: Option<usize>)
    ensures
        match r {
            Some(i) => memory_pos(views(entries@), id@) == i as int,
            None => memory_pos(views(entries@), id@) == -1,
        },
{
    let ghost ev = views(entries@);
    let n = entries.len();
    let mut i: usize = 0;
    while i < n
        invariant
            n == entries@.len(),
            ev == views(entries@),
            i <= n,
            forall|j: int| 0 <= j < i ==> ev[j].space_id != id@,
        decreases n - i,
    {
        if str_eq(entries[i].space_id.0.as_str(), id.0.as_str()) {
            proof {
                assert(ev[i as int].space_id == id@);
                lemma_memory_pos(ev, id@, i as int);
            }
            return Some(i);
        }
        assert(ev[i as int].space_id != id@);
        i = i + 1;
    }
    proof {
        lemma_no_memory(ev, id@);
    }
    None
}

/// The remembered view of the space `id`: its entry, or the default one.
pub open spec fn memory_of(memory: TuiMemoryView, id: Seq<char>) -> SpaceViewMemoryView {
    let p = memory_pos(memory.spaces, id);
    if p >= 0 {
        memory.spaces[p].memory
    } else {
        SpaceViewMemoryView { selected_task_id: None, expanded_task_ids: Seq::empty(), task_tree_scroll: 0, details_scroll: 0 }
    }
}

impl TuiState {
    /// The task on the selected row.
    pub fn selected_task_id(&self) -> (r: Option<TaskId>)
        requires
            self.wf(),
        ensures
            match self.selected {
                Some(i) => r matches Some(id) && id@ == self.visible_tasks@[i as int]@.task.id,
                None => r is None,
            },
    {
        match self.selected {
            Some(i) => Some(self.visible_tasks[i].task.id.clone()),
            None => None,
        }
    }

    /// The summary of the space on view, when it is listed.
    pub open spec fn viewed_pos(&self) -> int {
        match self.viewed_space_id {
            Some(id) => summary_pos(views(self.spaces@), id@),
            None => -1,
        }
    }

    fn viewed_index(&self) -> (r: Option<usize>)
        ensures
            match r {
                Some(i) => self.viewed_pos() == i as int && i < self.spaces@.len(),
                None => self.viewed_pos() == -1,
            },
    {
        match &self.viewed_space_id {
            Some(id) => {
                let r = find_summary(&self.spaces, id);
                proof {
                    if let Some(i) = r {
                        assert(is_first_summary(views(self.spaces@), id@, i as int));
                    }
                }
                r
            },
            None => None,
        }
    }

    /// Changes can be made in the space on view only while it is active.
    pub open spec fn can_mutate(&self) -> bool {
        self.viewed_pos() >= 0 && self.spaces@[self.viewed_pos()]@.space.state == SpaceState::Active
    }

    pub fn can_mutate_viewed_space(&self) -> (r: bool)
        ensures
            r == self.can_mutate(),
    {
        match self.viewed_index() {
            Some(i) => self.spaces[i].space.state.is_active(),
            None => false,
        }
    }

    /// The label of the space button: the name of the space on view.
    pub fn space_button_label(&self) -> (r: String)
        ensures
            r@ == (if self.viewed_pos() >= 0 { "Space: "@ + self.spaces@[self.viewed_pos()]@.space.name } else { "Space: none"@ }),
    {
        match self.viewed_index() {
            Some(i) => {
                let mut out = String::from_str("Space: ");
                out.append(self.spaces[i].space.name.as_str());
                proof {
                    reveal_strlit("Space: ");
                }
                out
            },
            None => {
                proof {
                    reveal_strlit("Space: none");
                }
                String::from_str("Space: none")
            },
        }
    }

    /// The position of the current space among the listed spaces, or -1.
    pub open spec fn current_pos(&self) -> int {
        match self.current_space_id {
            Some(id) => summary_pos(views(self.spaces@), id@),
            None => -1,
        }
    }

    fn current_index(&self) -> (r: Option<usize>)
        ensures
            match r {
                Some(i) => self.current_pos() == i as int && i < self.spaces@.len(),
                None => self.current_pos() == -1,
            },
    {
        match &self.current_space_id {
            Some(id) => {
                let r = find_summary(&self.spaces, id);
                proof {
                    if let Some(i) = r {
                        assert(is_first_summary(views(self.spaces@), id@, i as int));
                    }
                }
                r
            },
            None => None,
        }
    }

    /// The line of the space manager that names the space on view, with its
    /// state, and the current space when that is another one.
    pub open spec fn manager_context(&self) -> Seq<char> {
        let v = self.viewed_pos();
        let c = self.current_pos();
        if v >= 0 {
            let viewed = self.spaces@[v]@.space;
            if c >= 0 && c != v {
                "Viewed: "@ + viewed.name + " ["@ + state_word(viewed.state) + "] | Current: "@ + self.spaces@[c]@.space.name
            } else {
                "Viewed: "@ + viewed.name + " ["@ + state_word(viewed.state) + "]"@
            }
        } else if c >= 0 {
            "Current: "@ + self.spaces@[c]@.space.name
        } else {
            "No space selected yet."@
        }
    }

    pub fn space_manager_context_text(&self) -> (r: String)
        ensures
            r@ == self.manager_context(),
    {
        let v = self.viewed_index();
        let c = self.current_index();
        match v {
            Some(vi) => {
                let mut out = String::from_str("Viewed: ");
                out.append(self.spaces[vi].space.name.as_str());
                out.append(" [");
                match self.spaces[vi].space.state {
                    SpaceState::Archived => out.append("archived"),
                    SpaceState::Active => out.append("active"),
                }
                match c {
                    Some(ci) if ci != vi => {
                        out.append("] | Current: ");
                        out.append(self.spaces[ci].space.name.as_str());
                    },
                    _ => out.append("]"),
                }
                proof {
                    reveal_strlit("Viewed: ");
                    reveal_strlit(" [");
                    reveal_strlit("archived");
                    reveal_strlit("active");
                    reveal_strlit("] | Current: ");
                    reveal_strlit("]");
                }
                out
            },
            None => match c {
                Some(ci) => {
                    let mut out = String::from_str("Current: ");
                    out.append(self.spaces[ci].space.name.as_str());
                    proof {
                        reveal_strlit("Current: ");
                    }
                    out
                },
                None => {
                    proof {
                        reveal_strlit("No space selected yet.");
                    }
                    String::from_str("No space selected yet.")
                },
            },
        }
    }

    /// The buttons the space manager enables for the space selected in it.
    pub fn manager_actions(&self) -> (r: ManagerActions)
        ensures
            r.can_open == (self.selected_summary() is Some),
            r.can_rename == (self.selected_summary() is Some),
            r.can_archive == (self.selected_summary() matches Some(sp) && sp.space.state == SpaceState::Active),
            r.can_restore == (self.selected_summary() matches Some(sp) && sp.space.state == SpaceState::Archived),
            r.can_purge == r.can_restore,
            r.lifecycle_restores == r.can_restore,
    {
        let (selected, active, archived) = if self.space_index < self.spaces.len() {
            let state = self.spaces[self.space_index].space.state;
            (true, state.is_active(), !state.is_active())
        } else {
            (false, false, false)
        };
        proof {
            if self.space_index < self.spaces@.len() {
                assert(views(self.spaces@)[self.space_index as int] == self.spaces@[self.space_index as int]@);
            }
        }
        ManagerActions {
            can_open: selected,
            can_rename: selected,
            can_archive: active,
            can_restore: archived,
            can_purge: archived,
            lifecycle_restores: archived,
        }
    }

    /// The task actions the detail panel offers for the task it shows.
    pub fn detail_actions(&self) -> (r: DetailActions)
        ensures
            r.selected_archived == (self.details matches Some(d) && d.task.archived),
            r.selected_status == (match self.details {
                Some(d) => Some(d.task.status),
                None => None,
            }),
            r.can_create == (self.viewed_pos() >= 0 && self.can_mutate()),
            r.can_edit_task == (self.details is Some && self.can_mutate() && !r.selected_archived),
            r.can_restore == (r.selected_archived && self.can_mutate()),
            r.can_purge == (r.selected_archived && self.can_mutate()),
            r.can_status == (self.details is Some && self.can_mutate() && !r.selected_archived),
            r.show_arrange == (self.current_sort == SortMode::Manual),
            r.can_reorder == (r.can_edit_task && r.show_arrange),
    {
        let (selected, selected_archived, selected_status) = match &self.details {
            Some(d) => (true, d.task.archived, Some(d.task.status)),
            None => (false, false, None),
        };
        let can_mutate = self.can_mutate_viewed_space();
        let viewed = self.viewed_index().is_some();
        let can_create = viewed && can_mutate;
        let can_edit_task = selected && can_mutate && !selected_archived;
        let can_restore = selected_archived && can_mutate;
        let can_purge = selected_archived && can_mutate;
        let can_status = selected && can_mutate && !selected_archived;
        let show_arrange = match self.current_sort {
            SortMode::Manual => true,
            _ => false,
        };
        let can_reorder = can_edit_task && show_arrange;
        DetailActions {
            can_create,
            can_edit_task,
            can_restore,
            can_purge,
            can_status,
            show_arrange,
            can_reorder,
            selected_archived,
            selected_status,
        }
    }

    /// What the task tree says when it shows no task.
    pub fn task_tree_empty_message(&self) -> (r: &'static str)
        ensures
            r@ == (if self.spaces@.len() == 0 {
                "No spaces yet. Click the Space button to open the manager and create your first space."@
            } else if crate::text::is_blank(self.task_filter@) {
                "No tasks in this view. Click + Task to create one."@
            } else {
                "No tasks match the current filter. Click Filter to adjust it."@
            }),
    {
        if self.spaces.len() == 0 {
            "No spaces yet. Click the Space button to open the manager and create your first space."
        } else if str_is_blank(self.task_filter.as_str()) {
            "No tasks in this view. Click + Task to create one."
        } else {
            "No tasks match the current filter. Click Filter to adjust it."
        }
    }

    /// The label of the filter button.
    pub fn filter_label(&self) -> (r: String)
        ensures
            r@ == (if crate::text::is_blank(self.task_filter@) { "Filter: all"@ } else { "Filter: "@ + trimmed(self.task_filter@) }),
    {
        if str_is_blank(self.task_filter.as_str()) {
            proof {
                reveal_strlit("Filter: all");
            }
            String::from_str("Filter: all")
        } else {
            let mut out = String::from_str("Filter: ");
            let t = trim_text(self.task_filter.as_str());
            out.append(t.as_str());
            proof {
                reveal_strlit("Filter: ");
            }
            out
        }
    }

    /// The shortcuts the footer lists for the open dialog or focused panel.
    pub fn help_text(&self) -> (r: &'static str)
        ensures
            r@ == help_line(self.mode, self.focus_area),
    {
        match &self.mode {
            Mode::Help => "[Scroll] [Close] [Ctrl+C Quit]",
            Mode::SpaceManager { .. } => "[Select Space] [Open] [Manage] [Esc Close] [Ctrl+C Quit]",
            Mode::Filter { .. } => "[Type Filter] [Apply] [Clear] [Cancel] [Ctrl+C Quit]",
            Mode::SpaceForm { .. } => "[Type Name] [Save] [Cancel] [Ctrl+C Quit]",
            Mode::TaskForm { .. } => "[Type] [Pick Status] [Save] [Cancel] [Ctrl+C Quit]",
            Mode::LogForm { .. } => "[Type Log] [Save] [Cancel] [Ctrl+C Quit]",
            Mode::PurgeTaskConfirm { .. } => "[Type purge] [Confirm] [Cancel] [Ctrl+C Quit]",
            Mode::PurgeSpaceConfirm { .. } => "[Type purge] [Confirm] [Cancel] [Ctrl+C Quit]",
            Mode::Browse => match self.focus_area {
                FocusArea::Spaces => "[Spaces] [Select] [Open] [Action] [Ctrl+C Quit]",
                FocusArea::TaskTree => "[Spaces] [Scroll] [Select] [Toggle] [Ctrl+C Quit]",
                FocusArea::Details => "[Spaces] [Scroll] [Select] [Action] [Ctrl+C Quit]",
            },
        }
    }
}

/// The shortcut line of the footer.
pub open spec fn help_line(mode: Mode, focus: FocusArea) -> Seq<char> {
    match mode {
        Mode::Help => "[Scroll] [Close] [Ctrl+C Quit]"@,
        Mode::SpaceManager { .. } => "[Select Space] [Open] [Manage] [Esc Close] [Ctrl+C Quit]"@,
        Mode::Filter { .. } => "[Type Filter] [Apply] [Clear] [Cancel] [Ctrl+C Quit]"@,
        Mode::SpaceForm { .. } => "[Type Name] [Save] [Cancel] [Ctrl+C Quit]"@,
        Mode::TaskForm { .. } => "[Type] [Pick Status] [Save] [Cancel] [Ctrl+C Quit]"@,
        Mode::LogForm { .. } => "[Type Log] [Save] [Cancel] [Ctrl+C Quit]"@,
        Mode::PurgeTaskConfirm { .. } => "[Type purge] [Confirm] [Cancel] [Ctrl+C Quit]"@,
        Mode::PurgeSpaceConfirm { .. } => "[Type purge] [Confirm] [Cancel] [Ctrl+C Quit]"@,
        Mode::Browse => match focus {
            FocusArea::Spaces => "[Spaces] [Select] [Open] [Action] [Ctrl+C Quit]"@,
            FocusArea::TaskTree => "[Spaces] [Scroll] [Select] [Toggle] [Ctrl+C Quit]"@,
            FocusArea::Details => "[Spaces] [Scroll] [Select] [Action] [Ctrl+C Quit]"@,
        },
    }
}


// ---------------------------------------------------------------------------
// The remembered view of each space

pub open spec fn default_memory() -> SpaceViewMemoryView {
    SpaceViewMemoryView { selected_task_id: None, expanded_task_ids: Seq::empty(), task_tree_scroll: 0, details_scroll: 0 }
}

proof fn lemma_memory_ids_same(a: Seq<SpaceMemoryEntryView>, b: Seq<SpaceMemoryEntryView>, id: Seq<char>)
    requires
        a.len() == b.len(),
        forall|j: int| 0 <= j < a.len() ==> a[j].space_id == b[j].space_id,
    ensures
        memory_pos(a, id) == memory_pos(b, id),
{
    if exists|i: int| is_first_memory(a, id, i) {
        let k = choose|k: int| is_first_memory(a, id, k);
        assert(is_first_memory(b, id, k));
        lemma_memory_pos(a, id, k);
        lemma_memory_pos(b, id, k);
    } else {
        assert forall|j: int| 0 <= j < b.len() implies b[j].space_id != id by {
            if b[j].space_id == id {
                if forall|q: int| 0 <= q < j ==> b[q].space_id != id {
                    assert(is_first_memory(a, id, j));
                } else {
                    let q = choose|q: int| 0 <= q < j && b[q].space_id == id;
                    assert(a[q].space_id == id);
                    lemma_first_of_some(a, id, q);
                }
            }
        }
        lemma_no_memory(b, id);
        lemma_no_memory_a(a, id);
    }
}

proof fn lemma_first_of_some(a: Seq<SpaceMemoryEntryView>, id: Seq<char>, q: int)
    requires
        0 <= q < a.len(),
        a[q].space_id == id,
    ensures
        exists|i: int| is_first_memory(a, id, i),
    decreases q,
{
    if forall|p: int| 0 <= p < q ==> a[p].space_id != id {
        assert(is_first_memory(a, id, q));
    } else {
        let p = choose|p: int| 0 <= p < q && a[p].space_id == id;
        lemma_first_of_some(a, id, p);
    }
}

proof fn lemma_no_memory_a(a: Seq<SpaceMemoryEntryView>, id: Seq<char>)
    requires
        !(exists|i: int| is_first_memory(a, id, i)),
    ensures
        memory_pos(a, id) == -1,
{
}

impl TuiState {
    /// The remembered view of the space on view; the default one when no
    /// space is on view.
    pub open spec fn viewed_memory(&self) -> SpaceViewMemoryView {
        match self.viewed_space_id {
            Some(id) => memory_of(self.tui_memory@, id@),
            None => default_memory(),
        }
    }

    fn viewed_memory_copy(&self) -> (r: SpaceViewMemory)
        ensures
            r@ == self.viewed_memory(),
    {
        match &self.viewed_space_id {
            Some(id) => match find_memory(&self.tui_memory.spaces, id) {
                Some(i) => {
                    assert(views(self.tui_memory.spaces@)[i as int] == self.tui_memory.spaces@[i as int]@);
                    self.tui_memory.spaces[i].memory.clone()
                },
                None => SpaceViewMemory::default(),
            },
            None => SpaceViewMemory::default(),
        }
    }

    /// Replaces the remembered view of the space on view; the memories of
    /// the other spaces stay.
    fn store_memory(&mut self, memory: SpaceViewMemory)
        requires
            old(self).wf(),
            old(self).viewed_space_id is Some,
        ensures
            final(self).wf(),
            final(self).viewed_memory() == memory@,
            forall|id: Seq<char>| Some(id) != opt_view(old(self).viewed_space_id)
                ==> #[trigger] memory_of(final(self).tui_memory@, id) == memory_of(old(self).tui_memory@, id),
            final(self).tui_memory@ == (TuiMemoryView { spaces: final(self).tui_memory@.spaces, ..old(self).tui_memory@ }),
            keeps_dialogs(*final(self), *old(self)),
            keeps_scroll(*final(self), *old(self)),
            final(self).should_quit == old(self).should_quit,
            final(self).current_space_id == old(self).current_space_id,
            final(self).viewed_space_id == old(self).viewed_space_id,
            final(self).current_view == old(self).current_view,
            final(self).current_sort == old(self).current_sort,
            final(self).space_list_mode == old(self).space_list_mode,
            final(self).task_filter == old(self).task_filter,
            final(self).spaces == old(self).spaces,
            final(self).space_index == old(self).space_index,
            final(self).task_result == old(self).task_result,
            final(self).visible_tasks == old(self).visible_tasks,
            final(self).selected == old(self).selected,
            final(self).details == old(self).details,
            final(self).status_message == old(self).status_message,
            final(self).tree_rows == old(self).tree_rows,
            final(self).manager_rows == old(self).manager_rows,
            final(self).narrow == old(self).narrow,
    {
        let vid = match &self.viewed_space_id {
            Some(id) => id.clone(),
            None => {
                return;
            },
        };
        let ghost before = views(self.tui_memory.spaces@);
        let ghost m = memory@;
        let entry = SpaceMemoryEntry { space_id: vid.clone(), memory };
        match find_memory(&self.tui_memory.spaces, &vid) {
            Some(i) => {
                self.tui_memory.spaces.set(i, entry);
                proof {
                    let after = views(self.tui_memory.spaces@);
                    assert(after =~= before.update(i as int, SpaceMemoryEntryView { space_id: vid@, memory: m }));
                    assert forall|id: Seq<char>| #[trigger] memory_pos(after, id) == memory_pos(before, id) by {
                        lemma_memory_ids_same(before, after, id);
                    }
                    assert(is_first_memory(before, vid@, i as int));
                }
            },
            None => {
                self.tui_memory.spaces.push(entry);
                proof {
                    let after = views(self.tui_memory.spaces@);
                    assert(after =~= before.push(SpaceMemoryEntryView { space_id: vid@, memory: m }));
                    let n = before.len() as int;
                    assert forall|j: int| 0 <= j < n implies before[j].space_id != vid@ by {
                        if before[j].space_id == vid@ {
                            lemma_first_of_some(before, vid@, j);
                        }
                    }
                    assert(is_first_memory(after, vid@, n));
                    lemma_memory_pos(after, vid@, n);
                    let newmem = TuiMemoryView { spaces: after, ..old(self).tui_memory@ };
                    assert forall|id: Seq<char>| id != vid@ implies #[trigger] memory_of(newmem, id)
                        == memory_of(old(self).tui_memory@, id) by {
                        if exists|k: int| is_first_memory(before, id, k) {
                            let k = choose|k: int| is_first_memory(before, id, k);
                            assert(is_first_memory(after, id, k));
                            lemma_memory_pos(before, id, k);
                            lemma_memory_pos(after, id, k);
                        } else {
                            assert forall|j: int| 0 <= j < after.len() implies after[j].space_id != id by {
                                if j < n && after[j].space_id == id {
                                    lemma_first_of_some(before, id, j);
                                }
                            }
                            lemma_no_memory(after, id);
                        }
                    }
                }
            },
        }
    }

    /// Remembers the task as selected in the space on view.
    fn select_task_after_action(&mut self, task_id: TaskId)
        requires
            old(self).wf(),
        ensures
            final(self).wf(),
            old(self).viewed_space_id is Some ==> final(self).viewed_memory() == (SpaceViewMemoryView {
                selected_task_id: Some(task_id@),
                ..old(self).viewed_memory()
            }),
            final(self).viewed_space_id == old(self).viewed_space_id,
            final(self).visible_tasks == old(self).visible_tasks,
            final(self).selected == old(self).selected,
            final(self).task_result == old(self).task_result,
            final(self).current_view == old(self).current_view,
            final(self).current_sort == old(self).current_sort,
            final(self).space_list_mode == old(self).space_list_mode,
            final(self).task_filter == old(self).task_filter,
            keeps_dialogs(*final(self), *old(self)),
            final(self).status_message == old(self).status_message,
            final(self).background_mode == old(self).background_mode,
            final(self).spaces == old(self).spaces,
            final(self).current_space_id == old(self).current_space_id,
            final(self).should_quit == old(self).should_quit,
    {
        if self.viewed_space_id.is_none() {
            return;
        }
        let mut memory = self.viewed_memory_copy();
        memory.selected_task_id = Some(task_id);
        self.store_memory(memory);
    }

    /// Shows the subtree of the task in the space on view.
    fn expand_task(&mut self, task_id: TaskId)
        requires
            old(self).wf(),
        ensures
            final(self).wf(),
            old(self).viewed_space_id is Some ==> final(self).viewed_memory() == (SpaceViewMemoryView {
                expanded_task_ids: if old(self).viewed_memory().expanded_task_ids.contains(task_id@) {
                    old(self).viewed_memory().expanded_task_ids
                } else {
                    old(self).viewed_memory().expanded_task_ids.push(task_id@)
                },
                ..old(self).viewed_memory()
            }),
            final(self).viewed_space_id == old(self).viewed_space_id,
            final(self).visible_tasks == old(self).visible_tasks,
            final(self).selected == old(self).selected,
            final(self).task_result == old(self).task_result,
            final(self).current_view == old(self).current_view,
            final(self).current_sort == old(self).current_sort,
            final(self).space_list_mode == old(self).space_list_mode,
            final(self).task_filter == old(self).task_filter,
            keeps_dialogs(*final(self), *old(self)),
            final(self).status_message == old(self).status_message,
            final(self).background_mode == old(self).background_mode,
            final(self).spaces == old(self).spaces,
            final(self).current_space_id == old(self).current_space_id,
            final(self).should_quit == old(self).should_quit,
    {
        if self.viewed_space_id.is_none() {
            return;
        }
        let mut memory = self.viewed_memory_copy();
        if !crate::hierarchy::contains_task_id(&memory.expanded_task_ids, &task_id) {
            let ghost before = views(memory.expanded_task_ids@);
            memory.expanded_task_ids.push(task_id);
            assert(views(memory.expanded_task_ids@) =~= before.push(task_id@));
        } else {
            assert(crate::hierarchy::id_set(memory.expanded_task_ids@).contains(task_id@));
        }
        self.store_memory(memory);
    }

    /// Hides the subtree of the task in the space on view.
    fn collapse_task(&mut self, task_id: &TaskId)
        requires
            old(self).wf(),
        ensures
            final(self).wf(),
            old(self).viewed_space_id is Some ==> final(self).viewed_memory() == (SpaceViewMemoryView {
                expanded_task_ids: old(self).viewed_memory().expanded_task_ids.filter(|x: Seq<char>| x != task_id@),
                ..old(self).viewed_memory()
            }),
            old(self).viewed_space_id is Some ==> !final(self).viewed_memory().expanded_task_ids.contains(task_id@),
            final(self).viewed_space_id == old(self).viewed_space_id,
            final(self).visible_tasks == old(self).visible_tasks,
            final(self).selected == old(self).selected,
            final(self).task_result == old(self).task_result,
            final(self).current_view == old(self).current_view,
            final(self).current_sort == old(self).current_sort,
            final(self).space_list_mode == old(self).space_list_mode,
            final(self).task_filter == old(self).task_filter,
            keeps_dialogs(*final(self), *old(self)),
            final(self).status_message == old(self).status_message,
            final(self).background_mode == old(self).background_mode,
            final(self).spaces == old(self).spaces,
            final(self).current_space_id == old(self).current_space_id,
            final(self).should_quit == old(self).should_quit,
    {
        if self.viewed_space_id.is_none() {
            return;
        }
        let mut memory = self.viewed_memory_copy();
        let ghost ids = views(memory.expanded_task_ids@);
        let ghost keep = |x: Seq<char>| x != task_id@;
        let mut kept: Vec<TaskId> = Vec::new();
        let n = memory.expanded_task_ids.len();
        let mut i: usize = 0;
        proof {
            reveal_with_fuel(Seq::<_>::filter, 1);
        }
        assert(ids.take(0) =~= Seq::<Seq<char>>::empty());
        while i < n
            invariant
                n == memory.expanded_task_ids@.len(),
                ids == views(memory.expanded_task_ids@),
                keep == (|x: Seq<char>| x != task_id@),
                i <= n,
                views(kept@) == ids.take(i as int).filter(keep),
            decreases n - i,
        {
            proof {
                reveal_with_fuel(Seq::<_>::filter, 1);
                assert(ids.take(i + 1).drop_last() =~= ids.take(i as int));
                assert(ids.take(i + 1).last() == ids[i as int]);
            }
            if !str_eq(memory.expanded_task_ids[i].0.as_str(), task_id.0.as_str()) {
                let ghost before = views(kept@);
                kept.push(memory.expanded_task_ids[i].clone());
                assert(views(kept@) =~= before.push(ids[i as int]));
            }
            i = i + 1;
        }
        assert(ids.take(n as int) =~= ids);
        proof {
            if views(kept@).contains(task_id@) {
                let k = choose|k: int| 0 <= k < views(kept@).len() && views(kept@)[k] == task_id@;
                ids.filter_lemma(keep);
                assert(keep(views(kept@)[k]));
            }
        }
        memory.expanded_task_ids = kept;
        self.store_memory(memory);
    }
}


// ---------------------------------------------------------------------------
// The rows of the task tree

pub open spec fn is_first_row(vis: Seq<VisibleTaskEntryView>, id: Seq<char>, i: int) -> bool {
    &&& 0 <= i < vis.len()
    &&& vis[i].task.id == id
    &&& forall|j: int| 0 <= j < i ==> vis[j].task.id != id
}

/// The first row of the task `id`, or -1.
pub open spec fn row_pos(vis: Seq<VisibleTaskEntryView>, id: Seq<char>) -> int {
    if exists|i: int| is_first_row(vis, id, i) {
        choose|i: int| is_first_row(vis, id, i)
    } else {
        -1
    }
}

proof fn lemma_row_pos(vis: Seq<VisibleTaskEntryView>, id: Seq<char>, i: int)
    requires
        is_first_row(vis, id, i),
    ensures
        row_pos(vis, id) == i,
{
    let k = choose|k: int| is_first_row(vis, id, k);
    assert(is_first_row(vis, id, k));
    if k < i {
        assert(vis[k].task.id != id);
    } else if i < k {
        assert(vis[i].task.id != id);
    }
}

proof fn lemma_no_row(vis: Seq<VisibleTaskEntryView>, id: Seq<char>)
    requires
        forall|j: int| 0 <= j < vis.len() ==> vis[j].task.id != id,
    ensures
        row_pos(vis, id) == -1,
{
    if exists|i: int| is_first_row(vis, id, i) {
        let k = choose|k: int| is_first_row(vis, id, k);
        assert(vis[k].task.id != id);
    }
}

fn find_row(vis: &Vec<VisibleTaskEntry>, id: &TaskId) -> (r: Option<usize>)
    ensures
        match r {
            Some(i) => row_pos(views(vis@), id@) == i as int && i < vis@.len(),
            None => row_pos(views(vis@), id@) == -1,
        },
{
    let r = index_of_task(vis, id);
    proof {
        let vv = views(vis@);
        match r {
            Some(i) => {
                assert forall|j: int| 0 <= j < i implies vv[j].task.id != id@ by {
                    assert(vv[j] == vis@[j]@);
                }
                assert(vv[i as int] == vis@[i as int]@);
                lemma_row_pos(vv, id@, i as int);
            },
            None => {
                assert forall|j: int| 0 <= j < vv.len() implies vv[j].task.id != id@ by {
                    assert(vv[j] == vis@[j]@);
                }
                lemma_no_row(vv, id@);
            },
        }
    }
    r
}

/// The ids of the entries that have subtasks.
pub open spec fn parent_rows(entries: Seq<TaskListEntryView>) -> Seq<Seq<char>> {
    entries.filter(|e: TaskListEntryView| e.child_count > 0).map_values(|e: TaskListEntryView| e.task.id)
}

/// The tasks whose subtrees show: the remembered ones, or, while a filter
/// is set, every task with subtasks among the matches.
pub open spec fn expanded_for(filtered: Seq<TaskListEntryView>, filter: Seq<char>, remembered: Seq<Seq<char>>) -> Set<Seq<char>> {
    if is_blank(filter) {
        remembered.to_set()
    } else {
        parent_rows(filtered).to_set()
    }
}

/// The row to select: the preferred task, else the remembered one, else
/// the previous row while it exists, else the first row.
pub open spec fn pick_selection(vis: Seq<VisibleTaskEntryView>, preferred: Option<Seq<char>>, remembered: Option<Seq<char>>, previous: Option<usize>) -> Option<usize> {
    let p = match preferred {
        Some(id) => row_pos(vis, id),
        None => -1,
    };
    let m = match remembered {
        Some(id) => row_pos(vis, id),
        None => -1,
    };
    if p >= 0 {
        Some(p as usize)
    } else if m >= 0 {
        Some(m as usize)
    } else if previous matches Some(i) && i < vis.len() {
        previous
    } else if vis.len() > 0 {
        Some(0)
    } else {
        None
    }
}

/// The first row on screen after scrolling just enough to show the
/// selected row.
pub open spec fn offset_showing(selected: Option<usize>, offset: usize, height: nat) -> int {
    match selected {
        None => offset as int,
        Some(s) => if s < offset { s as int } else if s >= offset + height { s - height + 1 } else { offset as int },
    }
}

fn parent_row_ids(entries: &Vec<TaskListEntry>) -> (r: Vec<TaskId>)
    ensures
        views(r@) == parent_rows(views(entries@)),
{
    let ghost ev = views(entries@);
    let ghost keep = |e: TaskListEntryView| e.child_count > 0;
    let ghost id_of = |e: TaskListEntryView| e.task.id;
    let mut ids: Vec<TaskId> = Vec::new();
    let n = entries.len();
    let mut i: usize = 0;
    proof {
        reveal_with_fuel(Seq::<_>::filter, 1);
    }
    assert(ev.take(0) =~= Seq::<TaskListEntryView>::empty());
    assert(views(ids@) =~= ev.take(0).filter(keep).map_values(id_of));
    while i < n
        invariant
            n == entries@.len(),
            ev == views(entries@),
            keep == (|e: TaskListEntryView| e.child_count > 0),
            id_of == (|e: TaskListEntryView| e.task.id),
            i <= n,
            views(ids@) == ev.take(i as int).filter(keep).map_values(id_of),
        decreases n - i,
    {
        proof {
            reveal_with_fuel(Seq::<_>::filter, 1);
            assert(ev.take(i + 1).drop_last() =~= ev.take(i as int));
            assert(ev.take(i + 1).last() == ev[i as int]);
            assert(ev[i as int] == entries@[i as int]@);
        }
        if entries[i].child_count > 0 {
            let ghost before = views(ids@);
            let ghost f = ev.take(i as int).filter(keep);
            ids.push(entries[i].task.id.clone());
            assert(ev.take(i + 1).filter(keep) =~= f.push(ev[i as int]));
            assert(f.push(ev[i as int]).map_values(id_of) =~= f.map_values(id_of).push(ev[i as int].task.id));
            assert(views(ids@) =~= before.push(ev[i as int].task.id));
        } else {
            assert(ev.take(i + 1).filter(keep) =~= ev.take(i as int).filter(keep));
        }
        i = i + 1;
    }
    assert(ev.take(n as int) =~= ev);
    ids
}

proof fn lemma_filtered_printable(entries: Seq<TaskListEntryView>, query: Seq<char>)
    requires
        entries_printable(entries),
    ensures
        entries_printable(filtered_entries(entries, query)),
{
    let f = filtered_entries(entries, query);
    let q = crate::tree_view::lowercase(trimmed(query));
    if q.len() > 0 {
        let keep = crate::tree_view::kept_by(crate::tree_view::filter_keep(entries, q, entries));
        assert forall|i: int| 0 <= i < f.len() implies short_id_defined(#[trigger] f[i].task.id) by {
            assert(f.contains(f[i]));
            entries.lemma_filter_contains_rev(keep, f[i]);
            let j = choose|j: int| 0 <= j < entries.len() && entries[j] == f[i];
            assert(short_id_defined(entries[j].task.id));
        }
    }
}

impl TuiState {
    /// Rebuilds the rows of the task tree from the listing: the filter
    /// applied, collapsed subtrees hidden, the selection kept on the
    /// preferred task (or the remembered one, or the previous row) and
    /// scrolled into view.
    fn rebuild_visible_tasks(&mut self, preferred: Option<TaskId>, previous: Option<usize>)
        requires
            old(self).wf(),
        ensures
            final(self).wf(),
            match old(self).task_result {
                None => final(self).visible_tasks@.len() == 0 && final(self).selected is None && final(self).tree_offset == 0,
                Some(res) => {
                    let filtered = filtered_entries(views(res.entries@), old(self).task_filter@);
                    let vis = visible_scan(filtered, expanded_for(filtered, old(self).task_filter@, old(self).viewed_memory().expanded_task_ids)).0;
                    &&& views(final(self).visible_tasks@) == vis
                    &&& final(self).selected == pick_selection(vis, opt_view(preferred), old(self).viewed_memory().selected_task_id, previous)
                    &&& final(self).tree_offset == offset_showing(final(self).selected, old(self).viewed_memory().task_tree_scroll, old(self).tree_height())
                },
            },
            keeps_dialogs(*final(self), *old(self)),
            final(self).details_scroll == old(self).details_scroll,
            final(self).task_result == old(self).task_result,
            final(self).tui_memory == old(self).tui_memory,
            final(self).viewed_space_id == old(self).viewed_space_id,
            final(self).current_space_id == old(self).current_space_id,
            final(self).spaces == old(self).spaces,
            final(self).space_index == old(self).space_index,
            final(self).current_view == old(self).current_view,
            final(self).current_sort == old(self).current_sort,
            final(self).space_list_mode == old(self).space_list_mode,
            final(self).task_filter == old(self).task_filter,
            final(self).details == old(self).details,
            final(self).status_message == old(self).status_message,
            final(self).should_quit == old(self).should_quit,
            final(self).tree_rows == old(self).tree_rows,
            final(self).manager_rows == old(self).manager_rows,
            final(self).narrow == old(self).narrow,
    {
        let memory = self.viewed_memory_copy();
        let ghost mem = memory@;
        let remembered_selected = memory.selected_task_id;
        let remembered_scroll = memory.task_tree_scroll;
        let remembered_expanded = memory.expanded_task_ids;
        let visible = match &self.task_result {
            None => None,
            Some(result) => {
                proof {
                    lemma_filtered_printable(views(result.entries@), self.task_filter@);
                    assert forall|i: int| 0 <= i < result.entries@.len() implies short_id_defined(#[trigger] result.entries@[i]@.task.id) by {
                        assert(views(result.entries@)[i] == result.entries@[i]@);
                    }
                }
                let filtered = filter_task_entries(&result.entries, self.task_filter.as_str());
                let expanded = if str_is_blank(self.task_filter.as_str()) {
                    assert(crate::hierarchy::id_set(remembered_expanded@) == expanded_for(views(filtered@), self.task_filter@, mem.expanded_task_ids));
                    remembered_expanded
                } else {
                    let ids = parent_row_ids(&filtered);
                    assert(crate::hierarchy::id_set(ids@) == expanded_for(views(filtered@), self.task_filter@, mem.expanded_task_ids));
                    ids
                };
                Some(build_visible_tasks(&filtered, &expanded))
            },
        };
        match visible {
            None => {
                self.visible_tasks = Vec::new();
                self.selected = None;
                self.tree_offset = 0;
            },
            Some(vis) => {
                let ghost vv = views(vis@);
                let by_preferred = match &preferred {
                    Some(id) => find_row(&vis, id),
                    None => None,
                };
                let by_memory = match &remembered_selected {
                    Some(id) => find_row(&vis, id),
                    None => None,
                };
                let selected = match by_preferred {
                    Some(i) => Some(i),
                    None => match by_memory {
                        Some(i) => Some(i),
                        None => match previous {
                            Some(i) => {
                                if i < vis.len() {
                                    Some(i)
                                } else if vis.len() > 0 {
                                    Some(0)
                                } else {
                                    None
                                }
                            },
                            None => {
                                if vis.len() > 0 {
                                    Some(0)
                                } else {
                                    None
                                }
                            },
                        },
                    },
                };
                self.visible_tasks = vis;
                self.selected = selected;
                self.tree_offset = remembered_scroll;
                self.ensure_selected_task_visible();
            },
        }
    }
}


// ---------------------------------------------------------------------------
// Reading the stored data into the interface

/// `r` is what showing the task `id` gives.
pub open spec fn details_loaded(repo: RepoView, id: Seq<char>, r: Result<TaskDetails, AppError>) -> bool {
    exists|q: ShowTaskQuery| q.task_ref@ == id && #[trigger] show_task_outcome(repo, q, r)
}

/// The space on view after a reload is listed, or there is none.
proof fn lemma_next_viewed_listed(viewed: Option<Seq<char>>, current: Option<Seq<char>>, spaces: Seq<SpaceSummaryView>)
    ensures
        next_viewed(viewed, current, spaces) matches Some(x) ==> summary_pos(spaces, x) >= 0,
{
    if spaces.len() > 0 {
        assert(is_first_summary(spaces, spaces[0].space.id, 0));
        lemma_summary_pos(spaces, spaces[0].space.id, 0);
    }
}

pub open spec fn first_space_id(spaces: Seq<SpaceSummaryView>) -> Option<Seq<char>> {
    if spaces.len() > 0 { Some(spaces[0].space.id) } else { None }
}

pub open spec fn is_listed(spaces: Seq<SpaceSummaryView>, id: Option<Seq<char>>) -> bool {
    id matches Some(x) && summary_pos(spaces, x) >= 0
}

/// The space on view after a reload: the one on view, else the current
/// space, else the first listed; one that is no longer listed gives way
/// to the current space when listed, else to the first listed.
pub open spec fn next_viewed(viewed: Option<Seq<char>>, current: Option<Seq<char>>, spaces: Seq<SpaceSummaryView>) -> Option<Seq<char>> {
    let v = if viewed is Some { viewed } else if current is Some { current } else { first_space_id(spaces) };
    if v is None || is_listed(spaces, v) {
        v
    } else if is_listed(spaces, current) {
        current
    } else {
        first_space_id(spaces)
    }
}

/// The selected space after a reload: the one selected before, else the
/// one on view, else the first.
pub open spec fn next_space_index(previous: Option<Seq<char>>, viewed: Option<Seq<char>>, spaces: Seq<SpaceSummaryView>) -> usize {
    if is_listed(spaces, previous) {
        summary_pos(spaces, previous->0) as usize
    } else if is_listed(spaces, viewed) {
        summary_pos(spaces, viewed->0) as usize
    } else {
        0
    }
}

/// Where a reload leaves the selection and the scroll positions of the
/// space on view: the selection on the `preferred` task, else on the one
/// the space remembers, else on the `previous` row while it exists, else on
/// the first row; the tree scrolled from where the space left it just
/// enough to show the selection; the details scrolled as the space left
/// them. With no space on view nothing is selected or scrolled.
pub open spec fn reloaded_rows(before: TuiState, after: TuiState, preferred: Option<Seq<char>>, previous: Option<usize>) -> bool {
    let mem = after.viewed_memory();
    match after.viewed_space_id {
        None => after.selected is None && after.tree_offset == 0 && after.details_scroll == 0,
        Some(_) => {
            &&& after.selected == pick_selection(shown_rows(after), preferred, mem.selected_task_id, previous)
            &&& after.tree_offset == offset_showing(after.selected, mem.task_tree_scroll, after.tree_height())
            &&& after.details_scroll == mem.details_scroll
        },
    }
}

impl TuiState {
    /// Loads the details of the selected task; none without a selection.
    fn refresh_details(&mut self, repo: &Repository) -> (r: Result<(), AppError>)
        requires
            old(self).wf(),
            repo.wf(),
            ids_split(repo@),
        ensures
            final(self).wf(),
            match old(self).selected {
                None => r is Ok && final(self).details is None,
                Some(i) => exists|dr: Result<TaskDetails, AppError>|
                    details_loaded(repo@, old(self).visible_tasks@[i as int]@.task.id, dr) && match dr {
                        Ok(d) => r is Ok && final(self).details == Some(d),
                        Err(e) => (r matches Err(x) && x@ == e@) && final(self).details == old(self).details,
                    },
            },
            keeps_dialogs(*final(self), *old(self)),
            keeps_scroll(*final(self), *old(self)),
            final(self).visible_tasks == old(self).visible_tasks,
            final(self).selected == old(self).selected,
            final(self).task_result == old(self).task_result,
            final(self).tui_memory == old(self).tui_memory,
            final(self).viewed_space_id == old(self).viewed_space_id,
            final(self).current_space_id == old(self).current_space_id,
            final(self).spaces == old(self).spaces,
            final(self).space_index == old(self).space_index,
            final(self).current_view == old(self).current_view,
            final(self).current_sort == old(self).current_sort,
            final(self).space_list_mode == old(self).space_list_mode,
            final(self).task_filter == old(self).task_filter,
            final(self).status_message == old(self).status_message,
            final(self).should_quit == old(self).should_quit,
            final(self).tree_rows == old(self).tree_rows,
            final(self).manager_rows == old(self).manager_rows,
            final(self).narrow == old(self).narrow,
    {
        match self.selected_task_id() {
            None => {
                self.details = None;
                Ok(())
            },
            Some(id) => {
                let query = ShowTaskQuery { task_ref: id.0 };
                let ghost q = query;
                let dr = TaskService::new().show_task(repo, query);
                let ghost g = dr;
                match dr {
                    Ok(d) => {
                        self.details = Some(d);
                        assert(details_loaded(repo@, old(self).visible_tasks@[old(self).selected->0 as int]@.task.id, g));
                        Ok(())
                    },
                    Err(e) => {
                        assert(details_loaded(repo@, old(self).visible_tasks@[old(self).selected->0 as int]@.task.id, g));
                        Err(e)
                    },
                }
            },
        }
    }
}


impl TuiState {
    /// Rereads the current space and the listed spaces, and settles which
    /// space is on view and which is selected.
    #[verifier::rlimit(40)]
    fn reload_spaces(&mut self, repo: &Repository)
        requires
            old(self).wf(),
            repo.wf(),
        ensures
            final(self).wf(),
            views(final(self).spaces@) == space_summaries(repo@, old(self).space_list_mode == SpaceListMode::All),
            opt_view(final(self).current_space_id) == repo@.state.current_space_id,
            opt_view(final(self).viewed_space_id) == next_viewed(opt_view(old(self).viewed_space_id), repo@.state.current_space_id, views(final(self).spaces@)),
            final(self).space_index == next_space_index(
                if old(self).space_index < old(self).spaces@.len() { Some(old(self).spaces@[old(self).space_index as int]@.space.id) } else { None },
                opt_view(final(self).viewed_space_id),
                views(final(self).spaces@),
            ),
            keeps_dialogs(*final(self), *old(self)),
            keeps_scroll(*final(self), *old(self)),
            final(self).visible_tasks == old(self).visible_tasks,
            final(self).selected == old(self).selected,
            final(self).task_result == old(self).task_result,
            final(self).details == old(self).details,
            final(self).current_view == old(self).current_view,
            final(self).current_sort == old(self).current_sort,
            final(self).space_list_mode == old(self).space_list_mode,
            final(self).task_filter == old(self).task_filter,
            final(self).tui_memory == old(self).tui_memory,
            final(self).status_message == old(self).status_message,
            final(self).should_quit == old(self).should_quit,
            final(self).tree_rows == old(self).tree_rows,
            final(self).manager_rows == old(self).manager_rows,
            final(self).narrow == old(self).narrow,
    {
        let previous_space: Option<SpaceId> = if self.space_index < self.spaces.len() {
            Some(self.spaces[self.space_index].space.id.clone())
        } else {
            None
        };
        let state = repo.load_state();
        self.current_space_id = state.current_space_id;
        let listed = match SpaceService::new().list_spaces(repo, ListSpacesQuery { include_archived: self.space_list_mode.includes_archived() }) {
            Ok(v) => v,
            Err(_) => Vec::new(),
        };
        self.spaces = listed;
        let ghost sv = views(self.spaces@);
        let first: Option<SpaceId> = if self.spaces.len() > 0 {
            Some(self.spaces[0].space.id.clone())
        } else {
            None
        };
        assert(opt_view(first) == first_space_id(sv));
        let current_listed = match &self.current_space_id {
            Some(c) => find_summary(&self.spaces, c).is_some(),
            None => false,
        };
        if self.viewed_space_id.is_none() {
            self.viewed_space_id = match &self.current_space_id {
                Some(c) => Some(c.clone()),
                None => match &first {
                    Some(f) => Some(f.clone()),
                    None => None,
                },
            };
        }
        let viewed_listed = match &self.viewed_space_id {
            Some(v) => find_summary(&self.spaces, v).is_some(),
            None => true,
        };
        if !viewed_listed {
            self.viewed_space_id = if current_listed {
                match &self.current_space_id {
                    Some(c) => Some(c.clone()),
                    None => None,
                }
            } else {
                match &first {
                    Some(f) => Some(f.clone()),
                    None => None,
                }
            };
        }
        let by_previous = match &previous_space {
            Some(p) => find_summary(&self.spaces, p),
            None => None,
        };
        let by_viewed = match &self.viewed_space_id {
            Some(v) => find_summary(&self.spaces, v),
            None => None,
        };
        self.space_index = match by_previous {
            Some(i) => i,
            None => match by_viewed {
                Some(i) => i,
                None => 0,
            },
        };
    }

    /// Rereads the task tree of the space on view and the details of the
    /// selected task, keeping the selection on the previously selected task
    /// or row when it can.
    #[verifier::rlimit(30)]
    fn reload_tasks(&mut self, repo: &Repository, previous_task: Option<TaskId>, previous_index: Option<usize>) -> (r: Result<(), AppError>)
        requires
            old(self).wf(),
            repo.wf(),
            runnable(repo@),
            old(self).viewed_space_id matches Some(v) ==> crate::repository::space_index(repo@.spaces, v@) >= 0,
        ensures
            r is Ok,
            final(self).wf(),
            previous_task is Some && row_pos(views(final(self).visible_tasks@), previous_task->0@) >= 0
                ==> final(self).selected == Some(row_pos(views(final(self).visible_tasks@), previous_task->0@) as usize),
            r is Ok ==> match old(self).viewed_space_id {
                None => final(self).task_result is None && final(self).visible_tasks@.len() == 0 && final(self).selected is None
                    && final(self).details is None,
                Some(v) => match effective_space(repo@, Some(v@), false) {
                    Ok(sp) => final(self).task_result matches Some(res) && res.space@ == sp && res.view == old(self).current_view
                        && res.sort == old(self).current_sort
                        && views(res.entries@) == task_list_entries(space_tasks(repo@, sp.id), old(self).current_view, old(self).current_sort),
                    Err(_) => false,
                },
            },
            r is Ok ==> (final(self).selected matches Some(i) ==> (final(self).details matches Some(d)
                && details_loaded(repo@, final(self).visible_tasks@[i as int]@.task.id, Ok(d)))),
            views(final(self).visible_tasks@) == shown_rows(*final(self)),
            reloaded_rows(*old(self), *final(self), opt_view(previous_task), previous_index),
            keeps_dialogs(*final(self), *old(self)),
            final(self).spaces == old(self).spaces,
            final(self).space_index == old(self).space_index,
            final(self).current_space_id == old(self).current_space_id,
            final(self).viewed_space_id == old(self).viewed_space_id,
            final(self).current_view == old(self).current_view,
            final(self).current_sort == old(self).current_sort,
            final(self).space_list_mode == old(self).space_list_mode,
            final(self).task_filter == old(self).task_filter,
            final(self).tui_memory == old(self).tui_memory,
            final(self).status_message == old(self).status_message,
            final(self).should_quit == old(self).should_quit,
            final(self).tree_rows == old(self).tree_rows,
            final(self).manager_rows == old(self).manager_rows,
            final(self).narrow == old(self).narrow,
    {
        match &self.viewed_space_id {
            Some(v) => {
                let vid = v.clone();
                let query = ListTasksQuery {
                    space_ref: Some(vid.0),
                    view: Some(self.current_view),
                    sort: Some(self.current_sort),
                    allow_archived_space: true,
                };
                proof {
                    let i = crate::repository::space_index(repo@.spaces, v@);
                    assert(crate::refs::space_ids(repo@.spaces)[i] == v@);
                    assert(crate::refs::space_ids(repo@.spaces).contains(v@));
                }
                let result = match TaskService::new().list_tasks(repo, query) {
                    Ok(res) => res,
                    Err(e) => {
                        return Err(e);
                    },
                };
                proof {
                    crate::dispatch::lemma_space_tasks_printable(repo@, result.space@.id);
                    crate::dispatch::lemma_listing_printable(space_tasks(repo@, result.space@.id), result.view, result.sort);
                    crate::membership::lemma_space_tasks_within(repo@, result.space@.id);
                    crate::membership::lemma_listing_within(space_tasks(repo@, result.space@.id), result.view, result.sort);
                }
                self.task_result = Some(result);
                self.details_scroll = self.viewed_memory_copy().details_scroll;
                self.selected = None;
                let ghost pre = *self;
                self.rebuild_visible_tasks(previous_task, previous_index);
                proof {
                    if self.selected is Some {
                        let i = self.selected->0;
                        let res = pre.task_result->0;
                        let entries = views(res.entries@);
                        let filtered = filtered_entries(entries, pre.task_filter@);
                        let expanded = expanded_for(filtered, pre.task_filter@, pre.viewed_memory().expanded_task_ids);
                        crate::membership::lemma_visible_within(filtered, expanded);
                        let t = self.visible_tasks@[i as int]@.task;
                        assert(views(self.visible_tasks@)[i as int] == self.visible_tasks@[i as int]@);
                        let k = choose|k: int| 0 <= k < filtered.len() && filtered[k].task == t;
                        assert(filtered.contains(filtered[k]));
                        if crate::tree_view::lowercase(trimmed(pre.task_filter@)).len() > 0 {
                            let q = crate::tree_view::lowercase(trimmed(pre.task_filter@));
                            entries.lemma_filter_contains_rev(crate::tree_view::kept_by(crate::tree_view::filter_keep(entries, q, entries)), filtered[k]);
                        }
                        let m = choose|m: int| 0 <= m < entries.len() && entries[m] == filtered[k];
                        assert(space_tasks(repo@, res.space@.id).contains(entries[m].task));
                        let st = space_tasks(repo@, res.space@.id);
                        let j = choose|j: int| 0 <= j < st.len() && st[j] == t;
                        assert(crate::repository::all_tasks(repo@).contains(st[j]));
                        crate::membership::lemma_listed_task_loads(repo@, t);
                    }
                }
                match self.refresh_details(repo) {
                    Ok(()) => {},
                    Err(e) => {
                        return Err(e);
                    },
                }
                Ok(())
            },
            None => {
                self.task_result = None;
                self.visible_tasks = Vec::new();
                self.selected = None;
                self.tree_offset = 0;
                self.details = None;
                self.details_scroll = 0;
                Ok(())
            },
        }
    }

    /// Rereads what the interface shows: the current space, the listed
    /// spaces, the space on view and its task tree, the selection and the
    /// details of the selected task.
    pub fn reload(&mut self, repo: &Repository) -> (r: Result<(), AppError>)
        requires
            old(self).wf(),
            repo.wf(),
            runnable(repo@),
        ensures
            r is Ok,
            final(self).wf(),
            keeps_selection(*old(self), *final(self)),
            views(final(self).spaces@) == space_summaries(repo@, old(self).space_list_mode == SpaceListMode::All),
            opt_view(final(self).current_space_id) == repo@.state.current_space_id,
            opt_view(final(self).viewed_space_id) == next_viewed(opt_view(old(self).viewed_space_id), repo@.state.current_space_id, views(final(self).spaces@)),
            shows_listing(repo@, *final(self)),
            final(self).space_index == next_space_index(old(self).selected_summary_id(), opt_view(final(self).viewed_space_id), views(final(self).spaces@)),
            reloaded_rows(*old(self), *final(self), old(self).selected_row_id(), old(self).selected),
            keeps_dialogs(*final(self), *old(self)),
            final(self).current_view == old(self).current_view,
            final(self).current_sort == old(self).current_sort,
            final(self).space_list_mode == old(self).space_list_mode,
            final(self).task_filter == old(self).task_filter,
            final(self).tui_memory == old(self).tui_memory,
            final(self).status_message == old(self).status_message,
            final(self).should_quit == old(self).should_quit,
            final(self).tree_rows == old(self).tree_rows,
            final(self).manager_rows == old(self).manager_rows,
            final(self).narrow == old(self).narrow,
    {
        let previous_task = self.selected_task_id();
        let previous_index = self.selected;
        self.reload_spaces(repo);
        proof {
            lemma_next_viewed_listed(opt_view(old(self).viewed_space_id), repo@.state.current_space_id, views(self.spaces@));
            if self.viewed_space_id is Some {
                let v = self.viewed_space_id->0;
                let sp = views(self.spaces@);
                let p = summary_pos(sp, v@);
                crate::membership::lemma_summaries_within(repo@, old(self).space_list_mode == SpaceListMode::All);
                assert(sp[p].space.id == v@);
            }
        }
        self.reload_tasks(repo, previous_task, previous_index)
    }
}


impl TuiState {
    /// Writes what the interface shows into its memory: focus, selected
    /// space, space list, filter, and for the space on view the selected
    /// task and the scroll positions.
    fn sync_memory(&mut self)
        requires
            old(self).wf(),
        ensures
            final(self).wf(),
            final(self).tui_memory@.focus_area == old(self).focus_area,
            final(self).tui_memory@.spaces_cursor == old(self).space_index,
            final(self).tui_memory@.selected_space_id == opt_view(old(self).viewed_space_id),
            final(self).tui_memory@.space_list_mode == old(self).space_list_mode,
            final(self).tui_memory@.task_filter == old(self).task_filter@,
            old(self).viewed_space_id is Some ==> final(self).viewed_memory() == (SpaceViewMemoryView {
                selected_task_id: match old(self).selected {
                    Some(i) => Some(old(self).visible_tasks@[i as int]@.task.id),
                    None => None,
                },
                task_tree_scroll: old(self).tree_offset,
                details_scroll: old(self).details_scroll,
                ..old(self).viewed_memory()
            }),
            keeps_dialogs(*final(self), *old(self)),
            keeps_scroll(*final(self), *old(self)),
            final(self).visible_tasks == old(self).visible_tasks,
            final(self).selected == old(self).selected,
            final(self).task_result == old(self).task_result,
            final(self).viewed_space_id == old(self).viewed_space_id,
            final(self).current_space_id == old(self).current_space_id,
            final(self).current_view == old(self).current_view,
            final(self).current_sort == old(self).current_sort,
            final(self).space_list_mode == old(self).space_list_mode,
            final(self).task_filter == old(self).task_filter,
            final(self).spaces == old(self).spaces,
            final(self).space_index == old(self).space_index,
            final(self).should_quit == old(self).should_quit,
            final(self).details == old(self).details,
            final(self).status_message == old(self).status_message,
            final(self).tree_rows == old(self).tree_rows,
            final(self).manager_rows == old(self).manager_rows,
            final(self).narrow == old(self).narrow,
    {
        self.tui_memory.focus_area = self.focus_area;
        self.tui_memory.spaces_cursor = self.space_index;
        self.tui_memory.selected_space_id = match &self.viewed_space_id {
            Some(id) => Some(id.clone()),
            None => None,
        };
        self.tui_memory.space_list_mode = self.space_list_mode;
        self.tui_memory.task_filter = self.task_filter.clone();
        if self.viewed_space_id.is_some() {
            let mut memory = self.viewed_memory_copy();
            memory.selected_task_id = self.selected_task_id();
            memory.task_tree_scroll = self.tree_offset;
            memory.details_scroll = self.details_scroll;
            self.store_memory(memory);
        }
    }

    /// Saves the current space, view, sort and the interface's memory in
    /// the state.
    pub fn persist(&mut self, repo: &mut Repository) -> (r: Result<(), AppError>)
        requires
            old(self).wf(),
            old(repo).wf(),
        ensures
            r is Ok,
            final(self).wf(),
            final(repo).wf(),
            persisted(*old(self), *final(self), old(repo)@, final(repo)@),
            old(self).viewed_space_id is Some ==> final(self).viewed_memory() == (SpaceViewMemoryView {
                selected_task_id: match old(self).selected {
                    Some(i) => Some(old(self).visible_tasks@[i as int]@.task.id),
                    None => None,
                },
                task_tree_scroll: old(self).tree_offset,
                details_scroll: old(self).details_scroll,
                ..old(self).viewed_memory()
            }),
            keeps_dialogs(*final(self), *old(self)),
            keeps_scroll(*final(self), *old(self)),
            final(self).visible_tasks == old(self).visible_tasks,
            final(self).selected == old(self).selected,
            final(self).task_result == old(self).task_result,
            final(self).viewed_space_id == old(self).viewed_space_id,
            final(self).current_space_id == old(self).current_space_id,
            final(self).current_view == old(self).current_view,
            final(self).current_sort == old(self).current_sort,
            final(self).space_list_mode == old(self).space_list_mode,
            final(self).task_filter == old(self).task_filter,
            final(self).spaces == old(self).spaces,
            final(self).space_index == old(self).space_index,
            final(self).should_quit == old(self).should_quit,
            final(self).details == old(self).details,
            final(self).status_message == old(self).status_message,
            final(self).tree_rows == old(self).tree_rows,
            final(self).manager_rows == old(self).manager_rows,
            final(self).narrow == old(self).narrow,
    {
        self.sync_memory();
        let mut state = repo.load_state();
        state.current_space_id = match &self.current_space_id {
            Some(id) => Some(id.clone()),
            None => None,
        };
        state.current_view = self.current_view;
        state.current_sort = self.current_sort;
        state.tui_memory = self.tui_memory.clone();
        repo.save_state(&state);
        Ok(())
    }

    /// Opens the interface: the remembered state with the launch options
    /// applied (a space to view, a view, a sort), read and saved.
    pub fn new(repo: &mut Repository, options: LaunchOptions) -> (r: Result<Self, AppError>)
        requires
            old(repo).wf(),
            runnable(old(repo)@),
        ensures
            final(repo).wf(),
            r matches Ok(app) && app.wf() && opened(old(repo)@, options, app)
                && views(app.spaces@) == space_summaries(old(repo)@, app.space_list_mode == SpaceListMode::All)
                && shows_listing(old(repo)@, app)
                && opened_rows(old(repo)@, app)
                && persisted(app, app, old(repo)@, final(repo)@),
    {
        let state = repo.load_state();
        let current_view = match options.view {
            Some(v) => v,
            None => state.current_view,
        };
        let current_sort = match options.sort {
            Some(v) => v,
            None => state.current_sort,
        };
        let mut memory = state.tui_memory;
        match options.space_id {
            Some(id) => {
                memory.selected_space_id = Some(id);
            },
            None => {},
        }
        let viewed_space_id = match &memory.selected_space_id {
            Some(id) => Some(id.clone()),
            None => match &state.current_space_id {
                Some(id) => Some(id.clone()),
                None => None,
            },
        };
        let mut app = TuiState {
            should_quit: false,
            mode: Mode::Browse,
            background_mode: None,
            focus_area: memory.focus_area,
            return_focus: memory.focus_area,
            current_space_id: state.current_space_id,
            viewed_space_id,
            current_view,
            current_sort,
            space_list_mode: memory.space_list_mode,
            task_filter: memory.task_filter.clone(),
            spaces: Vec::new(),
            space_index: memory.spaces_cursor,
            task_result: None,
            visible_tasks: Vec::new(),
            selected: None,
            tree_offset: 0,
            details: None,
            details_scroll: 0,
            tui_memory: memory,
            status_message: None,
            tree_rows: 1,
            manager_rows: 1,
            narrow: false,
        };
        match app.reload(repo) {
            Ok(()) => {},
            Err(e) => {
                return Err(e);
            },
        }
        let _ = app.persist(repo);
        Ok(app)
    }
}


// ---------------------------------------------------------------------------
// Opening the dialogs

pub open spec fn message_is(m: Option<String>, text: Seq<char>) -> bool {
    m matches Some(x) && x@ == text
}

fn message(text: &str) -> (r: Option<String>)
    ensures
        message_is(r, text@),
{
    Some(String::from_str(text))
}

fn message_with(lead: &str, name: &str, tail: &str) -> (r: Option<String>)
    ensures
        message_is(r, lead@ + name@ + tail@),
{
    let mut out = String::from_str(lead);
    out.append(name);
    out.append(tail);
    Some(out)
}

impl TuiState {
    /// The summary of the selected space, when the index points at one.
    pub open spec fn selected_summary(&self) -> Option<SpaceSummaryView> {
        if self.space_index < self.spaces@.len() { Some(self.spaces@[self.space_index as int]@) } else { None }
    }

    /// The id of the space selected in the space manager, if any.
    pub open spec fn selected_summary_id(&self) -> Option<Seq<char>> {
        match self.selected_summary() {
            Some(sp) => Some(sp.space.id),
            None => None,
        }
    }

    /// The task on the selected row, if any.
    pub open spec fn selected_row_id(&self) -> Option<Seq<char>> {
        match self.selected {
            Some(i) => Some(self.visible_tasks@[i as int]@.task.id),
            None => None,
        }
    }

    /// Selects a space of the space manager, when there is one at `index`.
    fn select_managed_space(&mut self, index: usize) -> (changed: bool)
        requires
            old(self).wf(),
        ensures
            final(self).wf(),
            select_managed_space_done(*old(self), *final(self), index, changed),
            final(self).should_quit == old(self).should_quit,
    {
        if index >= self.spaces.len() {
            return false;
        }
        self.space_index = index;
        self.ensure_space_manager_selection_visible();
        true
    }

    /// Opens the dialog that creates a space, over the open one.
    fn open_space_form_create(&mut self)
        requires
            old(self).wf(),
        ensures
            final(self).wf(),
            final(self).mode matches Mode::SpaceForm { rename_of, name } && rename_of is None && name@.len() == 0,
            child_opened(*old(self), *final(self)),
            final(self).should_quit == old(self).should_quit,
    {
        self.enter_child_overlay(Mode::SpaceForm { rename_of: None, name: String::new() });
    }

    /// Opens the dialog that renames the selected space, holding its name.
    fn open_space_form_rename(&mut self)
        requires
            old(self).wf(),
        ensures
            final(self).wf(),
            open_space_form_rename_done(*old(self), *final(self)),
            final(self).should_quit == old(self).should_quit,
    {
        if self.space_index < self.spaces.len() {
            let id = self.spaces[self.space_index].space.id.clone();
            let name = self.spaces[self.space_index].space.name.clone();
            self.enter_child_overlay(Mode::SpaceForm { rename_of: Some(id), name });
        } else {
            self.status_message = message("No space selected to rename.");
        }
    }

    /// Opens the confirmation that purges the selected space, which must be
    /// archived.
    fn open_purge_space_confirm(&mut self)
        requires
            old(self).wf(),
        ensures
            final(self).wf(),
            open_purge_space_confirm_done(*old(self), *final(self)),
            final(self).should_quit == old(self).should_quit,
    {
        if self.space_index < self.spaces.len() {
            let i = self.space_index;
            if !self.spaces[i].space.state.is_archived() {
                self.status_message = message("Only archived spaces can be purged. Archive the space first.");
                return;
            }
            let space_id = self.spaces[i].space.id.clone();
            let space_name = self.spaces[i].space.name.clone();
            let todo = self.spaces[i].counts.todo_tasks;
            let archived = self.spaces[i].counts.archived_tasks;
            let task_count = if (todo as u128) + (archived as u128) > (usize::MAX as u128) { usize::MAX } else { todo + archived };
            self.enter_child_overlay(Mode::PurgeSpaceConfirm { space_id, space_name, task_count, phrase: String::new() });
        } else {
            self.status_message = message("Select a space first to purge it.");
        }
    }
}


impl TuiState {
    /// How many tasks a purge of `task_id` removes: its subtree among the
    /// listed tasks, or one without a listing.
    fn subtree_count(&self, task_id: &TaskId) -> (r: usize)
        ensures
            match self.task_result {
                Some(res) => r == subtree_of(entry_tasks(views(res.entries@)), task_id@).len(),
                None => r == 1,
            },
    {
        match &self.task_result {
            None => 1,
            Some(result) => {
                let mut tasks: Vec<Task> = Vec::new();
                let n = result.entries.len();
                let ghost ev = views(result.entries@);
                let mut i: usize = 0;
                while i < n
                    invariant
                        n == result.entries@.len(),
                        ev == views(result.entries@),
                        i <= n,
                        views(tasks@) == entry_tasks(ev).take(i as int),
                    decreases n - i,
                {
                    let ghost before = views(tasks@);
                    tasks.push(result.entries[i].task.clone());
                    assert(ev[i as int] == result.entries@[i as int]@);
                    assert(entry_tasks(ev)[i as int] == ev[i as int].task);
                    assert(entry_tasks(ev).take(i + 1) =~= entry_tasks(ev).take(i as int).push(ev[i as int].task));
                    assert(views(tasks@) =~= before.push(ev[i as int].task));
                    i = i + 1;
                }
                assert(entry_tasks(ev).take(n as int) =~= entry_tasks(ev));
                let ids = collect_subtree_ids(tasks.as_slice(), task_id);
                proof {
                    views(ids@).unique_seq_to_set();
                    assert(views(ids@).len() == ids@.len());
                }
                ids.len()
            },
        }
    }

    /// Opens the dialog that creates a task at the top of the space on
    /// view; an archived space refuses it.
    fn open_task_form_create_root(&mut self)
        requires
            old(self).wf(),
        ensures
            final(self).wf(),
            open_task_form_create_root_done(*old(self), *final(self)),
            final(self).should_quit == old(self).should_quit,
    {
        if !self.can_mutate_viewed_space() {
            self.status_message = message("Restore this space before creating new tasks inside it.");
            return;
        }
        self.enter_root_overlay(Mode::TaskForm {
            kind: TaskFormKind::CreateRoot,
            focus: TaskFormField::Title,
            title: String::new(),
            description: String::new(),
            status: TaskStatus::Todo,
        });
    }

    /// Opens the dialog that creates a subtask of the selected task, whose
    /// subtree is shown from now on; an archived space refuses it.
    fn open_task_form_create_child(&mut self)
        requires
            old(self).wf(),
        ensures
            final(self).wf(),
            open_task_form_create_child_done(*old(self), *final(self)),
            final(self).should_quit == old(self).should_quit,
    {
        if !self.can_mutate_viewed_space() {
            self.status_message = message("Restore this space before creating new tasks inside it.");
            return;
        }
        match self.selected_task_id() {
            Some(task_id) => {
                let parent_id = task_id.clone();
                let ghost tid = task_id@;
                let ghost ids = self.viewed_memory().expanded_task_ids;
                self.expand_task(task_id);
                proof {
                    if !ids.contains(tid) {
                        assert(ids.push(tid)[ids.len() as int] == tid);
                    }
                }
                assert(self.viewed_memory().expanded_task_ids.contains(tid));
                self.enter_root_overlay(Mode::TaskForm {
                    kind: TaskFormKind::CreateChild { parent_id },
                    focus: TaskFormField::Title,
                    title: String::new(),
                    description: String::new(),
                    status: TaskStatus::Todo,
                });
            },
            None => {
                self.status_message = message("Select a task first to create a subtask.");
            },
        }
    }

    /// Opens the dialog that edits the task in the details, holding its
    /// title, description and status; an archived space refuses it.
    fn open_task_form_edit(&mut self)
        requires
            old(self).wf(),
        ensures
            final(self).wf(),
            open_task_form_edit_done(*old(self), *final(self)),
            final(self).should_quit == old(self).should_quit,
    {
        if !self.can_mutate_viewed_space() {
            self.status_message = message("Restore this space before editing tasks inside it.");
            return;
        }
        let form = match &self.details {
            Some(d) => Some(Mode::TaskForm {
                kind: TaskFormKind::Edit { task_id: d.task.id.clone() },
                focus: TaskFormField::Title,
                title: d.task.title.clone(),
                description: match &d.task.description {
                    Some(x) => x.clone(),
                    None => String::new(),
                },
                status: d.task.status,
            }),
            None => None,
        };
        match form {
            Some(m) => self.enter_root_overlay(m),
            None => {
                self.status_message = message("Select a task first to edit it.");
            },
        }
    }

    /// Opens the dialog that adds a log to the task in the details; an
    /// archived space refuses it.
    fn open_log_form(&mut self)
        requires
            old(self).wf(),
        ensures
            final(self).wf(),
            open_log_form_done(*old(self), *final(self)),
            final(self).should_quit == old(self).should_quit,
    {
        if !self.can_mutate_viewed_space() {
            self.status_message = message("Restore this space before adding logs inside it.");
            return;
        }
        let form = match &self.details {
            Some(d) => Some(Mode::LogForm { task_id: d.task.id.clone(), task_title: d.task.title.clone(), text: String::new() }),
            None => None,
        };
        match form {
            Some(m) => self.enter_root_overlay(m),
            None => {
                self.status_message = message("Select a task first to add a log.");
            },
        }
    }

    /// Opens the confirmation that purges the selected task, which must be
    /// archived; a subtree of more than one task asks for the phrase.
    fn open_purge_confirm(&mut self)
        requires
            old(self).wf(),
        ensures
            final(self).wf(),
            open_purge_confirm_done(*old(self), *final(self)),
            final(self).should_quit == old(self).should_quit,
    {
        if !self.can_mutate_viewed_space() {
            self.status_message = message("Restore this space before purging tasks inside it.");
            return;
        }
        match self.selected {
            Some(i) => {
                if !self.visible_tasks[i].task.archived {
                    self.status_message = message("Only archived tasks can be purged. Archive the task first.");
                    return;
                }
                let task_id = self.visible_tasks[i].task.id.clone();
                let task_title = self.visible_tasks[i].task.title.clone();
                let affected_count = self.subtree_count(&task_id);
                self.enter_root_overlay(Mode::PurgeTaskConfirm {
                    task_id,
                    task_title,
                    affected_count,
                    requires_phrase: affected_count > 1,
                    phrase: String::new(),
                });
            },
            None => {
                self.status_message = message("Select a task first to purge it.");
            },
        }
    }

    /// Hands the text of the field being edited to the open dialog.
    pub fn edit_text(&mut self, text: String)
        requires
            old(self).wf(),
        ensures
            final(self).wf(),
            match old(self).mode {
                Mode::SpaceForm { rename_of, .. } => final(self).mode == Mode::SpaceForm { rename_of, name: text },
                Mode::TaskForm { kind, focus, title, description, status } => match focus {
                    TaskFormField::Title => final(self).mode == Mode::TaskForm { kind, focus, title: text, description, status },
                    TaskFormField::Description => final(self).mode == Mode::TaskForm { kind, focus, title, description: text, status },
                    TaskFormField::Status => final(self).mode == old(self).mode,
                },
                Mode::LogForm { task_id, task_title, .. } => final(self).mode == Mode::LogForm { task_id, task_title, text },
                Mode::Filter { .. } => final(self).mode == Mode::Filter { text },
                Mode::PurgeTaskConfirm { task_id, task_title, affected_count, requires_phrase, phrase } => if requires_phrase {
                    final(self).mode == Mode::PurgeTaskConfirm { task_id, task_title, affected_count, requires_phrase, phrase: text }
                } else {
                    final(self).mode == old(self).mode
                },
                Mode::PurgeSpaceConfirm { space_id, space_name, task_count, .. } => final(self).mode == Mode::PurgeSpaceConfirm {
                    space_id, space_name, task_count, phrase: text,
                },
                _ => final(self).mode == old(self).mode,
            },
            keeps_data(*final(self), *old(self)),
            keeps_scroll(*final(self), *old(self)),
            final(self).background_mode == old(self).background_mode,
            final(self).focus_area == old(self).focus_area,
            final(self).return_focus == old(self).return_focus,
    {
        let mut mode = Mode::Browse;
        std::mem::swap(&mut mode, &mut self.mode);
        self.mode = match mode {
            Mode::SpaceForm { rename_of, name: _ } => Mode::SpaceForm { rename_of, name: text },
            Mode::TaskForm { kind, focus, title, description, status } => match focus {
                TaskFormField::Title => Mode::TaskForm { kind, focus, title: text, description, status },
                TaskFormField::Description => Mode::TaskForm { kind, focus, title, description: text, status },
                TaskFormField::Status => Mode::TaskForm { kind, focus, title, description, status },
            },
            Mode::LogForm { task_id, task_title, text: _ } => Mode::LogForm { task_id, task_title, text },
            Mode::Filter { text: _ } => Mode::Filter { text },
            Mode::PurgeTaskConfirm { task_id, task_title, affected_count, requires_phrase, phrase } => {
                if requires_phrase {
                    Mode::PurgeTaskConfirm { task_id, task_title, affected_count, requires_phrase, phrase: text }
                } else {
                    Mode::PurgeTaskConfirm { task_id, task_title, affected_count, requires_phrase, phrase }
                }
            },
            Mode::PurgeSpaceConfirm { space_id, space_name, task_count, phrase: _ } => Mode::PurgeSpaceConfirm {
                space_id,
                space_name,
                task_count,
                phrase: text,
            },
            other => other,
        };
    }

    /// Records the size of the panels in the last frame: the rows of the
    /// task tree and of the space manager, and whether the layout was
    /// narrow.
    pub fn set_layout(&mut self, tree_rows: usize, manager_rows: usize, narrow: bool)
        requires
            old(self).wf(),
        ensures
            final(self).wf(),
            final(self).tree_rows == tree_rows,
            final(self).manager_rows == manager_rows,
            final(self).narrow == narrow,
            keeps_dialogs(*final(self), *old(self)),
            keeps_scroll(*final(self), *old(self)),
            final(self).visible_tasks == old(self).visible_tasks,
            final(self).selected == old(self).selected,
            final(self).task_result == old(self).task_result,
            final(self).spaces == old(self).spaces,
    {
        self.tree_rows = tree_rows;
        self.manager_rows = manager_rows;
        self.narrow = narrow;
    }
}


// ---------------------------------------------------------------------------
// Acting on the stored data

impl TuiState {
    /// Reloads, when the stored data still meets what the interface needs.
    fn refresh(&mut self, repo: &Repository) -> (r: Result<(), AppError>)
        requires
            old(self).wf(),
            repo.wf(),
        ensures
            final(self).wf(),
            !runnable(repo@) ==> (r matches Err(AppError::UnsupportedData)) && *final(self) == *old(self),
            runnable(repo@) ==> r is Ok && shows_listing(repo@, *final(self)) && keeps_selection(*old(self), *final(self)),
            runnable(repo@) ==> views(final(self).spaces@) == space_summaries(repo@, old(self).space_list_mode == SpaceListMode::All)
                && opt_view(final(self).current_space_id) == repo@.state.current_space_id,
            keeps_dialogs(*final(self), *old(self)),
            final(self).current_view == old(self).current_view,
            final(self).current_sort == old(self).current_sort,
            final(self).space_list_mode == old(self).space_list_mode,
            final(self).task_filter == old(self).task_filter,
            final(self).tui_memory == old(self).tui_memory,
            final(self).status_message == old(self).status_message,
            final(self).should_quit == old(self).should_quit,
            final(self).tree_rows == old(self).tree_rows,
            final(self).manager_rows == old(self).manager_rows,
            final(self).narrow == old(self).narrow,
    {
        if is_runnable(repo) {
            self.reload(repo)
        } else {
            Err(AppError::UnsupportedData)
        }
    }

    /// Shows or hides the children of a task.
    fn toggle_task(&mut self, repo: &Repository, task_id: TaskId) -> (r: Result<bool, AppError>)
        requires
            old(self).wf(),
            repo.wf(),
        ensures
            final(self).wf(),
            toggle_done(*old(self), *final(self), repo@, task_id@, r),
            final(self).should_quit == old(self).should_quit,
    {
        let ghost id = task_id@;
        let ghost before = self.viewed_memory().expanded_task_ids;
        let memory = self.viewed_memory_copy();
        let present = crate::hierarchy::contains_task_id(&memory.expanded_task_ids, &task_id);
        if present {
            self.collapse_task(&task_id);
        } else {
            self.expand_task(task_id);
            proof {
                if self.viewed_space_id is Some {
                    assert(self.viewed_memory().expanded_task_ids[before.len() as int] == id);
                }
            }
        }
        match self.refresh(repo) {
            Ok(()) => Ok(true),
            Err(e) => Err(e),
        }
    }

    /// Shows the tasks of another view.
    fn set_view(&mut self, repo: &Repository, view: ViewMode) -> (r: Result<bool, AppError>)
        requires
            old(self).wf(),
            repo.wf(),
        ensures
            final(self).wf(),
            set_view_done(*old(self), *final(self), repo@, view, r),
            final(self).should_quit == old(self).should_quit,
    {
        self.current_view = view;
        match self.refresh(repo) {
            Ok(()) => Ok(true),
            Err(e) => Err(e),
        }
    }

    /// Sorts the tasks by the next key: created, updated, status, manual,
    /// then created again.
    fn cycle_sort(&mut self, repo: &Repository) -> (r: Result<bool, AppError>)
        requires
            old(self).wf(),
            repo.wf(),
        ensures
            final(self).wf(),
            cycle_sort_done(*old(self), *final(self), repo@, r),
            final(self).should_quit == old(self).should_quit,
    {
        self.current_sort = match self.current_sort {
            SortMode::Created => SortMode::Updated,
            SortMode::Updated => SortMode::Status,
            SortMode::Status => SortMode::Manual,
            SortMode::Manual => SortMode::Created,
        };
        match self.refresh(repo) {
            Ok(()) => Ok(true),
            Err(e) => Err(e),
        }
    }

    /// Lists only the active spaces, or all of them.
    fn set_space_list_mode(&mut self, repo: &Repository, mode: SpaceListMode) -> (r: Result<bool, AppError>)
        requires
            old(self).wf(),
            repo.wf(),
        ensures
            final(self).wf(),
            set_space_list_mode_done(*old(self), *final(self), repo@, mode, r),
            final(self).should_quit == old(self).should_quit,
    {
        if self.space_list_mode == mode {
            return Ok(false);
        }
        self.space_list_mode = mode;
        match self.refresh(repo) {
            Ok(()) => Ok(true),
            Err(e) => Err(e),
        }
    }

    /// Opens the selected space: an active one becomes current, an archived
    /// one is only viewed; the space manager closes.
    fn open_selected_space(&mut self, repo: &mut Repository) -> (r: Result<bool, AppError>)
        requires
            old(self).wf(),
            old(repo).wf(),
            runnable(old(repo)@),
        ensures
            final(self).wf(),
            final(repo).wf(),
            open_selected_space_done(*old(self), *final(self), old(repo)@, final(repo)@, r),
            final(self).should_quit == old(self).should_quit,
    {
        if self.space_index >= self.spaces.len() {
            self.status_message = message("Select a space first.");
            return Ok(true);
        }
        let i = self.space_index;
        let id = self.spaces[i].space.id.clone();
        let name = self.spaces[i].space.name.clone();
        if self.spaces[i].space.state.is_active() {
            let command = SetCurrentSpaceCommand { space_ref: id.0.clone() };
            let ghost c = command;
            let sr = SpaceService::new().use_space(repo, command);
            let ghost g = sr;
            match sr {
                Ok(_) => {},
                Err(e) => {
                    assert(use_space_outcome(old(repo)@, c, g, repo@));
                    return Err(e);
                },
            }
            assert(use_space_outcome(old(repo)@, c, g, repo@));
            self.current_space_id = Some(id.clone());
            self.status_message = message_with("Switched to space ", name.as_str(), ".");
        } else {
            self.status_message = message_with("Viewing archived space ", name.as_str(), ".");
        }
        self.viewed_space_id = Some(id);
        self.close_modal();
        match self.refresh(repo) {
            Ok(()) => Ok(true),
            Err(e) => Err(e),
        }
    }

    /// Sets the status of the selected task; an archived space refuses it.
    fn set_selected_task_status(&mut self, repo: &mut Repository, status: TaskStatus) -> (r: Result<bool, AppError>)
        requires
            old(self).wf(),
            old(repo).wf(),
            runnable(old(repo)@),
        ensures
            final(self).wf(),
            final(repo).wf(),
            set_selected_task_status_done(*old(self), *final(self), old(repo)@, final(repo)@, status, r),
            final(self).should_quit == old(self).should_quit,
    {
        if !self.can_mutate_viewed_space() {
            self.status_message = message("Restore this space before changing task status inside it.");
            return Ok(true);
        }
        let task_id = match self.selected_task_id() {
            Some(id) => id,
            None => {
                self.status_message = message("Select a task first.");
                return Ok(true);
            },
        };
        let command = UpdateTaskStatusCommand { task_ref: task_id.0, status };
        let ghost c = command;
        let sr = TaskService::new().set_task_status(repo, command);
        let ghost g = sr;
        let updated = match sr {
            Ok(t) => t,
            Err(e) => {
                assert(set_task_status_outcome(old(repo)@, c, g, repo@));
                return Err(e);
            },
        };
        assert(set_task_status_outcome(old(repo)@, c, g, repo@));
        let ghost title = updated@.title;
        self.select_task_after_action(updated.id.clone());
        let text = if updated.archived && status.is_finished() {
            let mut out = String::from_str("Archived ");
            out.append(updated.title.as_str());
            out.append(" as ");
            out.append(status_label(status));
            out.append(".");
            out
        } else {
            let mut out = String::from_str("Set ");
            out.append(updated.title.as_str());
            out.append(" to ");
            out.append(status_label(status));
            out.append(".");
            out
        };
        self.status_message = Some(text);
        match self.refresh(repo) {
            Ok(()) => Ok(true),
            Err(e) => Err(e),
        }
    }
}

/// The sort after `sort` in the cycle.
pub open spec fn next_sort(sort: SortMode) -> SortMode {
    match sort {
        SortMode::Created => SortMode::Updated,
        SortMode::Updated => SortMode::Status,
        SortMode::Status => SortMode::Manual,
        SortMode::Manual => SortMode::Created,
    }
}


fn counted(lead: &str, count: usize, tail: &str) -> (r: Option<String>)
    ensures
        message_is(r, lead@ + decimal(count as nat) + tail@),
{
    let mut out = String::from_str(lead);
    push_decimal(&mut out, count as u128);
    out.append(tail);
    Some(out)
}

/// Whether the typed phrase, trimmed, is `purge`.
fn is_purge_phrase(phrase: &str) -> (r: bool)
    ensures
        r == (trimmed(phrase@) == "purge"@),
{
    let t = trim_text(phrase);
    str_eq(t.as_str(), "purge")
}

impl TuiState {
    /// Restores the selected task with its subtree as open tasks; an
    /// archived space refuses it.
    fn restore_selected_task(&mut self, repo: &mut Repository) -> (r: Result<bool, AppError>)
        requires
            old(self).wf(),
            old(repo).wf(),
            runnable(old(repo)@),
        ensures
            final(self).wf(),
            final(repo).wf(),
            restore_selected_task_done(*old(self), *final(self), old(repo)@, final(repo)@, r),
            final(self).should_quit == old(self).should_quit,
    {
        if !self.can_mutate_viewed_space() {
            self.status_message = message("Restore this space before restoring tasks inside it.");
            return Ok(true);
        }
        let task_id = match self.selected_task_id() {
            Some(id) => id,
            None => {
                self.status_message = message("Select a task first.");
                return Ok(true);
            },
        };
        let command = RestoreTaskCommand { task_ref: task_id.0, status: TaskStatus::Todo };
        let ghost c = command;
        let sr = TaskService::new().restore_task(repo, command);
        let ghost g = sr;
        assert(restore_task_outcome(old(repo)@, c, g, repo@));
        let outcome = match sr {
            Ok(o) => o,
            Err(e) => {
                return Err(e);
            },
        };
        match outcome.root_task {
            Some(t) => {
                self.select_task_after_action(t.id);
                self.status_message = counted("Restored ", outcome.affected_count, " task(s).");
            },
            None => {},
        }
        match self.refresh(repo) {
            Ok(()) => Ok(true),
            Err(e) => Err(e),
        }
    }

    /// Archives the selected space, unless it is archived already.
    fn archive_selected_space(&mut self, repo: &mut Repository) -> (r: Result<bool, AppError>)
        requires
            old(self).wf(),
            old(repo).wf(),
            runnable(old(repo)@),
        ensures
            final(self).wf(),
            final(repo).wf(),
            archive_selected_space_done(*old(self), *final(self), old(repo)@, final(repo)@, r),
            final(self).should_quit == old(self).should_quit,
    {
        if self.space_index >= self.spaces.len() {
            self.status_message = message("Select a space first.");
            return Ok(true);
        }
        let i = self.space_index;
        if self.spaces[i].space.state.is_archived() {
            self.status_message = message("That space is already archived.");
            return Ok(true);
        }
        let name = self.spaces[i].space.name.clone();
        let command = ArchiveSpaceCommand { space_ref: self.spaces[i].space.id.0.clone() };
        let ghost c = command;
        let sr = SpaceService::new().archive_space(repo, command);
        let ghost g = sr;
        assert(archive_space_outcome(old(repo)@, c, g, repo@));
        match sr {
            Ok(_) => {},
            Err(e) => {
                return Err(e);
            },
        }
        self.status_message = message_with("Archived space ", name.as_str(), ".");
        match self.refresh(repo) {
            Ok(()) => Ok(true),
            Err(e) => Err(e),
        }
    }

    /// Restores the selected space, unless it is active already.
    fn restore_selected_space(&mut self, repo: &mut Repository) -> (r: Result<bool, AppError>)
        requires
            old(self).wf(),
            old(repo).wf(),
            runnable(old(repo)@),
        ensures
            final(self).wf(),
            final(repo).wf(),
            restore_selected_space_done(*old(self), *final(self), old(repo)@, final(repo)@, r),
            final(self).should_quit == old(self).should_quit,
    {
        if self.space_index >= self.spaces.len() {
            self.status_message = message("Select a space first.");
            return Ok(true);
        }
        let i = self.space_index;
        if self.spaces[i].space.state.is_active() {
            self.status_message = message("That space is already active.");
            return Ok(true);
        }
        let name = self.spaces[i].space.name.clone();
        let command = RestoreSpaceCommand { space_ref: self.spaces[i].space.id.0.clone() };
        let ghost c = command;
        let sr = SpaceService::new().restore_space(repo, command);
        let ghost g = sr;
        assert(restore_space_outcome(old(repo)@, c, g, repo@));
        match sr {
            Ok(_) => {},
            Err(e) => {
                return Err(e);
            },
        }
        self.status_message = message_with("Restored space ", name.as_str(), ".");
        match self.refresh(repo) {
            Ok(()) => Ok(true),
            Err(e) => Err(e),
        }
    }

    /// Moves the selected task up or down among its siblings, in manual
    /// sort only; an archived space refuses it.
    fn move_selected_task(&mut self, repo: &mut Repository, direction: MoveTaskDirection) -> (r: Result<bool, AppError>)
        requires
            old(self).wf(),
            old(repo).wf(),
            runnable(old(repo)@),
        ensures
            final(self).wf(),
            final(repo).wf(),
            move_selected_task_done(*old(self), *final(self), old(repo)@, final(repo)@, direction, r),
            final(self).should_quit == old(self).should_quit,
    {
        if !self.can_mutate_viewed_space() {
            self.status_message = message("Restore this space before reordering tasks inside it.");
            return Ok(true);
        }
        if self.current_sort != SortMode::Manual {
            self.status_message = message("Switch to manual sort before reordering tasks.");
            return Ok(true);
        }
        let task_id = match self.selected_task_id() {
            Some(id) => id,
            None => {
                self.status_message = message("Select a task first.");
                return Ok(true);
            },
        };
        let sr = TaskService::new().move_task(repo, MoveTaskCommand { task_ref: task_id.0, direction });
        let moved = match sr {
            Ok(t) => t,
            Err(e) => {
                return Err(e);
            },
        };
        self.select_task_after_action(moved.id.clone());
        let mut out = String::from_str("Moved ");
        out.append(moved.title.as_str());
        out.append(" ");
        out.append(move_direction_label(direction));
        out.append(".");
        self.status_message = Some(out);
        match self.refresh(repo) {
            Ok(()) => Ok(true),
            Err(e) => Err(e),
        }
    }
}


// ---------------------------------------------------------------------------
// Saving the dialogs

/// The description a task dialog saves: none when blank.
pub open spec fn description_of(text: Seq<char>) -> Option<Seq<char>> {
    if is_blank(text) { None } else { Some(text) }
}

impl TuiState {
    /// Saves the space dialog: creates the space and makes it current and
    /// viewed, or renames the space; the dialog closes.
    fn submit_space_form(&mut self, repo: &mut Repository, rename_of: Option<SpaceId>, name: String) -> (r: Result<(), AppError>)
        requires
            old(self).wf(),
            old(repo).wf(),
            runnable(old(repo)@),
        ensures
            final(self).wf(),
            final(repo).wf(),
            submit_space_form_done(*old(self), *final(self), old(repo)@, final(repo)@, rename_of, name, r),
            final(self).should_quit == old(self).should_quit,
    {
        match rename_of {
            Some(id) => {
                let command = RenameSpaceCommand { space_ref: id.0, new_name: name };
                let ghost c = command;
                let sr = SpaceService::new().rename_space(repo, command);
                let ghost g = sr;
                assert(rename_space_outcome(old(repo)@, c, g, repo@));
                let renamed = match sr {
                    Ok(x) => x,
                    Err(e) => {
                        return Err(e);
                    },
                };
                self.status_message = message_with("Renamed space to ", renamed.name.as_str(), ".");
                self.close_modal();
                let r = self.refresh(repo);
                assert(rename_space_outcome(old(repo)@, c, g, repo@));
                assert(g matches Ok(x) ==> message_is(self.status_message, "Renamed space to "@ + x@.name + "."@));
                return r;
            },
            None => {
                let command = CreateSpaceCommand { name };
                let ghost c = command;
                let sr = SpaceService::new().create_space(repo, command);
                let ghost g = sr;
                let ghost mid = repo@;
                assert(create_space_outcome(old(repo)@, c, g, mid));
                let created = match sr {
                    Ok(x) => x,
                    Err(e) => {
                        return Err(e);
                    },
                };
                if !is_runnable(repo) {
                    return Err(AppError::UnsupportedData);
                }
                let use_command = SetCurrentSpaceCommand { space_ref: created.id.0.clone() };
                let ghost c2 = use_command;
                let used = SpaceService::new().use_space(repo, use_command);
                let ghost g2 = used;
                assert(use_space_outcome(mid, c2, g2, repo@));
                match used {
                    Ok(_) => {},
                    Err(e) => {
                        return Err(e);
                    },
                }
                self.current_space_id = Some(created.id.clone());
                self.viewed_space_id = Some(created.id.clone());
                self.space_index = usize::MAX;
                self.status_message = message_with("Created space ", created.name.as_str(), ".");
            },
        }
        self.close_modal();
        self.refresh(repo)
    }

    /// Saves the task dialog: creates a task at the top of the space on
    /// view or under its parent (whose subtree then shows), or edits the
    /// task; the task becomes the selected one and the dialog closes.
    fn submit_task_form(&mut self, repo: &mut Repository, kind: TaskFormKind, title: String, description: String, status: TaskStatus) -> (r: Result<(), AppError>)
        requires
            old(self).wf(),
            old(repo).wf(),
            runnable(old(repo)@),
        ensures
            final(self).wf(),
            final(repo).wf(),
            submit_task_form_done(*old(self), *final(self), old(repo)@, final(repo)@, kind, title, description, status, r),
            final(self).should_quit == old(self).should_quit,
    {
        let blank = str_is_blank(description.as_str());
        let description_value: Option<String> = if blank { None } else { Some(description) };
        match kind {
            TaskFormKind::CreateRoot => {
                let space_ref = match self.viewed_index() {
                    Some(i) => Some(self.spaces[i].space.id.0.clone()),
                    None => None,
                };
                let command = CreateTaskCommand { title, space_ref, description: description_value, parent_ref: None, status };
                let ghost c = command;
                let sr = TaskService::new().create_task(repo, command);
                let ghost g = sr;
                assert(create_task_outcome(old(repo)@, c, g, repo@));
                let created = match sr {
                    Ok(t) => t,
                    Err(e) => {
                        return Err(e);
                    },
                };
                self.status_message = message_with("Created task ", created.title.as_str(), ".");
                self.select_task_after_action(created.id);
            },
            TaskFormKind::CreateChild { parent_id } => {
                let command = CreateTaskCommand {
                    title,
                    space_ref: None,
                    description: description_value,
                    parent_ref: Some(parent_id.0.clone()),
                    status,
                };
                let ghost c = command;
                let sr = TaskService::new().create_task(repo, command);
                let ghost g = sr;
                assert(create_task_outcome(old(repo)@, c, g, repo@));
                let created = match sr {
                    Ok(t) => t,
                    Err(e) => {
                        return Err(e);
                    },
                };
                self.status_message = message_with("Created task ", created.title.as_str(), ".");
                self.expand_task(parent_id);
                self.select_task_after_action(created.id);
            },
            TaskFormKind::Edit { task_id } => {
                let command = EditTaskCommand {
                    task_ref: task_id.0,
                    title: Some(title),
                    description: description_value,
                    clear_description: blank,
                    status: Some(status),
                    parent_ref: None,
                    clear_parent: false,
                    space_ref: None,
                };
                let ghost c = command;
                let sr = TaskService::new().edit_task(repo, command);
                let ghost g = sr;
                assert(edit_task_outcome(old(repo)@, c, g, repo@));
                let updated = match sr {
                    Ok(t) => t,
                    Err(e) => {
                        return Err(e);
                    },
                };
                self.status_message = message_with("Updated task ", updated.title.as_str(), ".");
                self.select_task_after_action(updated.id);
            },
        }
        self.close_modal();
        self.refresh(repo)
    }

    /// Saves the log dialog: adds the log to its task, which becomes the
    /// selected one; the dialog closes.
    fn submit_log_form(&mut self, repo: &mut Repository, task_id: TaskId, text: String) -> (r: Result<(), AppError>)
        requires
            old(self).wf(),
            old(repo).wf(),
            runnable(old(repo)@),
        ensures
            final(self).wf(),
            final(repo).wf(),
            submit_log_form_done(*old(self), *final(self), old(repo)@, final(repo)@, task_id, text, r),
            final(self).should_quit == old(self).should_quit,
    {
        let command = AddTaskLogCommand { task_ref: task_id.0, message: text };
        let ghost c = command;
        let sr = TaskService::new().add_task_log(repo, command);
        let ghost g = sr;
        assert(add_task_log_outcome(old(repo)@, c, g, repo@));
        let updated = match sr {
            Ok(t) => t,
            Err(e) => {
                return Err(e);
            },
        };
        self.status_message = message_with("Added log to ", updated.title.as_str(), ".");
        self.select_task_after_action(updated.id);
        self.close_modal();
        self.refresh(repo)
    }

    /// Confirms the purge of a task: refused until `purge` is typed when
    /// the phrase is asked for; a subtree of more than one task is purged
    /// recursively; the dialog closes.
    fn submit_purge_confirm(&mut self, repo: &mut Repository, task_id: TaskId, affected_count: usize, requires_phrase: bool, phrase: String) -> (r: Result<(), AppError>)
        requires
            old(self).wf(),
            old(repo).wf(),
            runnable(old(repo)@),
        ensures
            final(self).wf(),
            final(repo).wf(),
            submit_purge_confirm_done(*old(self), *final(self), old(repo)@, final(repo)@, task_id, affected_count, requires_phrase, phrase, r),
            final(self).should_quit == old(self).should_quit,
    {
        if requires_phrase && !is_purge_phrase(phrase.as_str()) {
            self.status_message = message("Type `purge` to confirm this deletion.");
            return Ok(());
        }
        let command = PurgeTaskCommand { task_ref: task_id.0, recursive: affected_count > 1 };
        let ghost c = command;
        let sr = TaskService::new().purge_task(repo, command);
        let ghost g = sr;
        assert(purge_task_outcome(old(repo)@, c, g, repo@));
        let purged = match sr {
            Ok(o) => o,
            Err(e) => {
                return Err(e);
            },
        };
        self.status_message = counted("Purged ", purged.affected_count, " task(s).");
        self.close_modal();
        self.refresh(repo)
    }

    /// Confirms the purge of a space once `purge` is typed; the dialog
    /// closes.
    fn submit_purge_space_confirm(&mut self, repo: &mut Repository, space_id: SpaceId, space_name: String, phrase: String) -> (r: Result<(), AppError>)
        requires
            old(self).wf(),
            old(repo).wf(),
            runnable(old(repo)@),
        ensures
            final(self).wf(),
            final(repo).wf(),
            submit_purge_space_confirm_done(*old(self), *final(self), old(repo)@, final(repo)@, space_id, space_name, phrase, r),
            final(self).should_quit == old(self).should_quit,
    {
        if !is_purge_phrase(phrase.as_str()) {
            self.status_message = message("Type `purge` to confirm this deletion.");
            return Ok(());
        }
        let command = PurgeSpaceCommand { space_ref: space_id.0 };
        let ghost c = command;
        let sr = SpaceService::new().purge_space(repo, command);
        let ghost g = sr;
        assert(purge_space_outcome(old(repo)@, c, g, repo@));
        match sr {
            Ok(_) => {},
            Err(e) => {
                return Err(e);
            },
        }
        self.status_message = message_with("Purged space ", space_name.as_str(), ".");
        self.close_modal();
        self.refresh(repo)
    }

    /// Applies the typed filter (trimmed); the dialog closes.
    fn submit_filter(&mut self, repo: &Repository, text: String) -> (r: Result<(), AppError>)
        requires
            old(self).wf(),
            repo.wf(),
        ensures
            final(self).wf(),
            submit_filter_done(*old(self), *final(self), repo@, text, r),
            final(self).should_quit == old(self).should_quit,
    {
        self.task_filter = trim_text(text.as_str());
        if self.task_filter.unicode_len() == 0 {
            self.status_message = message("Cleared task filter.");
        } else {
            self.status_message = message_with("Applied filter: ", self.task_filter.as_str(), ".");
        }
        self.close_modal();
        self.refresh(repo)
    }

    /// Clears the filter; the dialog closes.
    fn clear_filter(&mut self, repo: &Repository) -> (r: Result<(), AppError>)
        requires
            old(self).wf(),
            repo.wf(),
        ensures
            final(self).wf(),
            clear_filter_done(*old(self), *final(self), repo@, r),
            final(self).should_quit == old(self).should_quit,
    {
        self.task_filter = String::new();
        self.status_message = message("Cleared task filter.");
        self.close_modal();
        self.refresh(repo)
    }
}


// ---------------------------------------------------------------------------
// What the actions of the interface do

pub open spec fn select_managed_space_done(before: TuiState, after: TuiState, index: usize, changed: bool) -> bool {
    &&& changed == (index < before.spaces@.len())
    &&& !changed ==> after == before
    &&& changed ==> after.space_index == index
        && keeps_data(after, TuiState { space_index: index, ..before })
        && keeps_scroll(after, before)
        && after.background_mode == before.background_mode
        && after.focus_area == before.focus_area
        && after.return_focus == before.return_focus
        && match before.mode {
            Mode::SpaceManager { origin_focus, .. } => after.mode matches Mode::SpaceManager { scroll: s, origin_focus: o }
                && o == origin_focus && s <= index < s + before.manager_height(),
            _ => after.mode == before.mode,
        }
}

pub open spec fn open_space_form_rename_done(before: TuiState, after: TuiState) -> bool {
    &&& match before.selected_summary() {
        Some(sp) => (after.mode matches Mode::SpaceForm { rename_of, name }
            && (rename_of matches Some(id) && id@ == sp.space.id) && name@ == sp.space.name)
            && child_opened(before, after),
        None => message_is(after.status_message, "No space selected to rename."@) && after == (TuiState { status_message: after.status_message, ..before }),
    }
    &&& after.visible_tasks == before.visible_tasks
    &&& after.selected == before.selected
    &&& after.task_result == before.task_result
}

pub open spec fn open_purge_space_confirm_done(before: TuiState, after: TuiState) -> bool {
    &&& match before.selected_summary() {
        Some(sp) => if sp.space.state != SpaceState::Archived {
            message_is(after.status_message, "Only archived spaces can be purged. Archive the space first."@)
                && after == (TuiState { status_message: after.status_message, ..before })
        } else {
            (after.mode matches Mode::PurgeSpaceConfirm { space_id, space_name, task_count, phrase }
                && space_id@ == sp.space.id && space_name@ == sp.space.name
                && task_count == (if sp.counts.todo_tasks + sp.counts.archived_tasks > usize::MAX { usize::MAX as int }
                    else { sp.counts.todo_tasks + sp.counts.archived_tasks }) && phrase@.len() == 0)
                && child_opened(before, after)
        },
        None => message_is(after.status_message, "Select a space first to purge it."@) && after == (TuiState { status_message: after.status_message, ..before }),
    }
    &&& after.visible_tasks == before.visible_tasks
    &&& after.selected == before.selected
    &&& after.task_result == before.task_result
}

pub open spec fn open_task_form_create_root_done(before: TuiState, after: TuiState) -> bool {
    &&& !before.can_mutate() ==> message_is(after.status_message, "Restore this space before creating new tasks inside it."@)
        && after == (TuiState { status_message: after.status_message, ..before })
    &&& before.can_mutate() ==> (after.mode matches Mode::TaskForm { kind, focus, title, description, status }
        && kind is CreateRoot && focus == TaskFormField::Title && title@.len() == 0 && description@.len() == 0
        && status == TaskStatus::Todo) && root_opened(before, after)
    &&& after.visible_tasks == before.visible_tasks
    &&& after.selected == before.selected
    &&& after.task_result == before.task_result
}

pub open spec fn open_task_form_create_child_done(before: TuiState, after: TuiState) -> bool {
    &&& !before.can_mutate() ==> message_is(after.status_message, "Restore this space before creating new tasks inside it."@)
        && after == (TuiState { status_message: after.status_message, ..before })
    &&& before.can_mutate() && before.selected is None ==> message_is(after.status_message, "Select a task first to create a subtask."@)
        && after == (TuiState { status_message: after.status_message, ..before })
    &&& before.can_mutate() ==> match before.selected {
        Some(i) => (after.mode matches Mode::TaskForm { kind, focus, title, description, status }
        && (kind matches TaskFormKind::CreateChild { parent_id } && parent_id@ == before.visible_tasks@[i as int]@.task.id)
        && focus == TaskFormField::Title && title@.len() == 0 && description@.len() == 0 && status == TaskStatus::Todo)
        && after.viewed_memory().expanded_task_ids.contains(before.visible_tasks@[i as int]@.task.id),
        None => true,
    }
    &&& after.visible_tasks == before.visible_tasks
    &&& after.selected == before.selected
    &&& after.task_result == before.task_result
}

pub open spec fn open_task_form_edit_done(before: TuiState, after: TuiState) -> bool {
    &&& !before.can_mutate() ==> message_is(after.status_message, "Restore this space before editing tasks inside it."@)
        && after == (TuiState { status_message: after.status_message, ..before })
    &&& before.can_mutate() && before.details is None ==> message_is(after.status_message, "Select a task first to edit it."@)
        && after == (TuiState { status_message: after.status_message, ..before })
    &&& before.can_mutate() ==> match before.details {
        Some(d) => (after.mode matches Mode::TaskForm { kind, focus, title, description, status }
        && (kind matches TaskFormKind::Edit { task_id } && task_id@ == d.task@.id)
        && focus == TaskFormField::Title && title@ == d.task@.title
        && description@ == (match d.task@.description { Some(x) => x, None => Seq::empty() })
        && status == d.task@.status) && root_opened(before, after),
        None => true,
    }
    &&& after.visible_tasks == before.visible_tasks
    &&& after.selected == before.selected
    &&& after.task_result == before.task_result
}

pub open spec fn open_log_form_done(before: TuiState, after: TuiState) -> bool {
    &&& !before.can_mutate() ==> message_is(after.status_message, "Restore this space before adding logs inside it."@)
        && after == (TuiState { status_message: after.status_message, ..before })
    &&& before.can_mutate() && before.details is None ==> message_is(after.status_message, "Select a task first to add a log."@)
        && after == (TuiState { status_message: after.status_message, ..before })
    &&& before.can_mutate() ==> match before.details {
        Some(d) => (after.mode matches Mode::LogForm { task_id, task_title, text }
        && task_id@ == d.task@.id && task_title@ == d.task@.title && text@.len() == 0) && root_opened(before, after),
        None => true,
    }
    &&& after.visible_tasks == before.visible_tasks
    &&& after.selected == before.selected
    &&& after.task_result == before.task_result
}

pub open spec fn open_purge_confirm_done(before: TuiState, after: TuiState) -> bool {
    &&& !before.can_mutate() ==> message_is(after.status_message, "Restore this space before purging tasks inside it."@)
        && after == (TuiState { status_message: after.status_message, ..before })
    &&& before.can_mutate() && before.selected is None ==> message_is(after.status_message, "Select a task first to purge it."@)
        && after == (TuiState { status_message: after.status_message, ..before })
    &&& before.can_mutate() ==> match before.selected {
        Some(i) => {
        let t = before.visible_tasks@[i as int]@.task;
        if !t.archived {
            message_is(after.status_message, "Only archived tasks can be purged. Archive the task first."@)
                && after == (TuiState { status_message: after.status_message, ..before })
        } else {
            &&& root_opened(before, after)
            &&& after.mode matches Mode::PurgeTaskConfirm { task_id, task_title, affected_count, requires_phrase, phrase }
                && task_id@ == t.id && task_title@ == t.title && requires_phrase == (affected_count > 1) && phrase@.len() == 0
                && match before.task_result {
                    Some(res) => affected_count == subtree_of(entry_tasks(views(res.entries@)), t.id).len(),
                    None => affected_count == 1,
                }
        }
    },
        None => true,
    }
    &&& after.visible_tasks == before.visible_tasks
    &&& after.selected == before.selected
    &&& after.task_result == before.task_result
}

/// A task's children are shown when they were hidden and hidden when they
/// were shown: the task's id enters or leaves the expanded ids of the space
/// on view, and the tree is rebuilt.
pub open spec fn toggle_done(before: TuiState, after: TuiState, rb: RepoView, id: Seq<char>, r: Result<bool, AppError>) -> bool {
    &&& runnable(rb) ==> r == Ok::<bool, AppError>(true) && shows_listing(rb, after)
    &&& r is Ok ==> r == Ok::<bool, AppError>(true)
    &&& after.focus_area == before.focus_area
    &&& before.viewed_space_id matches Some(v) ==> (memory_of(after.tui_memory@, v@).expanded_task_ids.contains(id)
        <==> !memory_of(before.tui_memory@, v@).expanded_task_ids.contains(id))
}

pub open spec fn set_view_done(before: TuiState, after: TuiState, rb: RepoView, view: ViewMode, r: Result<bool, AppError>) -> bool {
    &&& after.current_view == view
    &&& r is Ok ==> r == Ok::<bool, AppError>(true)
    &&& runnable(rb) ==> r == Ok::<bool, AppError>(true) && shows_listing(rb, after)
    &&& keeps_dialogs(after, before)
    &&& after.current_sort == before.current_sort
    &&& after.status_message == before.status_message
}

pub open spec fn cycle_sort_done(before: TuiState, after: TuiState, rb: RepoView, r: Result<bool, AppError>) -> bool {
    &&& after.current_sort == next_sort(before.current_sort)
    &&& r is Ok ==> r == Ok::<bool, AppError>(true)
    &&& runnable(rb) ==> r == Ok::<bool, AppError>(true) && shows_listing(rb, after)
    &&& keeps_dialogs(after, before)
    &&& after.current_view == before.current_view
    &&& after.status_message == before.status_message
}

pub open spec fn set_space_list_mode_done(before: TuiState, after: TuiState, rb: RepoView, mode: SpaceListMode, r: Result<bool, AppError>) -> bool {
    &&& after.space_list_mode == mode
    &&& before.space_list_mode == mode ==> r == Ok::<bool, AppError>(false) && after == before
    &&& before.space_list_mode != mode && r is Ok ==> r == Ok::<bool, AppError>(true)
    &&& before.space_list_mode != mode && runnable(rb) ==> r == Ok::<bool, AppError>(true) && shows_listing(rb, after)
    &&& keeps_dialogs(after, before)
}

pub open spec fn open_selected_space_done(before: TuiState, after: TuiState, rb: RepoView, ra: RepoView, r: Result<bool, AppError>) -> bool {
    &&& match before.selected_summary() {
        None => r == Ok::<bool, AppError>(true) && message_is(after.status_message, "Select a space first."@)
            && ra == rb && after == (TuiState { status_message: after.status_message, ..before }),
        Some(sp) => if sp.space.state == SpaceState::Active {
            exists|c: SetCurrentSpaceCommand, sr: Result<crate::model::Space, AppError>| c.space_ref@ == sp.space.id
                && #[trigger] use_space_outcome(rb, c, sr, ra)
                && (sr matches Err(e) ==> r == Err::<bool, AppError>(e) && after == before)
                && (sr is Ok && runnable(ra) ==> r == Ok::<bool, AppError>(true) && shows_listing(ra, after))
                && (sr is Ok ==> message_is(after.status_message, "Switched to space "@ + sp.space.name + "."@)
                    && after.background_mode is None)
        } else {
            ra == rb && message_is(after.status_message, "Viewing archived space "@ + sp.space.name + "."@)
                && after.background_mode is None
                && (runnable(rb) ==> r == Ok::<bool, AppError>(true) && shows_listing(rb, after))
        },
    }
}

pub open spec fn set_selected_task_status_done(before: TuiState, after: TuiState, rb: RepoView, ra: RepoView, status: TaskStatus, r: Result<bool, AppError>) -> bool {
    &&& !before.can_mutate() ==> r == Ok::<bool, AppError>(true)
        && message_is(after.status_message, "Restore this space before changing task status inside it."@)
        && ra == rb && after == (TuiState { status_message: after.status_message, ..before })
    &&& before.can_mutate() ==> match before.selected {
        None => r == Ok::<bool, AppError>(true) && message_is(after.status_message, "Select a task first."@)
            && ra == rb,
        Some(i) => exists|c: UpdateTaskStatusCommand, sr: Result<Task, AppError>|
            c.task_ref@ == before.visible_tasks@[i as int]@.task.id && c.status == status
            && #[trigger] set_task_status_outcome(rb, c, sr, ra)
            && (sr matches Err(e) ==> r == Err::<bool, AppError>(e)) && (sr is Ok && runnable(ra) ==> r == Ok::<bool, AppError>(true) && shows_listing(ra, after))
            && (sr matches Ok(t) ==> message_is(after.status_message,
                if t@.archived && status.finished() {
                    "Archived "@ + t@.title + " as "@ + status_text(status) + "."@
                } else {
                    "Set "@ + t@.title + " to "@ + status_text(status) + "."@
                })),
    }
}

pub open spec fn restore_selected_task_done(before: TuiState, after: TuiState, rb: RepoView, ra: RepoView, r: Result<bool, AppError>) -> bool {
    &&& !before.can_mutate() ==> r == Ok::<bool, AppError>(true)
        && message_is(after.status_message, "Restore this space before restoring tasks inside it."@)
        && ra == rb && after == (TuiState { status_message: after.status_message, ..before })
    &&& before.can_mutate() ==> match before.selected {
        None => r == Ok::<bool, AppError>(true) && message_is(after.status_message, "Select a task first."@)
            && ra == rb,
        Some(i) => exists|c: RestoreTaskCommand, sr: Result<OperationOutcome, AppError>|
            c.task_ref@ == before.visible_tasks@[i as int]@.task.id && c.status == TaskStatus::Todo
            && #[trigger] restore_task_outcome(rb, c, sr, ra)
            && (sr matches Err(e) ==> r == Err::<bool, AppError>(e)) && (sr is Ok && runnable(ra) ==> r == Ok::<bool, AppError>(true) && shows_listing(ra, after))
            && (sr matches Ok(out) ==> (out.root_task is Some ==> message_is(after.status_message,
                "Restored "@ + decimal(out.affected_count as nat) + " task(s)."@))),
    }
}

pub open spec fn archive_selected_space_done(before: TuiState, after: TuiState, rb: RepoView, ra: RepoView, r: Result<bool, AppError>) -> bool {
    &&& match before.selected_summary() {
        None => r == Ok::<bool, AppError>(true) && message_is(after.status_message, "Select a space first."@)
            && ra == rb,
        Some(sp) => if sp.space.state == SpaceState::Archived {
            r == Ok::<bool, AppError>(true) && message_is(after.status_message, "That space is already archived."@)
                && ra == rb
        } else {
            exists|c: ArchiveSpaceCommand, sr: Result<OperationOutcome, AppError>| c.space_ref@ == sp.space.id
                && #[trigger] archive_space_outcome(rb, c, sr, ra)
                && (sr matches Err(e) ==> r == Err::<bool, AppError>(e)) && (sr is Ok && runnable(ra) ==> r == Ok::<bool, AppError>(true) && shows_listing(ra, after))
                && (sr is Ok ==> message_is(after.status_message, "Archived space "@ + sp.space.name + "."@))
        },
    }
}

pub open spec fn restore_selected_space_done(before: TuiState, after: TuiState, rb: RepoView, ra: RepoView, r: Result<bool, AppError>) -> bool {
    &&& match before.selected_summary() {
        None => r == Ok::<bool, AppError>(true) && message_is(after.status_message, "Select a space first."@)
            && ra == rb,
        Some(sp) => if sp.space.state == SpaceState::Active {
            r == Ok::<bool, AppError>(true) && message_is(after.status_message, "That space is already active."@)
                && ra == rb
        } else {
            exists|c: RestoreSpaceCommand, sr: Result<OperationOutcome, AppError>| c.space_ref@ == sp.space.id
                && #[trigger] restore_space_outcome(rb, c, sr, ra)
                && (sr matches Err(e) ==> r == Err::<bool, AppError>(e)) && (sr is Ok && runnable(ra) ==> r == Ok::<bool, AppError>(true) && shows_listing(ra, after))
                && (sr is Ok ==> message_is(after.status_message, "Restored space "@ + sp.space.name + "."@))
        },
    }
}

pub open spec fn move_selected_task_done(before: TuiState, after: TuiState, rb: RepoView, ra: RepoView, direction: MoveTaskDirection, r: Result<bool, AppError>) -> bool {
    &&& !before.can_mutate() ==> r == Ok::<bool, AppError>(true)
        && message_is(after.status_message, "Restore this space before reordering tasks inside it."@)
        && ra == rb && after == (TuiState { status_message: after.status_message, ..before })
    &&& before.can_mutate() && before.current_sort != SortMode::Manual ==> r == Ok::<bool, AppError>(true)
        && message_is(after.status_message, "Switch to manual sort before reordering tasks."@)
        && ra == rb && after == (TuiState { status_message: after.status_message, ..before })
    &&& before.can_mutate() && before.current_sort == SortMode::Manual ==> match before.selected {
        None => r == Ok::<bool, AppError>(true) && message_is(after.status_message, "Select a task first."@)
            && ra == rb && after == (TuiState { status_message: after.status_message, ..before }),
        Some(i) => exists|sr: Result<Task, AppError>|
            #[trigger] move_outcome(rb, ra, before.visible_tasks@[i as int]@.task.id, direction, sr)
            && (sr matches Err(e) ==> r == Err::<bool, AppError>(e))
            && (sr is Ok && runnable(ra) ==> r == Ok::<bool, AppError>(true) && shows_listing(ra, after)
                && keeps_selection(before, after))
            && (sr is Ok && before.viewed_space_id is Some
                ==> memory_of(after.tui_memory@, before.viewed_space_id->0@).selected_task_id == Some(sr->Ok_0@.id))
            && (sr matches Ok(t) ==> message_is(after.status_message, "Moved "@ + t@.title + " "@ + direction_label(direction) + "."@)),
    }
}

pub open spec fn submit_space_form_done(before: TuiState, after: TuiState, rb: RepoView, ra: RepoView, rename_of: Option<SpaceId>, name: String, r: Result<(), AppError>) -> bool {
    &&& match rename_of {
        Some(id) => exists|c: RenameSpaceCommand, sr: Result<crate::model::Space, AppError>|
            c.space_ref@ == id@ && c.new_name@ == name@
            && #[trigger] rename_space_outcome(rb, c, sr, ra)
            && (sr matches Err(e) ==> r == Err::<(), AppError>(e)) && (sr is Ok && runnable(ra) ==> r is Ok && shows_listing(ra, after))
            && (sr matches Ok(x) ==> message_is(after.status_message, "Renamed space to "@ + x@.name + "."@)),
        None => exists|mid: RepoView, c: CreateSpaceCommand, sr: Result<crate::model::Space, AppError>|
            c.name@ == name@ && #[trigger] create_space_outcome(rb, c, sr, mid)
            && (sr matches Err(e) ==> r == Err::<(), AppError>(e) && ra == mid)
            && (sr matches Ok(x) ==> (r is Ok ==> message_is(after.status_message, "Created space "@ + x@.name + "."@)
                && exists|c2: SetCurrentSpaceCommand, sr2: Result<crate::model::Space, AppError>|
                    c2.space_ref@ == x@.id && #[trigger] use_space_outcome(mid, c2, sr2, ra))),
    }
    &&& r is Ok ==> after.background_mode is None
}

pub open spec fn submit_task_form_done(before: TuiState, after: TuiState, rb: RepoView, ra: RepoView, kind: TaskFormKind, title: String, description: String, status: TaskStatus, r: Result<(), AppError>) -> bool {
    &&& match kind {
        TaskFormKind::CreateRoot => exists|c: CreateTaskCommand, sr: Result<Task, AppError>|
            c.title@ == title@ && opt_view(c.description) == description_of(description@) && c.parent_ref is None
            && c.status == status
            && opt_view(c.space_ref) == (if before.viewed_pos() >= 0 { Some(before.spaces@[before.viewed_pos()]@.space.id) } else { None })
            && #[trigger] create_task_outcome(rb, c, sr, ra)
            && (sr matches Err(e) ==> r == Err::<(), AppError>(e)) && (sr is Ok && runnable(ra) ==> r is Ok && shows_listing(ra, after))
            && (sr matches Ok(t) ==> message_is(after.status_message, "Created task "@ + t@.title + "."@)),
        TaskFormKind::CreateChild { parent_id } => exists|c: CreateTaskCommand, sr: Result<Task, AppError>|
            c.title@ == title@ && opt_view(c.description) == description_of(description@)
            && opt_view(c.parent_ref) == Some(parent_id@) && c.space_ref is None && c.status == status
            && #[trigger] create_task_outcome(rb, c, sr, ra)
            && (sr matches Err(e) ==> r == Err::<(), AppError>(e)) && (sr is Ok && runnable(ra) ==> r is Ok && shows_listing(ra, after))
            && (sr matches Ok(t) ==> message_is(after.status_message, "Created task "@ + t@.title + "."@)),
        TaskFormKind::Edit { task_id } => exists|c: EditTaskCommand, sr: Result<Task, AppError>|
            c.task_ref@ == task_id@ && opt_view(c.title) == Some(title@)
            && opt_view(c.description) == description_of(description@) && c.clear_description == is_blank(description@)
            && c.status == Some(status) && c.parent_ref is None && !c.clear_parent && c.space_ref is None
            && #[trigger] edit_task_outcome(rb, c, sr, ra)
            && (sr matches Err(e) ==> r == Err::<(), AppError>(e)) && (sr is Ok && runnable(ra) ==> r is Ok && shows_listing(ra, after))
            && (sr matches Ok(t) ==> message_is(after.status_message, "Updated task "@ + t@.title + "."@)),
    }
    &&& r is Ok ==> after.background_mode is None
}

pub open spec fn submit_log_form_done(before: TuiState, after: TuiState, rb: RepoView, ra: RepoView, task_id: TaskId, text: String, r: Result<(), AppError>) -> bool {
    &&& exists|c: AddTaskLogCommand, sr: Result<Task, AppError>|
        c.task_ref@ == task_id@ && c.message@ == text@
        && #[trigger] add_task_log_outcome(rb, c, sr, ra)
        && (sr matches Err(e) ==> r == Err::<(), AppError>(e)) && (sr is Ok && runnable(ra) ==> r is Ok && shows_listing(ra, after))
        && (sr matches Ok(t) ==> message_is(after.status_message, "Added log to "@ + t@.title + "."@))
    &&& r is Ok ==> after.background_mode is None
}

pub open spec fn submit_purge_confirm_done(before: TuiState, after: TuiState, rb: RepoView, ra: RepoView, task_id: TaskId, affected_count: usize, requires_phrase: bool, phrase: String, r: Result<(), AppError>) -> bool {
    &&& requires_phrase && trimmed(phrase@) != "purge"@ ==> r is Ok && ra == rb
        && message_is(after.status_message, "Type `purge` to confirm this deletion."@)
        && after.mode == before.mode
    &&& !(requires_phrase && trimmed(phrase@) != "purge"@) ==> exists|c: PurgeTaskCommand, sr: Result<OperationOutcome, AppError>|
        c.task_ref@ == task_id@ && c.recursive == (affected_count > 1)
        && #[trigger] purge_task_outcome(rb, c, sr, ra)
        && (sr matches Err(e) ==> r == Err::<(), AppError>(e)) && (sr is Ok && runnable(ra) ==> r is Ok && shows_listing(ra, after))
        && (sr matches Ok(out) ==> message_is(after.status_message, "Purged "@ + decimal(out.affected_count as nat) + " task(s)."@)
            && (r is Ok ==> after.background_mode is None))
}

pub open spec fn submit_purge_space_confirm_done(before: TuiState, after: TuiState, rb: RepoView, ra: RepoView, space_id: SpaceId, space_name: String, phrase: String, r: Result<(), AppError>) -> bool {
    &&& trimmed(phrase@) != "purge"@ ==> r is Ok && ra == rb
        && message_is(after.status_message, "Type `purge` to confirm this deletion."@)
        && after.mode == before.mode
    &&& trimmed(phrase@) == "purge"@ ==> exists|c: PurgeSpaceCommand, sr: Result<OperationOutcome, AppError>|
        c.space_ref@ == space_id@
        && #[trigger] purge_space_outcome(rb, c, sr, ra)
        && (sr matches Err(e) ==> r == Err::<(), AppError>(e)) && (sr is Ok && runnable(ra) ==> r is Ok && shows_listing(ra, after))
        && (sr is Ok ==> message_is(after.status_message, "Purged space "@ + space_name@ + "."@)
            && (r is Ok ==> after.background_mode is None))
}

pub open spec fn submit_filter_done(before: TuiState, after: TuiState, rb: RepoView, text: String, r: Result<(), AppError>) -> bool {
    &&& after.task_filter@ == trimmed(text@)
    &&& message_is(after.status_message, if trimmed(text@).len() == 0 { "Cleared task filter."@ }
        else { "Applied filter: "@ + trimmed(text@) + "."@ })
    &&& after.background_mode is None
    &&& runnable(rb) ==> r is Ok && shows_listing(rb, after)
}

pub open spec fn clear_filter_done(before: TuiState, after: TuiState, rb: RepoView, r: Result<(), AppError>) -> bool {
    &&& after.task_filter@.len() == 0
    &&& message_is(after.status_message, "Cleared task filter."@)
    &&& after.background_mode is None
    &&& runnable(rb) ==> r is Ok && shows_listing(rb, after)
}


// ---------------------------------------------------------------------------
// Clicks

/// `s` with the focus moved to `f`.
pub open spec fn focused(s: TuiState, f: FocusArea) -> TuiState {
    TuiState { focus_area: f, ..s }
}

/// The outcome of an action that returns nothing, as a click reports it.
pub open spec fn as_unit(r: Result<bool, AppError>) -> Result<(), AppError> {
    match r {
        Ok(_) => Ok(()),
        Err(e) => Err(e),
    }
}

/// The dialog closed: the one below it (or the task browser) is back.
pub open spec fn closed(before: TuiState, after: TuiState) -> bool {
    &&& after.background_mode is None
    &&& match before.background_mode {
        Some(b) => after.mode == b,
        None => after.mode is Browse,
    }
    &&& match after.mode {
        Mode::SpaceManager { origin_focus, .. } => after.focus_area == FocusArea::Spaces
            && after.return_focus == origin_focus,
        _ => after.focus_area == before.return_focus && after.return_focus == before.return_focus,
    }
    &&& keeps_data(after, before)
    &&& keeps_scroll(after, before)
}

/// The task selected before stays selected wherever it still shows.
pub open spec fn keeps_selection(before: TuiState, after: TuiState) -> bool {
    let id = before.visible_tasks@[before.selected->0 as int]@.task.id;
    before.selected is Some && row_pos(views(after.visible_tasks@), id) >= 0
        ==> after.selected == Some(row_pos(views(after.visible_tasks@), id) as usize)
}

/// A dialog opened over the task browser, replacing any dialog open: the
/// browser stays behind it, the focus stays, and the focus to return to is
/// the present one (or, from a dialog, the one that dialog returns to).
pub open spec fn root_opened(before: TuiState, after: TuiState) -> bool {
    &&& after.background_mode matches Some(b) && b is Browse
    &&& after.return_focus == (if before.mode is Browse { before.focus_area } else { before.base_focus() })
    &&& after.focus_area == before.focus_area
    &&& keeps_data(after, before)
    &&& keeps_scroll(after, before)
}

/// A dialog opened over the present one, which stays behind it; the focus
/// stays and is the one to return to.
pub open spec fn child_opened(before: TuiState, after: TuiState) -> bool {
    &&& after.background_mode == Some(before.mode)
    &&& after.return_focus == before.focus_area
    &&& after.focus_area == before.focus_area
    &&& keeps_data(after, before)
    &&& keeps_scroll(after, before)
}

/// The space manager opened over the task browser, scrolled to the top,
/// with the space list focused; closing it gives back the focus there was.
pub open spec fn manager_opened(before: TuiState, after: TuiState) -> bool {
    let origin = if before.mode is Browse { before.focus_area } else { before.base_focus() };
    &&& after.mode matches Mode::SpaceManager { scroll, origin_focus } && scroll == 0 && origin_focus == origin
    &&& after.background_mode matches Some(b) && b is Browse
    &&& after.return_focus == origin
    &&& after.focus_area == FocusArea::Spaces
    &&& keeps_data(after, before)
    &&& keeps_scroll(after, before)
}

/// What a click on `target` does to the interface (`before` to `after`)
/// and to the stored data (`rb` to `ra`), and what it returns.
pub open spec fn target_done(before: TuiState, after: TuiState, rb: RepoView, ra: RepoView, target: MouseTarget, r: Result<bool, AppError>) -> bool {
    match target {
        MouseTarget::SwitchView(v) => ra == rb && set_view_done(focused(before, FocusArea::TaskTree), after, rb, v, r),
        MouseTarget::CycleSort => ra == rb && cycle_sort_done(focused(before, FocusArea::TaskTree), after, rb, r),
        MouseTarget::OpenFilter => ra == rb && r == Ok::<bool, AppError>(true)
            && (after.mode matches Mode::Filter { text } && text@ == before.task_filter@)
            && root_opened(focused(before, FocusArea::TaskTree), after),
        MouseTarget::OpenSpaceManager => ra == rb && r == Ok::<bool, AppError>(true) && manager_opened(before, after),
        MouseTarget::OpenHelp => ra == rb && r == Ok::<bool, AppError>(true) && after.mode is Help && root_opened(before, after),
        MouseTarget::CloseHelp | MouseTarget::CloseSpaceManager | MouseTarget::SpaceFormCancel | MouseTarget::TaskFormCancel
            | MouseTarget::LogFormCancel | MouseTarget::FilterCancel | MouseTarget::ConfirmCancel =>
            ra == rb && r == Ok::<bool, AppError>(true) && closed(before, after),
        MouseTarget::SelectManagedSpace(i) => ra == rb
            && (r matches Ok(c) && select_managed_space_done(focused(before, FocusArea::Spaces), after, i, c)),
        MouseTarget::OpenSelectedSpace => open_selected_space_done(focused(before, FocusArea::Spaces), after, rb, ra, r),
        MouseTarget::SetSpaceListMode(m) => ra == rb && set_space_list_mode_done(focused(before, FocusArea::Spaces), after, rb, m, r),
        MouseTarget::OpenSpaceCreate => ra == rb && r == Ok::<bool, AppError>(true)
            && (after.mode matches Mode::SpaceForm { rename_of, name } && rename_of is None && name@.len() == 0)
            && child_opened(focused(before, FocusArea::Spaces), after),
        MouseTarget::OpenSpaceRename => ra == rb && r == Ok::<bool, AppError>(true)
            && open_space_form_rename_done(focused(before, FocusArea::Spaces), after),
        MouseTarget::ArchiveSpace => archive_selected_space_done(focused(before, FocusArea::Spaces), after, rb, ra, r),
        MouseTarget::RestoreSpace => restore_selected_space_done(focused(before, FocusArea::Spaces), after, rb, ra, r),
        MouseTarget::OpenPurgeSpace => ra == rb && r == Ok::<bool, AppError>(true)
            && open_purge_space_confirm_done(focused(before, FocusArea::Spaces), after),
        MouseTarget::SelectTask(i) => ra == rb
            && after.focus_area == (if before.narrow { FocusArea::Details } else { FocusArea::TaskTree })
            && after.selected == (if i < before.visible_tasks@.len() { Some(i) } else { None })
            && (r is Ok ==> r == Ok::<bool, AppError>(true))
            && match after.selected {
                None => r == Ok::<bool, AppError>(true) && after.details is None,
                Some(j) => exists|dr: Result<TaskDetails, AppError>|
                    #[trigger] details_loaded(rb, before.visible_tasks@[j as int]@.task.id, dr) && match dr {
                        Ok(d) => r == Ok::<bool, AppError>(true) && after.details == Some(d),
                        Err(e) => r matches Err(x) && x@ == e@,
                    },
            },
        MouseTarget::ToggleTask(id) => ra == rb && toggle_done(focused(before, FocusArea::TaskTree), after, rb, id@, r),
        MouseTarget::CreateTask => ra == rb && r == Ok::<bool, AppError>(true)
            && open_task_form_create_root_done(focused(before, FocusArea::Details), after),
        MouseTarget::CreateSubtask => ra == rb && r == Ok::<bool, AppError>(true)
            && open_task_form_create_child_done(focused(before, FocusArea::Details), after),
        MouseTarget::EditTask => ra == rb && r == Ok::<bool, AppError>(true)
            && open_task_form_edit_done(focused(before, FocusArea::Details), after),
        MouseTarget::AddLog => ra == rb && r == Ok::<bool, AppError>(true) && open_log_form_done(focused(before, FocusArea::Details), after),
        MouseTarget::OpenPurgeTask => ra == rb && r == Ok::<bool, AppError>(true)
            && open_purge_confirm_done(focused(before, FocusArea::Details), after),
        MouseTarget::SetTaskStatus(st) => set_selected_task_status_done(focused(before, FocusArea::Details), after, rb, ra, st, r),
        MouseTarget::RestoreTask => restore_selected_task_done(focused(before, FocusArea::Details), after, rb, ra, r),
        MouseTarget::MoveTask(d) => move_selected_task_done(focused(before, FocusArea::Details), after, rb, ra, d, r),
        MouseTarget::CloseDetails => ra == rb && r == Ok::<bool, AppError>(true) && after == focused(before, FocusArea::TaskTree),
        MouseTarget::SpaceFormInput => ra == rb && after == before && r == Ok::<bool, AppError>(before.mode is SpaceForm),
        MouseTarget::LogFormInput => ra == rb && after == before && r == Ok::<bool, AppError>(before.mode is LogForm),
        MouseTarget::FilterInput => ra == rb && after == before && r == Ok::<bool, AppError>(before.mode is Filter),
        MouseTarget::ConfirmPhraseInput => ra == rb && after == before && r == Ok::<bool, AppError>(match before.mode {
            Mode::PurgeTaskConfirm { requires_phrase, .. } => requires_phrase,
            Mode::PurgeSpaceConfirm { .. } => true,
            _ => false,
        }),
        MouseTarget::TaskFormTitle => ra == rb && match before.mode {
            Mode::TaskForm { kind, title, description, status, .. } => r == Ok::<bool, AppError>(true)
                && after == (TuiState { mode: Mode::TaskForm { kind, focus: TaskFormField::Title, title, description, status }, ..before }),
            _ => r == Ok::<bool, AppError>(false) && after == before,
        },
        MouseTarget::TaskFormDescription => ra == rb && match before.mode {
            Mode::TaskForm { kind, title, description, status, .. } => r == Ok::<bool, AppError>(true)
                && after == (TuiState { mode: Mode::TaskForm { kind, focus: TaskFormField::Description, title, description, status }, ..before }),
            _ => r == Ok::<bool, AppError>(false) && after == before,
        },
        MouseTarget::TaskFormStatus(st) => ra == rb && match before.mode {
            Mode::TaskForm { kind, title, description, .. } => r == Ok::<bool, AppError>(true)
                && after == (TuiState { mode: Mode::TaskForm { kind, focus: TaskFormField::Status, title, description, status: st }, ..before }),
            _ => r == Ok::<bool, AppError>(false) && after == before,
        },
        MouseTarget::SpaceFormSave => match before.mode {
            Mode::SpaceForm { rename_of, name } => submit_space_form_done(before, after, rb, ra, rename_of, name, as_unit(r))
                && (r is Ok ==> r == Ok::<bool, AppError>(true)),
            _ => ra == rb && r == Ok::<bool, AppError>(false) && after == before,
        },
        MouseTarget::TaskFormSave => match before.mode {
            Mode::TaskForm { kind, title, description, status, .. } =>
                submit_task_form_done(before, after, rb, ra, kind, title, description, status, as_unit(r))
                && (r is Ok ==> r == Ok::<bool, AppError>(true)),
            _ => ra == rb && r == Ok::<bool, AppError>(false) && after == before,
        },
        MouseTarget::LogFormSave => match before.mode {
            Mode::LogForm { task_id, text, .. } => submit_log_form_done(before, after, rb, ra, task_id, text, as_unit(r))
                && (r is Ok ==> r == Ok::<bool, AppError>(true)),
            _ => ra == rb && r == Ok::<bool, AppError>(false) && after == before,
        },
        MouseTarget::FilterApply => match before.mode {
            Mode::Filter { text } => ra == rb && submit_filter_done(before, after, rb, text, as_unit(r))
                && r == Ok::<bool, AppError>(true),
            _ => ra == rb && r == Ok::<bool, AppError>(false) && after == before,
        },
        MouseTarget::FilterClear => ra == rb && clear_filter_done(before, after, rb, as_unit(r))
            && r == Ok::<bool, AppError>(true),
        MouseTarget::ConfirmPurge => match before.mode {
            Mode::PurgeTaskConfirm { task_id, affected_count, requires_phrase, phrase, .. } =>
                submit_purge_confirm_done(before, after, rb, ra, task_id, affected_count, requires_phrase, phrase, as_unit(r))
                && (r is Ok ==> r == Ok::<bool, AppError>(true)),
            Mode::PurgeSpaceConfirm { space_id, space_name, phrase, .. } =>
                submit_purge_space_confirm_done(before, after, rb, ra, space_id, space_name, phrase, as_unit(r))
                && (r is Ok ==> r == Ok::<bool, AppError>(true)),
            _ => ra == rb && r == Ok::<bool, AppError>(false) && after == before,
        },
    }
}

fn clone_kind(kind: &TaskFormKind) -> (r: TaskFormKind)
    ensures
        match *kind {
            TaskFormKind::CreateRoot => r is CreateRoot,
            TaskFormKind::CreateChild { parent_id } => r matches TaskFormKind::CreateChild { parent_id: p } && p@ == parent_id@,
            TaskFormKind::Edit { task_id } => r matches TaskFormKind::Edit { task_id: t } && t@ == task_id@,
        },
{
    match kind {
        TaskFormKind::CreateRoot => TaskFormKind::CreateRoot,
        TaskFormKind::CreateChild { parent_id } => TaskFormKind::CreateChild { parent_id: parent_id.clone() },
        TaskFormKind::Edit { task_id } => TaskFormKind::Edit { task_id: task_id.clone() },
    }
}

fn clone_space_id(id: &Option<SpaceId>) -> (r: Option<SpaceId>)
    ensures
        opt_view(r) == opt_view(*id),
{
    match id {
        Some(x) => Some(x.clone()),
        None => None,
    }
}

impl TuiState {
    /// Runs what a click on `target` does: moves the focus to the panel it
    /// belongs to and opens, closes or saves a dialog, or runs the use case
    /// on the selected task or space. Returns whether the interface
    /// changed; the error of a use case is returned for the caller to show.
    #[verifier::rlimit(100)]
    #[verifier::spinoff_prover]
    pub fn apply_target(&mut self, repo: &mut Repository, target: MouseTarget) -> (r: Result<bool, AppError>)
        requires
            old(self).wf(),
            old(repo).wf(),
            runnable(old(repo)@),
        ensures
            final(self).wf(),
            final(repo).wf(),
            target_done(*old(self), *final(self), old(repo)@, final(repo)@, target, r),
            final(self).should_quit == old(self).should_quit,
    {
        match target {
            MouseTarget::SwitchView(view) => {
                self.focus_area = FocusArea::TaskTree;
                self.set_view(repo, view)
            },
            MouseTarget::CycleSort => {
                self.focus_area = FocusArea::TaskTree;
                self.cycle_sort(repo)
            },
            MouseTarget::OpenFilter => {
                self.focus_area = FocusArea::TaskTree;
                self.open_filter();
                Ok(true)
            },
            MouseTarget::OpenSpaceManager => {
                self.open_space_manager();
                Ok(true)
            },
            MouseTarget::OpenHelp => {
                self.open_help();
                Ok(true)
            },
            MouseTarget::CloseHelp | MouseTarget::CloseSpaceManager | MouseTarget::SpaceFormCancel | MouseTarget::TaskFormCancel
            | MouseTarget::LogFormCancel | MouseTarget::FilterCancel | MouseTarget::ConfirmCancel => {
                self.close_modal();
                Ok(true)
            },
            MouseTarget::SelectManagedSpace(index) => {
                self.focus_area = FocusArea::Spaces;
                Ok(self.select_managed_space(index))
            },
            MouseTarget::OpenSelectedSpace => {
                self.focus_area = FocusArea::Spaces;
                self.open_selected_space(repo)
            },
            MouseTarget::SetSpaceListMode(mode) => {
                self.focus_area = FocusArea::Spaces;
                self.set_space_list_mode(repo, mode)
            },
            MouseTarget::OpenSpaceCreate => {
                self.focus_area = FocusArea::Spaces;
                self.open_space_form_create();
                Ok(true)
            },
            MouseTarget::OpenSpaceRename => {
                self.focus_area = FocusArea::Spaces;
                self.open_space_form_rename();
                Ok(true)
            },
            MouseTarget::ArchiveSpace => {
                self.focus_area = FocusArea::Spaces;
                self.archive_selected_space(repo)
            },
            MouseTarget::RestoreSpace => {
                self.focus_area = FocusArea::Spaces;
                self.restore_selected_space(repo)
            },
            MouseTarget::OpenPurgeSpace => {
                self.focus_area = FocusArea::Spaces;
                self.open_purge_space_confirm();
                Ok(true)
            },
            MouseTarget::SelectTask(index) => {
                self.focus_area = if self.narrow { FocusArea::Details } else { FocusArea::TaskTree };
                self.selected = if index < self.visible_tasks.len() { Some(index) } else { None };
                match self.refresh_details(repo) {
                    Ok(()) => Ok(true),
                    Err(e) => Err(e),
                }
            },
            MouseTarget::ToggleTask(task_id) => {
                self.focus_area = FocusArea::TaskTree;
                self.toggle_task(repo, task_id)
            },
            MouseTarget::CreateTask => {
                self.focus_area = FocusArea::Details;
                self.open_task_form_create_root();
                Ok(true)
            },
            MouseTarget::CreateSubtask => {
                self.focus_area = FocusArea::Details;
                self.open_task_form_create_child();
                Ok(true)
            },
            MouseTarget::EditTask => {
                self.focus_area = FocusArea::Details;
                self.open_task_form_edit();
                Ok(true)
            },
            MouseTarget::AddLog => {
                self.focus_area = FocusArea::Details;
                self.open_log_form();
                Ok(true)
            },
            MouseTarget::OpenPurgeTask => {
                self.focus_area = FocusArea::Details;
                self.open_purge_confirm();
                Ok(true)
            },
            MouseTarget::SetTaskStatus(status) => {
                self.focus_area = FocusArea::Details;
                self.set_selected_task_status(repo, status)
            },
            MouseTarget::RestoreTask => {
                self.focus_area = FocusArea::Details;
                self.restore_selected_task(repo)
            },
            MouseTarget::MoveTask(direction) => {
                self.focus_area = FocusArea::Details;
                self.move_selected_task(repo, direction)
            },
            MouseTarget::CloseDetails => {
                self.focus_area = FocusArea::TaskTree;
                Ok(true)
            },
            MouseTarget::SpaceFormInput => Ok(match &self.mode {
                Mode::SpaceForm { .. } => true,
                _ => false,
            }),
            MouseTarget::LogFormInput => Ok(match &self.mode {
                Mode::LogForm { .. } => true,
                _ => false,
            }),
            MouseTarget::FilterInput => Ok(match &self.mode {
                Mode::Filter { .. } => true,
                _ => false,
            }),
            MouseTarget::ConfirmPhraseInput => Ok(match &self.mode {
                Mode::PurgeTaskConfirm { requires_phrase, .. } => *requires_phrase,
                Mode::PurgeSpaceConfirm { .. } => true,
                _ => false,
            }),
            MouseTarget::TaskFormTitle => self.focus_task_field(TaskFormField::Title, None),
            MouseTarget::TaskFormDescription => self.focus_task_field(TaskFormField::Description, None),
            MouseTarget::TaskFormStatus(status) => self.focus_task_field(TaskFormField::Status, Some(status)),
            MouseTarget::SpaceFormSave => {
                let form = match &self.mode {
                    Mode::SpaceForm { rename_of, name } => Some((clone_space_id(rename_of), name.clone())),
                    _ => None,
                };
                match form {
                    Some((rename_of, name)) => match self.submit_space_form(repo, rename_of, name) {
                        Ok(()) => Ok(true),
                        Err(e) => Err(e),
                    },
                    None => Ok(false),
                }
            },
            MouseTarget::TaskFormSave => {
                let form = match &self.mode {
                    Mode::TaskForm { kind, title, description, status, .. } => Some((clone_kind(kind), title.clone(), description.clone(), *status)),
                    _ => None,
                };
                match form {
                    Some((kind, title, description, status)) => match self.submit_task_form(repo, kind, title, description, status) {
                        Ok(()) => Ok(true),
                        Err(e) => Err(e),
                    },
                    None => Ok(false),
                }
            },
            MouseTarget::LogFormSave => {
                let form = match &self.mode {
                    Mode::LogForm { task_id, text, .. } => Some((task_id.clone(), text.clone())),
                    _ => None,
                };
                match form {
                    Some((task_id, text)) => match self.submit_log_form(repo, task_id, text) {
                        Ok(()) => Ok(true),
                        Err(e) => Err(e),
                    },
                    None => Ok(false),
                }
            },
            MouseTarget::FilterApply => {
                let text = match &self.mode {
                    Mode::Filter { text } => Some(text.clone()),
                    _ => None,
                };
                match text {
                    Some(text) => match self.submit_filter(repo, text) {
                        Ok(()) => Ok(true),
                        Err(e) => Err(e),
                    },
                    None => Ok(false),
                }
            },
            MouseTarget::FilterClear => match self.clear_filter(repo) {
                Ok(()) => Ok(true),
                Err(e) => Err(e),
            },
            MouseTarget::ConfirmPurge => {
                let task = match &self.mode {
                    Mode::PurgeTaskConfirm { task_id, affected_count, requires_phrase, phrase, .. } =>
                        Some((task_id.clone(), *affected_count, *requires_phrase, phrase.clone())),
                    _ => None,
                };
                let space = match &self.mode {
                    Mode::PurgeSpaceConfirm { space_id, space_name, phrase, .. } => Some((space_id.clone(), space_name.clone(), phrase.clone())),
                    _ => None,
                };
                match task {
                    Some((task_id, affected_count, requires_phrase, phrase)) => {
                        match self.submit_purge_confirm(repo, task_id, affected_count, requires_phrase, phrase) {
                            Ok(()) => Ok(true),
                            Err(e) => Err(e),
                        }
                    },
                    None => match space {
                        Some((space_id, space_name, phrase)) => match self.submit_purge_space_confirm(repo, space_id, space_name, phrase) {
                            Ok(()) => Ok(true),
                            Err(e) => Err(e),
                        },
                        None => Ok(false),
                    },
                }
            },
        }
    }

    /// Moves the typing to a field of the task dialog, picking the status
    /// when one is given.
    fn focus_task_field(&mut self, field: TaskFormField, status: Option<TaskStatus>) -> (r: Result<bool, AppError>)
        requires
            old(self).wf(),
        ensures
            final(self).wf(),
            match old(self).mode {
                Mode::TaskForm { kind, title, description, status: s, .. } => r == Ok::<bool, AppError>(true)
                    && *final(self) == (TuiState {
                        mode: Mode::TaskForm { kind, focus: field, title, description, status: match status { Some(x) => x, None => s } },
                        ..*old(self)
                    }),
                _ => r == Ok::<bool, AppError>(false) && *final(self) == *old(self),
            },
            final(self).should_quit == old(self).should_quit,
    {
        let is_form = match &self.mode {
            Mode::TaskForm { .. } => true,
            _ => false,
        };
        if !is_form {
            return Ok(false);
        }
        let mut mode = Mode::Browse;
        std::mem::swap(&mut mode, &mut self.mode);
        self.mode = match mode {
            Mode::TaskForm { kind, focus: _, title, description, status: s } => Mode::TaskForm {
                kind,
                focus: field,
                title,
                description,
                status: match status {
                    Some(x) => x,
                    None => s,
                },
            },
            other => other,
        };
        Ok(true)
    }
}


/// The panel under the mouse when the wheel turns.
#[derive(Debug, Clone, Copy, PartialEq, Eq, Structural)]
pub enum ScrollArea {
    SpaceManager,
    TaskTree,
    Details,
    Elsewhere,
}

impl TuiState {
    /// Scrolls the panel under the mouse by `delta` rows and focuses it:
    /// the space list while the space manager is open, else, in the task
    /// browser, the task tree or the details. Returns whether anything
    /// scrolled.
    pub fn handle_scroll(&mut self, repo: &Repository, area: ScrollArea, delta: i64) -> (r: Result<bool, AppError>)
        requires
            old(self).wf(),
            repo.wf(),
            ids_split(repo@),
        ensures
            final(self).wf(),
            match old(self).mode {
                Mode::SpaceManager { scroll, origin_focus } => if area == ScrollArea::SpaceManager {
                    r == Ok::<bool, AppError>(true) && final(self).focus_area == FocusArea::Spaces
                        && final(self).mode == (Mode::SpaceManager {
                            scroll: clamp_offset(scroll as int + delta, old(self).spaces@.len() as int - old(self).manager_height()),
                            origin_focus,
                        })
                        && keeps_data(*final(self), *old(self))
                } else {
                    r == Ok::<bool, AppError>(false) && *final(self) == *old(self)
                },
                Mode::Browse => match area {
                    ScrollArea::TaskTree => final(self).focus_area == FocusArea::TaskTree
                        && final(self).tree_offset == clamp_offset(old(self).tree_offset as int + delta,
                            old(self).visible_tasks@.len() as int - old(self).tree_height())
                        && (r is Ok ==> r == Ok::<bool, AppError>(true))
                        && final(self).selected == old(self).selected
                        && match old(self).selected {
                            None => r == Ok::<bool, AppError>(true) && final(self).details is None,
                            Some(j) => exists|dr: Result<TaskDetails, AppError>|
                                #[trigger] details_loaded(repo@, old(self).visible_tasks@[j as int]@.task.id, dr) && match dr {
                                    Ok(d) => r == Ok::<bool, AppError>(true) && final(self).details == Some(d),
                                    Err(e) => r matches Err(x) && x@ == e@,
                                },
                        },
                    ScrollArea::Details => r == Ok::<bool, AppError>(true) && final(self).focus_area == FocusArea::Details
                        && final(self).details_scroll == (if old(self).details_scroll as int + delta <= 0 { 0 }
                            else if old(self).details_scroll as int + delta > usize::MAX { usize::MAX as int }
                            else { old(self).details_scroll as int + delta }),
                    _ => r == Ok::<bool, AppError>(false) && *final(self) == *old(self),
                },
                _ => r == Ok::<bool, AppError>(false) && *final(self) == *old(self),
            },
    {
        let in_manager = match &self.mode {
            Mode::SpaceManager { .. } => true,
            _ => false,
        };
        if in_manager {
            if area == ScrollArea::SpaceManager {
                self.focus_area = FocusArea::Spaces;
                self.scroll_space_manager(delta);
                return Ok(true);
            }
            return Ok(false);
        }
        if !self.is_browsing() {
            return Ok(false);
        }
        match area {
            ScrollArea::TaskTree => {
                self.focus_area = FocusArea::TaskTree;
                self.scroll_task_tree(delta);
                match self.refresh_details(repo) {
                    Ok(()) => Ok(true),
                    Err(e) => Err(e),
                }
            },
            ScrollArea::Details => {
                self.focus_area = FocusArea::Details;
                self.scroll_details(delta);
                Ok(true)
            },
            _ => Ok(false),
        }
    }
}


/// The clicks that change the tasks of the space on view: creating, editing,
/// finishing, logging, restoring, purging and moving tasks.
pub open spec fn edits_tasks(target: MouseTarget) -> bool {
    match target {
        MouseTarget::CreateTask | MouseTarget::CreateSubtask | MouseTarget::EditTask | MouseTarget::AddLog
            | MouseTarget::OpenPurgeTask | MouseTarget::SetTaskStatus(_) | MouseTarget::RestoreTask
            | MouseTarget::MoveTask(_) => true,
        _ => false,
    }
}

/// Archived spaces can be browsed but are read-only until restored: while
/// the space on view is archived, a click on a task action leaves the stored
/// data as it was and changes nothing of the interface but the status
/// message, which says to restore the space, and the focus, which moves to
/// the detail panel the button sits in.
pub proof fn law_archived_space_is_read_only(
    before: TuiState,
    after: TuiState,
    rb: RepoView,
    ra: RepoView,
    target: MouseTarget,
    r: Result<bool, AppError>,
)
    requires
        target_done(before, after, rb, ra, target, r),
        edits_tasks(target),
        !before.can_mutate(),
    ensures
        ra == rb,
        after == (TuiState { status_message: after.status_message, focus_area: after.focus_area, ..before }),
        after.focus_area == FocusArea::Details,
        r == Ok::<bool, AppError>(true),
        after.status_message is Some,
{
    assert(focused(before, FocusArea::Details).can_mutate() == before.can_mutate());
}


/// The interface opens again as it was left: after its state is persisted,
/// opening it without launch options brings back the view, the sort, the
/// focus, the space list mode, the filter and the space on view (as far as
/// that space is still listed).
pub proof fn law_reopens_as_left(a0: TuiState, a1: TuiState, rb: RepoView, ra: RepoView, a2: TuiState)
    requires
        persisted(a0, a1, rb, ra),
        opened(ra, LaunchOptions { space_id: None, view: None, sort: None }, a2),
    ensures
        a2.current_view == a0.current_view,
        a2.current_sort == a0.current_sort,
        a2.focus_area == a0.focus_area,
        a2.space_list_mode == a0.space_list_mode,
        a2.task_filter@ == a0.task_filter@,
        opt_view(a2.viewed_space_id) == next_viewed(
            if a0.viewed_space_id is Some { opt_view(a0.viewed_space_id) } else { opt_view(a0.current_space_id) },
            opt_view(a0.current_space_id),
            views(a2.spaces@),
        ),
{
}

} // verus!
