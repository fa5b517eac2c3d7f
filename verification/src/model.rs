//! The domain model: tasks, spaces, application configuration and state.

use vstd::prelude::*;
use crate::clock::{now_utc, Timestamp};
use crate::ids::{is_long_id, space_prefix, task_prefix, SpaceId, TaskId};
use crate::text::{ascii_lower, char_is_ascii_alphanumeric, char_to_ascii_lowercase, is_ascii_alphanumeric, string_push};
use vstd::string::*;
use crate::util::{clone_keeps_view, clone_opt_string, clone_vec, opt_view, views};

verus! {

/// The version written into new configuration files.
pub const APP_SCHEMA_VERSION: u32 = 2;

#[derive(Debug, Clone, Copy, PartialEq, Eq, Structural)]
pub enum TaskStatus {
    Todo,
    InProgress,
    Done,
    Close,
}

#[derive(Debug, Clone, Copy, PartialEq, Eq, Structural)]
pub enum SpaceState {
    Active,
    Archived,
}

#[derive(Debug, Clone, Copy, PartialEq, Eq, Structural)]
pub enum ViewMode {
    Todo,
    Archive,
    All,
}

#[derive(Debug, Clone, Copy, PartialEq, Eq, Structural)]
pub enum SortMode {
    Created,
    Updated,
    Status,
    Manual,
}

#[derive(Debug, Clone, Copy, PartialEq, Eq, Structural)]
pub enum FocusArea {
    Spaces,
    TaskTree,
    Details,
}

#[derive(Debug, Clone, Copy, PartialEq, Eq, Structural)]
pub enum SpaceListMode {
    Active,
    All,
}

#[derive(Debug, Clone, Copy, PartialEq, Eq, Structural)]
pub enum PendingOperationKind {
    TaskArchive,
    TaskRestore,
    TaskPurge,
    SpaceArchive,
    SpaceRestore,
    SpacePurge,
}

/// The number of live and archived tasks of a space.
#[derive(Debug, Clone, Copy, PartialEq, Eq, Structural)]
pub struct SpaceCounts {
    pub todo_tasks: usize,
    pub archived_tasks: usize,
}

#[derive(Debug)]
pub struct TaskLog {
    pub at: Timestamp,
    pub message: String,
}

#[derive(Debug)]
pub struct Task {
    pub id: TaskId,
    pub space_id: SpaceId,
    pub title: String,
    pub description: Option<String>,
    pub status: TaskStatus,
    pub archived: bool,
    pub parent_id: Option<TaskId>,
    pub sort_order: i64,
    pub logs: Vec<TaskLog>,
    pub created_at: Timestamp,
    pub updated_at: Timestamp,
}

#[derive(Debug)]
pub struct Space {
    pub id: SpaceId,
    pub name: String,
    pub slug: String,
    pub state: SpaceState,
    pub sort_order: i64,
    pub counts: SpaceCounts,
    pub created_at: Timestamp,
    pub updated_at: Timestamp,
}

#[derive(Debug, Clone, Copy, PartialEq, Eq, Structural)]
pub struct AppConfig {
    pub schema_version: u32,
    pub default_view: ViewMode,
    pub default_sort: SortMode,
}

/// What the terminal interface remembers about one space.
#[derive(Debug)]
pub struct SpaceViewMemory {
    pub selected_task_id: Option<TaskId>,
    pub expanded_task_ids: Vec<TaskId>,
    pub task_tree_scroll: usize,
    pub details_scroll: usize,
}

/// One entry of the per-space memory table, keyed by space id.
#[derive(Debug)]
pub struct SpaceMemoryEntry {
    pub space_id: SpaceId,
    pub memory: SpaceViewMemory,
}

#[derive(Debug)]
pub struct TuiMemory {
    pub focus_area: FocusArea,
    pub spaces_cursor: usize,
    pub selected_space_id: Option<SpaceId>,
    pub space_list_mode: SpaceListMode,
    pub task_filter: String,
    pub spaces: Vec<SpaceMemoryEntry>,
}

#[derive(Debug)]
pub struct StateMutation {
    pub current_space_id: Option<SpaceId>,
    pub cleared_space_memory_ids: Vec<SpaceId>,
}

#[derive(Debug)]
pub enum PendingOperationEntry {
    TaskUpsert(Task),
    TaskDelete { task_id: TaskId },
    SpaceUpsert(Space),
    SpaceDelete { space_id: SpaceId },
    StateUpdate(StateMutation),
}

#[derive(Debug)]
pub struct PendingOperation {
    pub operation_id: String,
    pub kind: PendingOperationKind,
    pub created_at: Timestamp,
    pub entries: Vec<PendingOperationEntry>,
}

#[derive(Debug)]
pub struct AppState {
    pub current_space_id: Option<SpaceId>,
    pub current_view: ViewMode,
    pub current_sort: SortMode,
    pub tui_memory: TuiMemory,
    pub pending_operation: Option<PendingOperation>,
}

// ---------------------------------------------------------------------------
// Views

#[verifier::ext_equal]
pub struct TaskLogView {
    pub at: Timestamp,
    pub message: Seq<char>,
}

#[verifier::ext_equal]
pub struct TaskView {
    pub id: Seq<char>,
    pub space_id: Seq<char>,
    pub title: Seq<char>,
    pub description: Option<Seq<char>>,
    pub status: TaskStatus,
    pub archived: bool,
    pub parent_id: Option<Seq<char>>,
    pub sort_order: i64,
    pub logs: Seq<TaskLogView>,
    pub created_at: Timestamp,
    pub updated_at: Timestamp,
}

#[verifier::ext_equal]
pub struct SpaceView {
    pub id: Seq<char>,
    pub name: Seq<char>,
    pub slug: Seq<char>,
    pub state: SpaceState,
    pub sort_order: i64,
    pub counts: SpaceCounts,
    pub created_at: Timestamp,
    pub updated_at: Timestamp,
}

#[verifier::ext_equal]
pub struct SpaceViewMemoryView {
    pub selected_task_id: Option<Seq<char>>,
    pub expanded_task_ids: Seq<Seq<char>>,
    pub task_tree_scroll: usize,
    pub details_scroll: usize,
}

#[verifier::ext_equal]
pub struct SpaceMemoryEntryView {
    pub space_id: Seq<char>,
    pub memory: SpaceViewMemoryView,
}

#[verifier::ext_equal]
pub struct TuiMemoryView {
    pub focus_area: FocusArea,
    pub spaces_cursor: usize,
    pub selected_space_id: Option<Seq<char>>,
    pub space_list_mode: SpaceListMode,
    pub task_filter: Seq<char>,
    pub spaces: Seq<SpaceMemoryEntryView>,
}

#[verifier::ext_equal]
pub struct StateMutationView {
    pub current_space_id: Option<Seq<char>>,
    pub cleared_space_memory_ids: Seq<Seq<char>>,
}

#[verifier::ext_equal]
pub enum PendingOperationEntryView {
    TaskUpsert(TaskView),
    TaskDelete { task_id: Seq<char> },
    SpaceUpsert(SpaceView),
    SpaceDelete { space_id: Seq<char> },
    StateUpdate(StateMutationView),
}

#[verifier::ext_equal]
pub struct PendingOperationView {
    pub operation_id: Seq<char>,
    pub kind: PendingOperationKind,
    pub created_at: Timestamp,
    pub entries: Seq<PendingOperationEntryView>,
}

#[verifier::ext_equal]
pub struct AppStateView {
    pub current_space_id: Option<Seq<char>>,
    pub current_view: ViewMode,
    pub current_sort: SortMode,
    pub tui_memory: TuiMemoryView,
    pub pending_operation: Option<PendingOperationView>,
}

impl View for TaskLog {
    type V = TaskLogView;

    open spec fn view(&self) -> TaskLogView {
        TaskLogView { at: self.at, message: self.message@ }
    }
}

impl View for Task {
    type V = TaskView;

    open spec fn view(&self) -> TaskView {
        TaskView {
            id: self.id@,
            space_id: self.space_id@,
            title: self.title@,
            description: opt_view(self.description),
            status: self.status,
            archived: self.archived,
            parent_id: opt_view(self.parent_id),
            sort_order: self.sort_order,
            logs: views(self.logs@),
            created_at: self.created_at,
            updated_at: self.updated_at,
        }
    }
}

impl View for Space {
    type V = SpaceView;

    open spec fn view(&self) -> SpaceView {
        SpaceView {
            id: self.id@,
            name: self.name@,
            slug: self.slug@,
            state: self.state,
            sort_order: self.sort_order,
            counts: self.counts,
            created_at: self.created_at,
            updated_at: self.updated_at,
        }
    }
}

impl View for SpaceViewMemory {
    type V = SpaceViewMemoryView;

    open spec fn view(&self) -> SpaceViewMemoryView {
        SpaceViewMemoryView {
            selected_task_id: opt_view(self.selected_task_id),
            expanded_task_ids: views(self.expanded_task_ids@),
            task_tree_scroll: self.task_tree_scroll,
            details_scroll: self.details_scroll,
        }
    }
}

impl View for SpaceMemoryEntry {
    type V = SpaceMemoryEntryView;

    open spec fn view(&self) -> SpaceMemoryEntryView {
        SpaceMemoryEntryView { space_id: self.space_id@, memory: self.memory@ }
    }
}

impl View for TuiMemory {
    type V = TuiMemoryView;

    open spec fn view(&self) -> TuiMemoryView {
        TuiMemoryView {
            focus_area: self.focus_area,
            spaces_cursor: self.spaces_cursor,
            selected_space_id: opt_view(self.selected_space_id),
            space_list_mode: self.space_list_mode,
            task_filter: self.task_filter@,
            spaces: views(self.spaces@),
        }
    }
}

impl View for StateMutation {
    type V = StateMutationView;

    open spec fn view(&self) -> StateMutationView {
        StateMutationView {
            current_space_id: opt_view(self.current_space_id),
            cleared_space_memory_ids: views(self.cleared_space_memory_ids@),
        }
    }
}

impl View for PendingOperationEntry {
    type V = PendingOperationEntryView;

    open spec fn view(&self) -> PendingOperationEntryView {
        match self {
            PendingOperationEntry::TaskUpsert(t) => PendingOperationEntryView::TaskUpsert(t@),
            PendingOperationEntry::TaskDelete { task_id } => PendingOperationEntryView::TaskDelete { task_id: task_id@ },
            PendingOperationEntry::SpaceUpsert(s) => PendingOperationEntryView::SpaceUpsert(s@),
            PendingOperationEntry::SpaceDelete { space_id } => PendingOperationEntryView::SpaceDelete { space_id: space_id@ },
            PendingOperationEntry::StateUpdate(m) => PendingOperationEntryView::StateUpdate(m@),
        }
    }
}

impl View for PendingOperation {
    type V = PendingOperationView;

    open spec fn view(&self) -> PendingOperationView {
        PendingOperationView {
            operation_id: self.operation_id@,
            kind: self.kind,
            created_at: self.created_at,
            entries: views(self.entries@),
        }
    }
}

impl View for AppState {
    type V = AppStateView;

    open spec fn view(&self) -> AppStateView {
        AppStateView {
            current_space_id: opt_view(self.current_space_id),
            current_view: self.current_view,
            current_sort: self.current_sort,
            tui_memory: self.tui_memory@,
            pending_operation: opt_view(self.pending_operation),
        }
    }
}

// ---------------------------------------------------------------------------
// Clones that keep views

pub fn clone_opt_task_id(o: &Option<TaskId>) -> (r: Option<TaskId>)
    ensures
        opt_view(r) == opt_view(*o),
{
    match o {
        Some(id) => Some(id.clone()),
        None => None,
    }
}

pub fn clone_opt_space_id(o: &Option<SpaceId>) -> (r: Option<SpaceId>)
    ensures
        opt_view(r) == opt_view(*o),
{
    match o {
        Some(id) => Some(id.clone()),
        None => None,
    }
}

impl Clone for TaskLog {
    fn clone(&self) -> (r: Self)
        ensures
            r@ == self@,
    {
        TaskLog { at: self.at, message: self.message.clone() }
    }
}

impl Clone for Task {
    fn clone(&self) -> (r: Self)
        ensures
            r@ == self@,
    {
        assert(clone_keeps_view::<TaskLog>());
        Task {
            id: self.id.clone(),
            space_id: self.space_id.clone(),
            title: self.title.clone(),
            description: clone_opt_string(&self.description),
            status: self.status,
            archived: self.archived,
            parent_id: clone_opt_task_id(&self.parent_id),
            sort_order: self.sort_order,
            logs: clone_vec(&self.logs),
            created_at: self.created_at,
            updated_at: self.updated_at,
        }
    }
}

impl Clone for Space {
    fn clone(&self) -> (r: Self)
        ensures
            r@ == self@,
    {
        Space {
            id: self.id.clone(),
            name: self.name.clone(),
            slug: self.slug.clone(),
            state: self.state,
            sort_order: self.sort_order,
            counts: self.counts,
            created_at: self.created_at,
            updated_at: self.updated_at,
        }
    }
}

impl Clone for SpaceViewMemory {
    fn clone(&self) -> (r: Self)
        ensures
            r@ == self@,
    {
        assert(clone_keeps_view::<TaskId>());
        SpaceViewMemory {
            selected_task_id: clone_opt_task_id(&self.selected_task_id),
            expanded_task_ids: clone_vec(&self.expanded_task_ids),
            task_tree_scroll: self.task_tree_scroll,
            details_scroll: self.details_scroll,
        }
    }
}

impl Clone for SpaceMemoryEntry {
    fn clone(&self) -> (r: Self)
        ensures
            r@ == self@,
    {
        SpaceMemoryEntry { space_id: self.space_id.clone(), memory: self.memory.clone() }
    }
}

impl Clone for TuiMemory {
    fn clone(&self) -> (r: Self)
        ensures
            r@ == self@,
    {
        assert(clone_keeps_view::<SpaceMemoryEntry>());
        TuiMemory {
            focus_area: self.focus_area,
            spaces_cursor: self.spaces_cursor,
            selected_space_id: clone_opt_space_id(&self.selected_space_id),
            space_list_mode: self.space_list_mode,
            task_filter: self.task_filter.clone(),
            spaces: clone_vec(&self.spaces),
        }
    }
}

impl Clone for StateMutation {
    fn clone(&self) -> (r: Self)
        ensures
            r@ == self@,
    {
        assert(clone_keeps_view::<SpaceId>());
        StateMutation {
            current_space_id: clone_opt_space_id(&self.current_space_id),
            cleared_space_memory_ids: clone_vec(&self.cleared_space_memory_ids),
        }
    }
}

impl Clone for PendingOperationEntry {
    fn clone(&self) -> (r: Self)
        ensures
            r@ == self@,
    {
        match self {
            PendingOperationEntry::TaskUpsert(t) => PendingOperationEntry::TaskUpsert(t.clone()),
            PendingOperationEntry::TaskDelete { task_id } => PendingOperationEntry::TaskDelete { task_id: task_id.clone() },
            PendingOperationEntry::SpaceUpsert(s) => PendingOperationEntry::SpaceUpsert(s.clone()),
            PendingOperationEntry::SpaceDelete { space_id } => PendingOperationEntry::SpaceDelete { space_id: space_id.clone() },
            PendingOperationEntry::StateUpdate(m) => PendingOperationEntry::StateUpdate(m.clone()),
        }
    }
}

impl Clone for PendingOperation {
    fn clone(&self) -> (r: Self)
        ensures
            r@ == self@,
    {
        assert(clone_keeps_view::<PendingOperationEntry>());
        PendingOperation {
            operation_id: self.operation_id.clone(),
            kind: self.kind,
            created_at: self.created_at,
            entries: clone_vec(&self.entries),
        }
    }
}

impl Clone for AppState {
    fn clone(&self) -> (r: Self)
        ensures
            r@ == self@,
    {
        let pending = match &self.pending_operation {
            Some(op) => Some(op.clone()),
            None => None,
        };
        AppState {
            current_space_id: clone_opt_space_id(&self.current_space_id),
            current_view: self.current_view,
            current_sort: self.current_sort,
            tui_memory: self.tui_memory.clone(),
            pending_operation: pending,
        }
    }
}


// ---------------------------------------------------------------------------
// Behaviour

impl TaskStatus {
    /// Todo and in-progress tasks are open.
    pub fn is_open(self) -> (r: bool)
        ensures
            r == (self == TaskStatus::Todo || self == TaskStatus::InProgress),
    {
        matches!(self, TaskStatus::Todo | TaskStatus::InProgress)
    }

    /// Done and closed tasks are finished.
    pub fn is_finished(self) -> (r: bool)
        ensures
            r == (self == TaskStatus::Done || self == TaskStatus::Close),
    {
        matches!(self, TaskStatus::Done | TaskStatus::Close)
    }

    pub open spec fn finished(self) -> bool {
        self == TaskStatus::Done || self == TaskStatus::Close
    }
}

impl SpaceState {
    pub fn is_active(self) -> (r: bool)
        ensures
            r == (self == SpaceState::Active),
    {
        matches!(self, SpaceState::Active)
    }

    pub fn is_archived(self) -> (r: bool)
        ensures
            r == (self == SpaceState::Archived),
    {
        matches!(self, SpaceState::Archived)
    }
}

impl SpaceListMode {
    pub fn includes_archived(self) -> (r: bool)
        ensures
            r == (self == SpaceListMode::All),
    {
        matches!(self, SpaceListMode::All)
    }
}

impl PendingOperationKind {
    pub open spec fn name(self) -> Seq<char> {
        match self {
            PendingOperationKind::TaskArchive => "task_archive"@,
            PendingOperationKind::TaskRestore => "task_restore"@,
            PendingOperationKind::TaskPurge => "task_purge"@,
            PendingOperationKind::SpaceArchive => "space_archive"@,
            PendingOperationKind::SpaceRestore => "space_restore"@,
            PendingOperationKind::SpacePurge => "space_purge"@,
        }
    }

    /// The snake-case name of the operation kind.
    pub fn as_str(self) -> (r: &'static str)
        ensures
            r@ == self.name(),
    {
        match self {
            PendingOperationKind::TaskArchive => "task_archive",
            PendingOperationKind::TaskRestore => "task_restore",
            PendingOperationKind::TaskPurge => "task_purge",
            PendingOperationKind::SpaceArchive => "space_archive",
            PendingOperationKind::SpaceRestore => "space_restore",
            PendingOperationKind::SpacePurge => "space_purge",
        }
    }
}

impl Default for TaskStatus {
    fn default() -> (r: Self)
        ensures
            r == TaskStatus::Todo,
    {
        TaskStatus::Todo
    }
}

impl Default for SpaceState {
    fn default() -> (r: Self)
        ensures
            r == SpaceState::Active,
    {
        SpaceState::Active
    }
}

impl Default for ViewMode {
    fn default() -> (r: Self)
        ensures
            r == ViewMode::Todo,
    {
        ViewMode::Todo
    }
}

impl Default for SortMode {
    fn default() -> (r: Self)
        ensures
            r == SortMode::Updated,
    {
        SortMode::Updated
    }
}

impl Default for FocusArea {
    fn default() -> (r: Self)
        ensures
            r == FocusArea::TaskTree,
    {
        FocusArea::TaskTree
    }
}

impl Default for SpaceListMode {
    fn default() -> (r: Self)
        ensures
            r == SpaceListMode::Active,
    {
        SpaceListMode::Active
    }
}

impl Default for SpaceCounts {
    fn default() -> (r: Self)
        ensures
            r.todo_tasks == 0 && r.archived_tasks == 0,
    {
        SpaceCounts { todo_tasks: 0, archived_tasks: 0 }
    }
}

impl Default for AppConfig {
    fn default() -> (r: Self)
        ensures
            r.schema_version == APP_SCHEMA_VERSION,
            r.default_view == ViewMode::Todo,
            r.default_sort == SortMode::Updated,
    {
        AppConfig { schema_version: APP_SCHEMA_VERSION, default_view: ViewMode::Todo, default_sort: SortMode::Updated }
    }
}

impl Default for SpaceViewMemory {
    fn default() -> (r: Self)
        ensures
            r@ == (SpaceViewMemoryView {
                selected_task_id: None,
                expanded_task_ids: Seq::empty(),
                task_tree_scroll: 0,
                details_scroll: 0,
            }),
    {
        let r = SpaceViewMemory { selected_task_id: None, expanded_task_ids: Vec::new(), task_tree_scroll: 0, details_scroll: 0 };
        assert(views(r.expanded_task_ids@) =~= Seq::<Seq<char>>::empty());
        r
    }
}

impl Default for TuiMemory {
    fn default() -> (r: Self)
        ensures
            r@ == default_tui_memory(),
    {
        let r = TuiMemory {
            focus_area: FocusArea::TaskTree,
            spaces_cursor: 0,
            selected_space_id: None,
            space_list_mode: SpaceListMode::Active,
            task_filter: String::new(),
            spaces: Vec::new(),
        };
        assert(views(r.spaces@) =~= Seq::<SpaceMemoryEntryView>::empty());
        r
    }
}

pub open spec fn default_tui_memory() -> TuiMemoryView {
    TuiMemoryView {
        focus_area: FocusArea::TaskTree,
        spaces_cursor: 0,
        selected_space_id: None,
        space_list_mode: SpaceListMode::Active,
        task_filter: Seq::empty(),
        spaces: Seq::empty(),
    }
}

impl Default for StateMutation {
    fn default() -> (r: Self)
        ensures
            r@.current_space_id is None,
            r@.cleared_space_memory_ids.len() == 0,
    {
        StateMutation { current_space_id: None, cleared_space_memory_ids: Vec::new() }
    }
}

impl Default for AppState {
    fn default() -> (r: Self)
        ensures
            r@ == (AppStateView {
                current_space_id: None,
                current_view: ViewMode::Todo,
                current_sort: SortMode::Updated,
                tui_memory: default_tui_memory(),
                pending_operation: None,
            }),
    {
        AppState {
            current_space_id: None,
            current_view: ViewMode::Todo,
            current_sort: SortMode::Updated,
            tui_memory: TuiMemory::default(),
            pending_operation: None,
        }
    }
}

/// Whether a task shows in a view: live tasks in `Todo`, archived ones in
/// `Archive`, every task in `All`.
pub open spec fn visible_in_view(archived: bool, view: ViewMode) -> bool {
    match view {
        ViewMode::Todo => !archived,
        ViewMode::Archive => archived,
        ViewMode::All => true,
    }
}

impl Task {
    /// A new open task at the top level of `space_id`, stamped with the
    /// current time and a fresh id.
    pub fn new(title: &str, space_id: SpaceId, sort_order: i64) -> (r: Self)
        ensures
            is_long_id(r.id@, task_prefix()),
            r@.space_id == space_id@,
            r@.title == title@,
            r@.description is None,
            r@.status == TaskStatus::Todo,
            !r@.archived,
            r@.parent_id is None,
            r@.sort_order == sort_order,
            r@.logs.len() == 0,
            r@.created_at == r@.updated_at,
    {
        let now = now_utc();
        let r = Task {
            id: TaskId::new(),
            space_id,
            title: String::from_str(title),
            description: None,
            status: TaskStatus::Todo,
            archived: false,
            parent_id: None,
            sort_order,
            logs: Vec::new(),
            created_at: now,
            updated_at: now,
        };
        assert(views(r.logs@) =~= Seq::<TaskLogView>::empty());
        r
    }

    pub fn is_visible_in_view(&self, view: ViewMode) -> (r: bool)
        ensures
            r == visible_in_view(self.archived, view),
    {
        match view {
            ViewMode::Todo => !self.archived,
            ViewMode::Archive => self.archived,
            ViewMode::All => true,
        }
    }

    /// The storage folder of the task: `archive` when archived, else `todo`.
    pub fn storage_bucket(&self) -> (r: &'static str)
        ensures
            r@ == (if self.archived { "archive"@ } else { "todo"@ }),
    {
        if self.archived {
            "archive"
        } else {
            "todo"
        }
    }

    /// Marks the task as updated at `now`.
    pub fn touch(&mut self, now: Timestamp)
        ensures
            final(self)@ == (TaskView { updated_at: now, ..old(self)@ }),
    {
        self.updated_at = now;
    }
}

impl Space {
    /// A new active space named `name`, slugged from the name, stamped with
    /// the current time and a fresh id.
    pub fn new(name: &str, sort_order: i64) -> (r: Self)
        ensures
            is_long_id(r.id@, space_prefix()),
            r@.name == name@,
            r@.slug == slugify_spec(name@),
            r@.state == SpaceState::Active,
            r@.sort_order == sort_order,
            r@.counts == (SpaceCounts { todo_tasks: 0, archived_tasks: 0 }),
            r@.created_at == r@.updated_at,
    {
        let now = now_utc();
        Space {
            id: SpaceId::new(),
            slug: slugify(name),
            name: String::from_str(name),
            state: SpaceState::Active,
            sort_order,
            counts: SpaceCounts { todo_tasks: 0, archived_tasks: 0 },
            created_at: now,
            updated_at: now,
        }
    }

    /// Renames the space at `now`; the slug is kept.
    pub fn rename(&mut self, name: String, now: Timestamp)
        ensures
            final(self)@ == (SpaceView { name: name@, updated_at: now, ..old(self)@ }),
    {
        self.name = name;
        self.updated_at = now;
    }
}

// ---------------------------------------------------------------------------
// Slugs

/// The scan of `s` that builds a slug: alphanumerics are kept in lower case
/// and each run of other characters after the first kept one becomes one `_`.
/// The flag tells whether the last character written is such a separator.
pub open spec fn slug_scan(s: Seq<char>) -> (Seq<char>, bool)
    decreases s.len(),
{
    if s.len() == 0 {
        (Seq::empty(), false)
    } else {
        let (acc, sep) = slug_scan(s.drop_last());
        let c = s.last();
        if is_ascii_alphanumeric(c) {
            (acc.push(ascii_lower(c)), false)
        } else if !sep && acc.len() > 0 {
            (acc.push('_'), true)
        } else {
            (acc, sep)
        }
    }
}

/// `s` without its trailing underscores.
pub open spec fn strip_trailing_underscores(s: Seq<char>) -> Seq<char>
    decreases s.len(),
{
    if s.len() > 0 && s.last() == '_' {
        strip_trailing_underscores(s.drop_last())
    } else {
        s
    }
}

/// The slug of a name; `space` when the name holds no ASCII alphanumeric.
/// White space at either end of the name never reaches the slug, as it is
/// not alphanumeric and trailing separators are stripped.
pub open spec fn slugify_spec(s: Seq<char>) -> Seq<char> {
    let core = strip_trailing_underscores(slug_scan(s).0);
    if core.len() == 0 {
        "space"@
    } else {
        core
    }
}

proof fn lemma_slug_scan_flag(s: Seq<char>)
    ensures
        slug_scan(s).1 ==> slug_scan(s).0.len() > 0 && slug_scan(s).0.last() == '_',
    decreases s.len(),
{
    if s.len() > 0 {
        lemma_slug_scan_flag(s.drop_last());
    }
}

/// Turns a name into a slug of lower-case ASCII letters, digits and single
/// underscores, or `space` when nothing alphanumeric is left.
pub fn slugify(value: &str) -> (r: String)
    ensures
        r@ == slugify_spec(value@),
        r@ == slug_of_words(value@),
{
    let n = value.unicode_len();
    let mut slug = String::new();
    let mut previous_was_separator = false;
    let mut i: usize = 0;
    assert(value@.subrange(0, 0) =~= Seq::<char>::empty());
    while i < n
        invariant
            n == value@.len(),
            i <= n,
            (slug@, previous_was_separator) == slug_scan(value@.subrange(0, i as int)),
        decreases n - i,
    {
        let ch = value.get_char(i);
        proof {
            assert(value@.subrange(0, i + 1).drop_last() =~= value@.subrange(0, i as int));
        }
        if char_is_ascii_alphanumeric(ch) {
            string_push(&mut slug, char_to_ascii_lowercase(ch));
            previous_was_separator = false;
        } else if !previous_was_separator && slug.unicode_len() > 0 {
            string_push(&mut slug, '_');
            previous_was_separator = true;
        }
        i = i + 1;
    }
    assert(value@.subrange(0, n as int) =~= value@);
    let mut chars: Vec<char> = Vec::new();
    let m = slug.unicode_len();
    let mut j: usize = 0;
    while j < m
        invariant
            m == slug@.len(),
            j <= m,
            chars@ =~= slug@.subrange(0, j as int),
        decreases m - j,
    {
        chars.push(slug.get_char(j));
        j = j + 1;
    }
    let mut end = m;
    while end > 0 && chars[end - 1] == '_'
        invariant
            end <= m,
            m == chars@.len(),
            chars@ == slug@,
            strip_trailing_underscores(slug@) == strip_trailing_underscores(slug@.subrange(0, end as int)),
        decreases end,
    {
        assert(slug@.subrange(0, end - 1) =~= slug@.subrange(0, end as int).drop_last());
        end = end - 1;
    }
    assert(slug@.subrange(0, end as int) == strip_trailing_underscores(slug@.subrange(0, end as int)));
    proof {
        law_slug_is_joined_words(value@);
    }
    if end == 0 {
        return String::from_str("space");
    }
    let out = slug.as_str().substring_char(0, end);
    String::from_str(out)
}


/// A lower-case ASCII letter or digit, or `_`.
pub open spec fn is_slug_char(c: char) -> bool {
    ('0' <= c && c <= '9') || ('a' <= c && c <= 'z') || c == '_'
}

/// Non-empty, made of slug characters, with no `_` at either end and no two
/// `_` in a row.
pub open spec fn is_clean_slug(s: Seq<char>) -> bool {
    &&& s.len() > 0
    &&& forall|i: int| 0 <= i < s.len() ==> #[trigger] is_slug_char(s[i])
    &&& s[0] != '_'
    &&& s.last() != '_'
    &&& forall|i: int| 0 <= i < s.len() - 1 ==> !(#[trigger] s[i] == '_' && s[i + 1] == '_')
}

proof fn lemma_slug_scan_shape(s: Seq<char>)
    ensures
        ({
            let (acc, sep) = slug_scan(s);
            &&& forall|i: int| 0 <= i < acc.len() ==> #[trigger] is_slug_char(acc[i])
            &&& acc.len() > 0 ==> acc[0] != '_'
            &&& forall|i: int| 0 <= i < acc.len() - 1 ==> !(#[trigger] acc[i] == '_' && acc[i + 1] == '_')
            &&& sep == (acc.len() > 0 && acc.last() == '_')
        }),
    decreases s.len(),
{
    if s.len() > 0 {
        lemma_slug_scan_shape(s.drop_last());
        let (acc0, sep0) = slug_scan(s.drop_last());
        let (acc, sep) = slug_scan(s);
        let c = s.last();
        if is_ascii_alphanumeric(c) {
            assert(acc == acc0.push(ascii_lower(c)));
            assert(is_slug_char(ascii_lower(c)));
            assert forall|i: int| 0 <= i < acc.len() - 1 implies !(#[trigger] acc[i] == '_' && acc[i + 1] == '_') by {
                if i < acc0.len() - 1 {
                    assert(acc[i] == acc0[i] && acc[i + 1] == acc0[i + 1]);
                }
            }
        } else if !sep0 && acc0.len() > 0 {
            assert(acc == acc0.push('_'));
            assert forall|i: int| 0 <= i < acc.len() - 1 implies !(#[trigger] acc[i] == '_' && acc[i + 1] == '_') by {
                if i < acc0.len() - 1 {
                    assert(acc[i] == acc0[i] && acc[i + 1] == acc0[i + 1]);
                }
            }
        }
    }
}

proof fn lemma_strip_is_prefix(s: Seq<char>) -> (k: int)
    ensures
        0 <= k <= s.len(),
        strip_trailing_underscores(s) == s.subrange(0, k),
        k > 0 ==> s[k - 1] != '_',
    decreases s.len(),
{
    if s.len() > 0 && s.last() == '_' {
        let k = lemma_strip_is_prefix(s.drop_last());
        assert(s.drop_last().subrange(0, k) =~= s.subrange(0, k));
        k
    } else {
        assert(s.subrange(0, s.len() as int) =~= s);
        s.len() as int
    }
}

proof fn lemma_clean_scan(s: Seq<char>, k: int)
    requires
        is_clean_slug(s),
        0 <= k <= s.len(),
    ensures
        slug_scan(s.subrange(0, k)) == (s.subrange(0, k), k > 0 && s[k - 1] == '_'),
    decreases k,
{
    let t = s.subrange(0, k);
    if k > 0 {
        lemma_clean_scan(s, k - 1);
        assert(t.drop_last() =~= s.subrange(0, k - 1));
        let c = s[k - 1];
        assert(is_slug_char(c));
        if c == '_' {
            assert(k - 1 > 0);
            assert(!(s[k - 2] == '_' && s[k - 1] == '_'));
            assert(s.subrange(0, k - 1).push('_') =~= t);
        } else {
            assert(s.subrange(0, k - 1).push(c) =~= t);
        }
    } else {
        assert(t =~= Seq::<char>::empty());
    }
}

/// Law: every slug is non-empty lower-case ASCII letters and digits joined
/// by single underscores.
pub proof fn law_slugify_is_clean(value: Seq<char>)
    ensures
        is_clean_slug(slugify_spec(value)),
{
    lemma_slug_scan_shape(value);
    let acc = slug_scan(value).0;
    let k = lemma_strip_is_prefix(acc);
    let core = strip_trailing_underscores(acc);
    if core.len() == 0 {
        reveal_strlit("space");
    } else {
        assert forall|i: int| 0 <= i < core.len() - 1 implies !(#[trigger] core[i] == '_' && core[i + 1] == '_') by {
            assert(core[i] == acc[i] && core[i + 1] == acc[i + 1]);
        }
        assert forall|i: int| 0 <= i < core.len() implies #[trigger] is_slug_char(core[i]) by {
            assert(core[i] == acc[i]);
        }
    }
}

/// The runs of ASCII letters and digits of `s`, in order, each in lower
/// case.
pub open spec fn slug_words(s: Seq<char>) -> Seq<Seq<char>>
    decreases s.len(),
{
    if s.len() == 0 {
        Seq::empty()
    } else {
        let w = slug_words(s.drop_last());
        let c = s.last();
        if !is_ascii_alphanumeric(c) {
            w
        } else if s.len() > 1 && is_ascii_alphanumeric(s[s.len() - 2]) {
            w.update(w.len() - 1, w.last().push(ascii_lower(c)))
        } else {
            w.push(seq![ascii_lower(c)])
        }
    }
}

/// The words joined by single underscores.
pub open spec fn joined_words(w: Seq<Seq<char>>) -> Seq<char>
    decreases w.len(),
{
    if w.len() == 0 {
        Seq::empty()
    } else if w.len() == 1 {
        w[0]
    } else {
        joined_words(w.drop_last()) + seq!['_'] + w.last()
    }
}

proof fn lemma_joined_extend(w: Seq<Seq<char>>, x: char)
    requires
        w.len() > 0,
    ensures
        joined_words(w.update(w.len() - 1, w.last().push(x))) == joined_words(w).push(x),
{
    let u = w.update(w.len() - 1, w.last().push(x));
    if w.len() > 1 {
        assert(u.drop_last() =~= w.drop_last());
        assert(joined_words(u) =~= joined_words(w).push(x));
    }
}

proof fn lemma_joined_push(w: Seq<Seq<char>>, x: Seq<char>)
    requires
        w.len() > 0,
    ensures
        joined_words(w.push(x)) == joined_words(w) + seq!['_'] + x,
{
    assert(w.push(x).drop_last() =~= w);
}

proof fn lemma_scan_words(s: Seq<char>)
    ensures
        ({
            let (acc, sep) = slug_scan(s);
            let w = slug_words(s);
            &&& w.len() == 0 ==> acc.len() == 0 && !sep
            &&& w.len() > 0 ==> joined_words(w).len() > 0
            &&& w.len() > 0 && sep ==> acc == joined_words(w) + seq!['_'] && !is_ascii_alphanumeric(s.last())
            &&& w.len() > 0 && !sep ==> acc == joined_words(w) && is_ascii_alphanumeric(s.last())
            &&& s.len() > 0 && is_ascii_alphanumeric(s.last()) ==> w.len() > 0
        }),
    decreases s.len(),
{
    if s.len() > 0 {
        let t = s.drop_last();
        lemma_scan_words(t);
        let c = s.last();
        let (acc0, sep0) = slug_scan(t);
        let w0 = slug_words(t);
        if is_ascii_alphanumeric(c) {
            if s.len() > 1 && is_ascii_alphanumeric(s[s.len() - 2]) {
                assert(t.last() == s[s.len() - 2]);
                lemma_joined_extend(w0, ascii_lower(c));
            } else if w0.len() > 0 {
                assert(t.len() > 0 && t.last() == s[s.len() - 2]);
                lemma_joined_push(w0, seq![ascii_lower(c)]);
            } else {
                assert(Seq::<Seq<char>>::empty().push(seq![ascii_lower(c)])[0] == seq![ascii_lower(c)]);
                assert(acc0.push(ascii_lower(c)) =~= seq![ascii_lower(c)]);
            }
        }
    }
}

/// `x` with a final `_` stripped of its trailing underscores.
proof fn lemma_strip_push(x: Seq<char>)
    ensures
        strip_trailing_underscores(x.push('_')) == strip_trailing_underscores(x),
{
    assert(x.push('_').drop_last() =~= x);
}

/// The slug stated directly: the runs of ASCII letters and digits of the
/// name, in lower case, joined by single underscores; `space` when there
/// are none.
pub open spec fn slug_of_words(s: Seq<char>) -> Seq<char> {
    let w = slug_words(s);
    if w.len() == 0 {
        "space"@
    } else {
        joined_words(w)
    }
}

/// Law: the slug of a name is its runs of ASCII letters and digits, in
/// lower case, joined by single underscores (`space` when it has none).
pub proof fn law_slug_is_joined_words(value: Seq<char>)
    ensures
        slugify_spec(value) == slug_of_words(value),
{
    lemma_scan_words(value);
    lemma_slug_scan_shape(value);
    let (acc, sep) = slug_scan(value);
    let w = slug_words(value);
    if w.len() > 0 {
        let j = joined_words(w);
        if sep {
            assert(acc.len() >= 2) by {
                if acc.len() < 2 {
                    assert(acc[0] == '_');
                }
            }
            assert(acc[acc.len() - 2] == j.last());
            assert(acc.drop_last() =~= j);
            assert(acc =~= j.push('_'));
            lemma_strip_push(j);
        }
        assert(j.last() != '_') by {
            if sep {
                assert(acc[acc.len() - 1] == '_');
                assert(!(acc[acc.len() - 2] == '_' && acc[acc.len() - 1] == '_'));
            }
        }
        assert(strip_trailing_underscores(j) == j);
    }
}

/// Law: slugging a slug gives it back.
pub proof fn law_slugify_idempotent(value: Seq<char>)
    ensures
        slugify_spec(slugify_spec(value)) == slugify_spec(value),
{
    let s = slugify_spec(value);
    law_slugify_is_clean(value);
    lemma_clean_scan(s, s.len() as int);
    assert(s.subrange(0, s.len() as int) =~= s);
    assert(strip_trailing_underscores(s) == s);
}

} // verus!
