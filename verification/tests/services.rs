use oh_my_todo::app_state_service::AppStateService;
use oh_my_todo::commands::{
    AddTaskLogCommand, ArchiveSpaceCommand, ArchiveTaskCommand, CreateSpaceCommand, CreateTaskCommand, EditTaskCommand,
    MoveTaskCommand, MoveTaskDirection, PurgeSpaceCommand, PurgeTaskCommand, RenameSpaceCommand, RestoreSpaceCommand,
    RestoreTaskCommand, SetCurrentSpaceCommand, UpdateTaskStatusCommand,
};
use oh_my_todo::error::AppError;
use oh_my_todo::ids::TaskId;
use oh_my_todo::maintenance::MaintenanceService;
use oh_my_todo::model::{
    AppConfig, AppState, PendingOperation, PendingOperationEntry, PendingOperationKind, SortMode, Space, SpaceListMode,
    SpaceState, Task, TaskStatus, ViewMode,
};
use oh_my_todo::queries::{DoctorIssue, ListSpacesQuery, ListTasksQuery, ShowSpaceQuery, ShowTaskQuery};
use oh_my_todo::repository::{Repository, StorageWrite, StoredTaskRecord, TaskBucket};
use oh_my_todo::space_service::SpaceService;
use oh_my_todo::task_service::TaskService;
use oh_my_todo::clock::Timestamp;

fn empty_repo() -> Repository {
    Repository::new(AppConfig::default(), AppState::default())
}

fn space(repo: &mut Repository, name: &str) -> Space {
    SpaceService::new().create_space(repo, CreateSpaceCommand { name: name.to_owned() }).unwrap()
}

fn use_space(repo: &mut Repository, reference: &str) {
    SpaceService::new().use_space(repo, SetCurrentSpaceCommand { space_ref: reference.to_owned() }).unwrap();
}

fn task(repo: &mut Repository, title: &str, space_ref: Option<&str>, parent: Option<&str>) -> Task {
    TaskService::new()
        .create_task(
            repo,
            CreateTaskCommand {
                title: title.to_owned(),
                space_ref: space_ref.map(|s| s.to_owned()),
                description: None,
                parent_ref: parent.map(|s| s.to_owned()),
                status: TaskStatus::Todo,
            },
        )
        .unwrap()
}

fn edit(task_ref: &str) -> EditTaskCommand {
    EditTaskCommand {
        task_ref: task_ref.to_owned(),
        title: None,
        description: None,
        clear_description: false,
        status: None,
        parent_ref: None,
        clear_parent: false,
        space_ref: None,
    }
}

fn load(repo: &Repository, id: &TaskId) -> Task {
    TaskService::new().load_task(repo, id).unwrap()
}

#[test]
fn rename_space_keeps_slug_and_use_space_updates_state() {
    let mut repo = empty_repo();
    let space = space(&mut repo, "Personal Workspace");
    let original_slug = space.slug.clone();

    let renamed = SpaceService::new()
        .rename_space(&mut repo, RenameSpaceCommand { space_ref: space.slug.clone(), new_name: "Personal Focus".to_owned() })
        .unwrap();
    let current = SpaceService::new()
        .use_space(&mut repo, SetCurrentSpaceCommand { space_ref: renamed.id.short_id() })
        .unwrap();
    let state = SpaceService::new().load_app_state(&repo).unwrap();

    assert_eq!(renamed.slug, original_slug);
    assert_eq!(current.id.as_str(), renamed.id.as_str());
    assert_eq!(state.current_space_id.unwrap().as_str(), renamed.id.as_str());
}

#[test]
fn edit_task_rejects_cycles_and_cross_space_parent_mismatch() {
    let mut repo = empty_repo();
    let personal = space(&mut repo, "Personal");
    let work = space(&mut repo, "Work");

    let parent = task(&mut repo, "Parent", Some(&personal.slug), None);
    let child = task(&mut repo, "Child", None, Some(&parent.id.short_id()));

    let mut cycle = edit(parent.id.as_str());
    cycle.parent_ref = Some(child.id.as_str().to_owned());
    let cycle_error = TaskService::new().edit_task(&mut repo, cycle).unwrap_err();
    assert!(matches!(cycle_error, AppError::TaskParentCycle { .. }));

    let mut moved = edit(child.id.as_str());
    moved.space_ref = Some(work.slug.clone());
    let move_error = TaskService::new().edit_task(&mut repo, moved).unwrap_err();
    assert!(matches!(move_error, AppError::CrossSpaceParentMismatch { .. } | AppError::ParentSpaceMismatch { .. }));
}

#[test]
fn restore_applies_status_to_whole_subtree_and_blocks_archived_child_restore() {
    let mut repo = empty_repo();
    let personal = space(&mut repo, "Personal");
    use_space(&mut repo, &personal.slug);
    let parent = task(&mut repo, "Parent", None, None);
    let child = task(&mut repo, "Child", None, Some(parent.id.as_str()));

    TaskService::new().archive_task(&mut repo, ArchiveTaskCommand { task_ref: parent.id.as_str().to_owned() }).unwrap();

    let error = TaskService::new()
        .restore_task(&mut repo, RestoreTaskCommand { task_ref: child.id.as_str().to_owned(), status: TaskStatus::Todo })
        .unwrap_err();
    assert!(matches!(error, AppError::TaskRestoreBlockedByArchivedAncestor { .. }));

    TaskService::new()
        .restore_task(&mut repo, RestoreTaskCommand { task_ref: parent.id.as_str().to_owned(), status: TaskStatus::InProgress })
        .unwrap();

    let reloaded_parent = load(&repo, &parent.id);
    let reloaded_child = load(&repo, &child.id);
    assert_eq!(reloaded_parent.status, TaskStatus::InProgress);
    assert_eq!(reloaded_child.status, TaskStatus::InProgress);
    assert!(!reloaded_parent.archived);
    assert!(!reloaded_child.archived);
}

#[test]
fn space_archive_switches_current_space_and_bootstrap_recovers_pending_operation() {
    let mut repo = empty_repo();
    let personal = space(&mut repo, "Personal");
    let work = space(&mut repo, "Work");
    use_space(&mut repo, &personal.slug);

    let outcome = SpaceService::new()
        .archive_space(&mut repo, ArchiveSpaceCommand { space_ref: personal.slug.clone() })
        .unwrap();
    let state = SpaceService::new().load_app_state(&repo).unwrap();
    let archived_space = outcome.root_space.unwrap();
    assert_eq!(archived_space.state, SpaceState::Archived);
    assert_eq!(state.current_space_id.unwrap().as_str(), work.id.as_str());

    let mut pending_task = Task::new("Run 5km", work.id.clone(), 0);
    repo.save_task(&pending_task);
    pending_task.archived = true;
    pending_task.touch(Timestamp { unix_nanos: 1 });
    let mut app_state = repo.load_state();
    app_state.pending_operation = Some(PendingOperation {
        operation_id: "op_test".to_owned(),
        kind: PendingOperationKind::TaskArchive,
        created_at: Timestamp { unix_nanos: 1 },
        entries: vec![PendingOperationEntry::TaskUpsert(pending_task.clone())],
    });
    repo.save_state(&app_state);

    let recovered = MaintenanceService::new().recover_pending_operation(&mut repo).unwrap();
    assert_eq!(recovered, Some(PendingOperationKind::TaskArchive));
    let recovered_task = load(&repo, &pending_task.id);
    assert!(recovered_task.archived);
    let in_archive = repo
        .list_task_records_in_space(&work.id)
        .iter()
        .any(|r| r.task.id.as_str() == pending_task.id.as_str() && r.bucket == TaskBucket::Archive);
    assert!(in_archive);
    assert!(repo.load_state().pending_operation.is_none());
    assert!(MaintenanceService::new().recover_pending_operation(&mut repo).unwrap().is_none());
}

#[test]
fn doctor_reports_missing_parent_and_bucket_status_mismatch() {
    let mut repo = empty_repo();
    let space = space(&mut repo, "Personal");

    let mut orphan = Task::new("Orphan", space.id.clone(), 0);
    orphan.parent_id = Some(TaskId::new());
    repo.save_task(&orphan);

    let mut mismatched = Task::new("Mismatched", space.id.clone(), 1);
    mismatched.archived = true;
    repo.add_stored_record(StoredTaskRecord { task: mismatched, bucket: TaskBucket::Todo });

    let report = MaintenanceService::new().doctor(&repo).unwrap();
    assert!(report.issues.iter().any(|issue| matches!(issue, DoctorIssue::MissingParent { .. })));
    assert!(report.issues.iter().any(|issue| matches!(issue, DoctorIssue::BucketStatusMismatch { .. })));
}

#[test]
fn move_task_reorders_manual_siblings_and_reports_boundaries() {
    let mut repo = empty_repo();
    let personal = space(&mut repo, "Personal");
    use_space(&mut repo, personal.id.as_str());
    let first = task(&mut repo, "First", None, None);
    let _second = task(&mut repo, "Second", None, None);
    let third = task(&mut repo, "Third", None, None);

    TaskService::new()
        .move_task(&mut repo, MoveTaskCommand { task_ref: third.id.as_str().to_owned(), direction: MoveTaskDirection::Up })
        .unwrap();

    let listed = TaskService::new()
        .list_tasks(
            &repo,
            ListTasksQuery {
                space_ref: Some(personal.id.as_str().to_owned()),
                view: Some(ViewMode::All),
                sort: Some(SortMode::Manual),
                allow_archived_space: false,
            },
        )
        .unwrap();
    let titles = listed.entries.into_iter().map(|entry| entry.task.title).collect::<Vec<_>>();
    assert_eq!(titles, vec!["First", "Third", "Second"]);

    let error = TaskService::new()
        .move_task(&mut repo, MoveTaskCommand { task_ref: first.id.as_str().to_owned(), direction: MoveTaskDirection::Up })
        .unwrap_err();
    assert!(matches!(error, AppError::TaskReorderBoundary { direction: "up", .. }));
}

#[test]
fn archived_space_queries_and_tui_state_preferences_round_trip() {
    let mut repo = empty_repo();
    let active = space(&mut repo, "Active");
    let archived = space(&mut repo, "Someday");
    use_space(&mut repo, archived.id.as_str());
    TaskService::new()
        .create_task(
            &mut repo,
            CreateTaskCommand {
                title: "Review later".to_owned(),
                space_ref: None,
                description: Some("keep for archive browsing".to_owned()),
                parent_ref: None,
                status: TaskStatus::Todo,
            },
        )
        .unwrap();
    use_space(&mut repo, active.id.as_str());
    SpaceService::new().archive_space(&mut repo, ArchiveSpaceCommand { space_ref: archived.id.as_str().to_owned() }).unwrap();

    let query = |allow: bool| ListTasksQuery {
        space_ref: Some(archived.id.as_str().to_owned()),
        view: Some(ViewMode::All),
        sort: Some(SortMode::Manual),
        allow_archived_space: allow,
    };
    let report = TaskService::new().list_tasks(&repo, query(true)).unwrap();
    assert_eq!(report.entries.len(), 1);
    assert_eq!(report.entries[0].task.title, "Review later");

    let archived_error = TaskService::new().list_tasks(&repo, query(false)).unwrap_err();
    assert!(matches!(archived_error, AppError::ArchivedSpace(_)));

    let archived_id = archived.id.clone();
    AppStateService::new()
        .update(&mut repo, move |mut state: AppState| {
            state.tui_memory.selected_space_id = Some(archived_id);
            state.tui_memory.space_list_mode = SpaceListMode::All;
            state.tui_memory.task_filter = "review".to_owned();
            state
        })
        .unwrap();

    let reloaded = AppStateService::new().load(&repo).unwrap();
    assert_eq!(reloaded.current_space_id.unwrap().as_str(), active.id.as_str());
    assert_eq!(reloaded.tui_memory.selected_space_id.unwrap().as_str(), archived.id.as_str());
    assert_eq!(reloaded.tui_memory.space_list_mode, SpaceListMode::All);
    assert_eq!(reloaded.tui_memory.task_filter, "review");
}

#[test]
fn create_task_requires_a_current_space() {
    let mut repo = empty_repo();
    space(&mut repo, "Personal");
    let error = TaskService::new()
        .create_task(
            &mut repo,
            CreateTaskCommand { title: "Run 5km".to_owned(), space_ref: None, description: None, parent_ref: None, status: TaskStatus::Todo },
        )
        .unwrap_err();
    assert!(matches!(error, AppError::MissingCurrentSpace));
    assert_eq!(error.exit_code(), 5);
    assert!(error.hint().unwrap().contains("todo space add <NAME>"));
    let blank = TaskService::new()
        .create_task(
            &mut repo,
            CreateTaskCommand { title: "  ".to_owned(), space_ref: None, description: None, parent_ref: None, status: TaskStatus::Todo },
        )
        .unwrap_err();
    assert!(matches!(blank, AppError::Validation(_)));
    assert_eq!(blank.exit_code(), 1);
}

#[test]
fn tasks_are_placed_last_among_their_siblings() {
    let mut repo = empty_repo();
    let personal = space(&mut repo, "Personal");
    use_space(&mut repo, &personal.slug);
    let a = task(&mut repo, "A", None, None);
    let b = task(&mut repo, "B", None, None);
    let c = task(&mut repo, "C", None, Some(a.id.as_str()));
    let d = task(&mut repo, "D", None, Some(a.id.as_str()));
    assert_eq!(a.sort_order, 0);
    assert_eq!(b.sort_order, 1);
    assert_eq!(c.sort_order, 0);
    assert_eq!(d.sort_order, 1);
    assert_eq!(c.parent_id.as_ref().unwrap().as_str(), a.id.as_str());
    assert_eq!(c.space_id.as_str(), personal.id.as_str());
}

#[test]
fn finishing_a_task_archives_it_unless_subtasks_are_open() {
    let mut repo = empty_repo();
    let personal = space(&mut repo, "Personal");
    use_space(&mut repo, &personal.slug);
    let parent = task(&mut repo, "Parent", None, None);
    let child = task(&mut repo, "Child", None, Some(parent.id.as_str()));

    let error = TaskService::new()
        .set_task_status(&mut repo, UpdateTaskStatusCommand { task_ref: parent.id.as_str().to_owned(), status: TaskStatus::Done })
        .unwrap_err();
    assert!(matches!(error, AppError::OpenSubtasks { open_count: 1, .. }));
    assert!(!load(&repo, &parent.id).archived);

    let done_child = TaskService::new()
        .set_task_status(&mut repo, UpdateTaskStatusCommand { task_ref: child.id.as_str().to_owned(), status: TaskStatus::Close })
        .unwrap();
    assert!(done_child.archived);
    let done_parent = TaskService::new()
        .set_task_status(&mut repo, UpdateTaskStatusCommand { task_ref: parent.id.as_str().to_owned(), status: TaskStatus::Done })
        .unwrap();
    assert!(done_parent.archived);
    assert_eq!(done_parent.status, TaskStatus::Done);

    let reopened = TaskService::new()
        .set_task_status(&mut repo, UpdateTaskStatusCommand { task_ref: parent.id.as_str().to_owned(), status: TaskStatus::InProgress })
        .unwrap();
    assert!(!reopened.archived);
}

#[test]
fn logs_are_shown_newest_first_with_children_in_manual_order() {
    let mut repo = empty_repo();
    let personal = space(&mut repo, "Personal");
    use_space(&mut repo, &personal.slug);
    let parent = task(&mut repo, "Parent", None, None);
    let _c1 = task(&mut repo, "One", None, Some(parent.id.as_str()));
    let _c2 = task(&mut repo, "Two", None, Some(parent.id.as_str()));
    let svc = TaskService::new();
    svc.add_task_log(&mut repo, AddTaskLogCommand { task_ref: parent.id.as_str().to_owned(), message: "first".to_owned() }).unwrap();
    let logged = svc.add_task_log(&mut repo, AddTaskLogCommand { task_ref: parent.id.as_str().to_owned(), message: "second".to_owned() }).unwrap();
    assert_eq!(logged.logs.len(), 2);
    assert_eq!(logged.logs[1].message, "second");
    let details = svc.show_task(&repo, ShowTaskQuery { task_ref: parent.id.as_str().to_owned() }).unwrap();
    assert_eq!(details.children.iter().map(|c| c.title.as_str()).collect::<Vec<_>>(), vec!["One", "Two"]);
    assert!(details.logs[0].at.unix_nanos >= details.logs[1].at.unix_nanos);
    assert!(details.parent.is_none());
    assert_eq!(details.space.id.as_str(), personal.id.as_str());
}

#[test]
fn edit_moves_subtree_to_another_space_and_places_it_last() {
    let mut repo = empty_repo();
    let personal = space(&mut repo, "Personal");
    let work = space(&mut repo, "Work");
    let existing = task(&mut repo, "Existing", Some(&work.slug), None);
    let parent = task(&mut repo, "Parent", Some(&personal.slug), None);
    let child = task(&mut repo, "Child", None, Some(parent.id.as_str()));

    let mut cmd = edit(parent.id.as_str());
    cmd.space_ref = Some(work.slug.clone());
    cmd.title = Some("Moved".to_owned());
    let edited = TaskService::new().edit_task(&mut repo, cmd).unwrap();
    assert_eq!(edited.title, "Moved");
    assert_eq!(edited.space_id.as_str(), work.id.as_str());
    assert_eq!(edited.sort_order, existing.sort_order + 1);
    assert_eq!(load(&repo, &child.id).space_id.as_str(), work.id.as_str());

    let nothing = TaskService::new().edit_task(&mut repo, edit(parent.id.as_str())).unwrap_err();
    assert!(matches!(nothing, AppError::NoTaskChanges));

    let mut clear = edit(child.id.as_str());
    clear.clear_parent = true;
    let cleared = TaskService::new().edit_task(&mut repo, clear).unwrap();
    assert!(cleared.parent_id.is_none());
}

#[test]
fn purge_requires_archived_subtree_and_recursive_flag() {
    let mut repo = empty_repo();
    let personal = space(&mut repo, "Personal");
    use_space(&mut repo, &personal.slug);
    let parent = task(&mut repo, "Parent", None, None);
    let child = task(&mut repo, "Child", None, Some(parent.id.as_str()));
    let svc = TaskService::new();

    let not_archived = svc.purge_task(&mut repo, PurgeTaskCommand { task_ref: parent.id.as_str().to_owned(), recursive: true }).unwrap_err();
    assert!(matches!(not_archived, AppError::TaskMustBeArchived { action: "purge", .. }));

    svc.archive_task(&mut repo, ArchiveTaskCommand { task_ref: parent.id.as_str().to_owned() }).unwrap();
    let not_recursive = svc.purge_task(&mut repo, PurgeTaskCommand { task_ref: parent.id.as_str().to_owned(), recursive: false }).unwrap_err();
    assert!(matches!(not_recursive, AppError::TaskPurgeRequiresRecursive { child_count: 1, .. }));

    svc.set_task_status(&mut repo, UpdateTaskStatusCommand { task_ref: child.id.as_str().to_owned(), status: TaskStatus::Todo }).unwrap();
    let offender = svc.purge_task(&mut repo, PurgeTaskCommand { task_ref: parent.id.as_str().to_owned(), recursive: true }).unwrap_err();
    assert!(matches!(offender, AppError::TaskPurgeRequiresArchivedSubtree { .. }));

    svc.archive_task(&mut repo, ArchiveTaskCommand { task_ref: child.id.as_str().to_owned() }).unwrap();
    let outcome = svc.purge_task(&mut repo, PurgeTaskCommand { task_ref: parent.id.as_str().to_owned(), recursive: true }).unwrap();
    assert_eq!(outcome.affected_count, 2);
    assert!(svc.list_all_tasks(&repo).unwrap().is_empty());
}

#[test]
fn space_lifecycle_restore_and_purge() {
    let mut repo = empty_repo();
    let personal = space(&mut repo, "Personal");
    let work = space(&mut repo, "Work");
    use_space(&mut repo, &work.slug);
    task(&mut repo, "Run", None, None);
    let svc = SpaceService::new();

    let not_archived = svc.purge_space(&mut repo, PurgeSpaceCommand { space_ref: work.slug.clone() }).unwrap_err();
    assert!(matches!(not_archived, AppError::SpaceMustBeArchived { action: "purge", .. }));

    svc.archive_space(&mut repo, ArchiveSpaceCommand { space_ref: work.slug.clone() }).unwrap();
    assert_eq!(svc.load_app_state(&repo).unwrap().current_space_id.unwrap().as_str(), personal.id.as_str());
    let again = svc.archive_space(&mut repo, ArchiveSpaceCommand { space_ref: work.slug.clone() }).unwrap_err();
    assert!(matches!(again, AppError::ArchivedSpace(_)));

    let listed = svc.list_spaces(&repo, ListSpacesQuery { include_archived: false }).unwrap();
    assert_eq!(listed.len(), 1);
    assert!(listed[0].is_current);
    let all = svc.list_spaces(&repo, ListSpacesQuery { include_archived: true }).unwrap();
    assert_eq!(all.len(), 2);
    assert_eq!(all[1].counts.todo_tasks, 1);

    let restored = svc.restore_space(&mut repo, RestoreSpaceCommand { space_ref: work.slug.clone() }).unwrap();
    assert_eq!(restored.root_space.unwrap().state, SpaceState::Active);
    svc.archive_space(&mut repo, ArchiveSpaceCommand { space_ref: work.slug.clone() }).unwrap();
    svc.purge_space(&mut repo, PurgeSpaceCommand { space_ref: work.slug.clone() }).unwrap();
    assert_eq!(svc.list_spaces(&repo, ListSpacesQuery { include_archived: true }).unwrap().len(), 1);
    assert!(TaskService::new().list_all_tasks(&repo).unwrap().is_empty());
    let details = svc.show_space(&repo, ShowSpaceQuery { space_ref: personal.slug.clone() }).unwrap();
    assert!(details.is_current);
}

#[test]
fn new_spaces_get_free_slugs_and_follow_the_others() {
    let mut repo = empty_repo();
    let a = space(&mut repo, "Home Office");
    let b = space(&mut repo, "home office!");
    let c = space(&mut repo, "HOME   OFFICE");
    let d = space(&mut repo, "???");
    assert_eq!(a.slug, "home_office");
    assert_eq!(b.slug, "home_office_2");
    assert_eq!(c.slug, "home_office_3");
    assert_eq!(d.slug, "space");
    assert_eq!((a.sort_order, b.sort_order, c.sort_order), (0, 1, 2));
    let blank = SpaceService::new().create_space(&mut repo, CreateSpaceCommand { name: " ".to_owned() }).unwrap_err();
    assert!(matches!(blank, AppError::Validation(_)));
}

#[test]
fn operations_are_refused_while_one_is_pending_and_journal_records_writes() {
    let mut repo = empty_repo();
    let personal = space(&mut repo, "Personal");
    use_space(&mut repo, &personal.slug);
    let t = task(&mut repo, "Run", None, None);
    let mut state = repo.load_state();
    state.pending_operation = Some(PendingOperation {
        operation_id: "op_x".to_owned(),
        kind: PendingOperationKind::TaskPurge,
        created_at: Timestamp { unix_nanos: 0 },
        entries: Vec::new(),
    });
    repo.save_state(&state);
    let writes_before = repo.writes.len();
    let error = TaskService::new().archive_task(&mut repo, ArchiveTaskCommand { task_ref: t.id.as_str().to_owned() }).unwrap_err();
    assert!(matches!(error, AppError::PendingOperationInProgress { kind: PendingOperationKind::TaskPurge, .. }));
    assert_eq!(repo.writes.len(), writes_before);
    let report = MaintenanceService::new().doctor(&repo).unwrap();
    assert!(matches!(report.issues[0], DoctorIssue::PendingOperation { .. }));
    MaintenanceService::new().recover_pending_operation(&mut repo).unwrap();
    let before = repo.writes.len();
    TaskService::new().archive_task(&mut repo, ArchiveTaskCommand { task_ref: t.id.as_str().to_owned() }).unwrap();
    assert_eq!(repo.writes.len(), before + 3);
    assert!(matches!(repo.writes[before], StorageWrite::State(_)));
    assert!(matches!(repo.writes[before + 1], StorageWrite::Task(_)));
}

#[test]
fn doctor_reports_cycles_once_and_cross_space_parents() {
    let mut repo = empty_repo();
    let personal = space(&mut repo, "Personal");
    let work = space(&mut repo, "Work");
    let mut a = Task::new("A", personal.id.clone(), 0);
    let mut b = Task::new("B", personal.id.clone(), 1);
    a.parent_id = Some(b.id.clone());
    b.parent_id = Some(a.id.clone());
    repo.save_task(&a);
    repo.save_task(&b);
    let mut c = Task::new("C", work.id.clone(), 0);
    c.parent_id = Some(a.id.clone());
    repo.save_task(&c);
    let report = MaintenanceService::new().doctor(&repo).unwrap();
    let cycles = report.issues.iter().filter(|i| matches!(i, DoctorIssue::ParentCycle { .. })).count();
    assert_eq!(cycles, 3);
    assert!(report.issues.iter().any(|i| matches!(i, DoctorIssue::CrossSpaceParent { .. })));
    let clean = empty_repo();
    assert!(MaintenanceService::new().doctor(&clean).unwrap().issues.is_empty());
}
