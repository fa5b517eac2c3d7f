use oh_my_todo::commands::{CreateSpaceCommand, CreateTaskCommand, SetCurrentSpaceCommand};
use oh_my_todo::dispatch::LaunchOptions;
use oh_my_todo::error::AppError;
use oh_my_todo::ids::TaskId;
use oh_my_todo::model::{AppConfig, AppState, FocusArea, SpaceListMode, Task, TaskStatus, ViewMode};
use oh_my_todo::queries::ListTasksQuery;
use oh_my_todo::repository::Repository;
use oh_my_todo::space_service::SpaceService;
use oh_my_todo::task_service::TaskService;
use oh_my_todo::tui_state::{KeyInput, Mode, MouseTarget, ScrollArea, TuiState};

fn no_options() -> LaunchOptions {
    LaunchOptions { space_id: None, view: None, sort: None }
}

fn empty_app() -> (Repository, TuiState) {
    let mut repo = Repository::new(AppConfig::default(), AppState::default());
    let app = TuiState::new(&mut repo, no_options()).unwrap();
    (repo, app)
}

fn create_task(repo: &mut Repository, title: &str, parent: Option<&TaskId>) -> Task {
    TaskService::new()
        .create_task(
            repo,
            CreateTaskCommand {
                title: title.to_owned(),
                space_ref: None,
                description: None,
                parent_ref: parent.map(|p| p.as_str().to_owned()),
                status: TaskStatus::Todo,
            },
        )
        .unwrap()
}

fn personal_repo() -> Repository {
    let mut repo = Repository::new(AppConfig::default(), AppState::default());
    let space = SpaceService::new().create_space(&mut repo, CreateSpaceCommand { name: "Personal".to_owned() }).unwrap();
    SpaceService::new()
        .use_space(&mut repo, SetCurrentSpaceCommand { space_ref: space.id.as_str().to_owned() })
        .unwrap();
    repo
}

fn position_of(app: &TuiState, id: &TaskId) -> usize {
    app.visible_tasks.iter().position(|entry| entry.task.id.as_str() == id.as_str()).expect("task should be visible")
}

#[test]
fn ctrl_c_is_reserved_as_global_quit() {
    let (_repo, mut app) = empty_app();
    app.mode = Mode::Filter { text: "draft".to_owned() };
    assert!(app.handle_key(KeyInput::Quit));
    assert!(app.should_quit);

    let (_repo, mut app) = empty_app();
    assert!(app.handle_key(KeyInput::Quit));
    assert!(app.should_quit);
}

#[test]
fn esc_closes_form_and_confirm_popups() {
    let (_repo, mut app) = empty_app();

    app.return_focus = FocusArea::Details;
    app.mode = Mode::SpaceForm { rename_of: None, name: "draft".to_owned() };
    let changed = app.handle_key(KeyInput::Esc);
    assert!(changed);
    assert!(matches!(app.mode, Mode::Browse));
    assert_eq!(app.focus_area, FocusArea::Details);

    app.return_focus = FocusArea::Spaces;
    app.mode = Mode::PurgeTaskConfirm {
        task_id: TaskId::new(),
        task_title: "draft".to_owned(),
        affected_count: 1,
        requires_phrase: false,
        phrase: String::new(),
    };
    let changed = app.handle_key(KeyInput::Esc);
    assert!(changed);
    assert!(matches!(app.mode, Mode::Browse));
    assert_eq!(app.focus_area, FocusArea::Spaces);
}

#[test]
fn space_manager_restores_previous_focus_after_nested_dialog() {
    let (mut repo, mut app) = empty_app();
    app.focus_area = FocusArea::TaskTree;

    app.open_space_manager();
    assert!(matches!(app.mode, Mode::SpaceManager { .. }));
    assert_eq!(app.focus_area, FocusArea::Spaces);

    app.apply_target(&mut repo, MouseTarget::OpenSpaceCreate).unwrap();
    assert!(matches!(app.mode, Mode::SpaceForm { .. }));

    let changed = app.handle_key(KeyInput::Esc);
    assert!(changed);
    assert!(matches!(app.mode, Mode::SpaceManager { .. }));
    assert_eq!(app.focus_area, FocusArea::Spaces);

    let changed = app.handle_key(KeyInput::Esc);
    assert!(changed);
    assert!(matches!(app.mode, Mode::Browse));
    assert_eq!(app.focus_area, FocusArea::TaskTree);
}

#[test]
fn root_popup_replaces_existing_popup_instead_of_nesting() {
    let (_repo, mut app) = empty_app();
    app.focus_area = FocusArea::TaskTree;

    app.open_space_manager();
    assert!(matches!(app.mode, Mode::SpaceManager { .. }));

    app.open_help();
    assert!(matches!(app.mode, Mode::Help));

    let changed = app.handle_key(KeyInput::Esc);
    assert!(changed);
    assert!(matches!(app.mode, Mode::Browse));
    assert_eq!(app.focus_area, FocusArea::TaskTree);
}

#[test]
fn mouse_validation_errors_become_status_message_instead_of_exiting() {
    let mut repo = personal_repo();
    let parent = create_task(&mut repo, "Parent", None);
    create_task(&mut repo, "Child", Some(&parent.id));

    let mut app = TuiState::new(&mut repo, no_options()).unwrap();
    let selected_index = position_of(&app, &parent.id);
    app.apply_target(&mut repo, MouseTarget::SelectTask(selected_index)).unwrap();

    let error = app.apply_target(&mut repo, MouseTarget::SetTaskStatus(TaskStatus::Done)).unwrap_err();
    assert!(matches!(error, AppError::OpenSubtasks { open_count: 1, .. }));
    assert_eq!(error.hint(), Some("finish or close every subtask first"));
    assert!(!app.should_quit);

    let reloaded = TaskService::new().load_task(&repo, &parent.id).unwrap();
    let listed = TaskService::new()
        .list_tasks(
            &repo,
            ListTasksQuery {
                space_ref: Some(reloaded.space_id.as_str().to_owned()),
                view: Some(ViewMode::Todo),
                sort: None,
                allow_archived_space: false,
            },
        )
        .unwrap();
    assert!(!reloaded.archived);
    assert!(listed.entries.iter().any(|entry| entry.task.id.as_str() == parent.id.as_str()));
}

#[test]
fn toggling_a_parent_hides_and_shows_its_children() {
    let mut repo = personal_repo();
    let parent = create_task(&mut repo, "Parent", None);
    let child = create_task(&mut repo, "Child", Some(&parent.id));

    let mut app = TuiState::new(&mut repo, no_options()).unwrap();
    assert_eq!(app.visible_tasks.len(), 1);

    assert!(app.apply_target(&mut repo, MouseTarget::ToggleTask(parent.id.clone())).unwrap());
    assert_eq!(app.visible_tasks.len(), 2);
    assert_eq!(position_of(&app, &child.id), 1);
    assert!(app.visible_tasks[0].is_expanded);

    assert!(app.apply_target(&mut repo, MouseTarget::ToggleTask(parent.id.clone())).unwrap());
    assert_eq!(app.visible_tasks.len(), 1);
}

#[test]
fn finishing_a_leaf_task_moves_it_out_of_the_todo_view() {
    let mut repo = personal_repo();
    let task = create_task(&mut repo, "Leaf", None);
    let mut app = TuiState::new(&mut repo, no_options()).unwrap();
    app.apply_target(&mut repo, MouseTarget::SelectTask(0)).unwrap();
    assert_eq!(app.selected_task_id().unwrap().as_str(), task.id.as_str());

    assert!(app.apply_target(&mut repo, MouseTarget::SetTaskStatus(TaskStatus::Done)).unwrap());
    assert!(app.visible_tasks.is_empty());
    let reloaded = TaskService::new().load_task(&repo, &task.id).unwrap();
    assert!(reloaded.archived);
    assert_eq!(reloaded.status, TaskStatus::Done);

    assert!(app.apply_target(&mut repo, MouseTarget::SwitchView(ViewMode::Archive)).unwrap());
    assert_eq!(app.current_view, ViewMode::Archive);
    assert_eq!(app.visible_tasks.len(), 1);
}

#[test]
fn the_filter_dialog_narrows_the_tree_and_clearing_restores_it() {
    let mut repo = personal_repo();
    create_task(&mut repo, "Weekly review", None);
    create_task(&mut repo, "Groceries", None);
    let mut app = TuiState::new(&mut repo, no_options()).unwrap();
    assert_eq!(app.visible_tasks.len(), 2);

    app.open_filter();
    assert!(matches!(app.mode, Mode::Filter { .. }));
    app.edit_text("REVIEW".to_owned());
    assert!(app.apply_target(&mut repo, MouseTarget::FilterApply).unwrap());
    assert!(matches!(app.mode, Mode::Browse));
    assert_eq!(app.task_filter, "REVIEW");
    assert_eq!(app.visible_tasks.len(), 1);
    assert!(app.filter_label().contains("REVIEW"));

    app.open_filter();
    assert!(app.apply_target(&mut repo, MouseTarget::FilterClear).unwrap());
    assert_eq!(app.task_filter, "");
    assert_eq!(app.visible_tasks.len(), 2);
}

#[test]
fn creating_a_space_from_the_manager_lists_it() {
    let (mut repo, mut app) = empty_app();
    assert!(app.task_tree_empty_message().len() > 0);
    app.open_space_manager();
    app.apply_target(&mut repo, MouseTarget::OpenSpaceCreate).unwrap();
    app.edit_text("Garden".to_owned());
    assert!(app.apply_target(&mut repo, MouseTarget::SpaceFormSave).unwrap());
    assert!(matches!(app.mode, Mode::SpaceManager { .. }));
    assert_eq!(app.spaces.len(), 1);
    assert_eq!(app.spaces[0].space.name, "Garden");

    assert!(app.apply_target(&mut repo, MouseTarget::SetSpaceListMode(SpaceListMode::All)).unwrap());
    assert_eq!(app.space_list_mode, SpaceListMode::All);
}

#[test]
fn scrolling_outside_the_open_dialog_changes_nothing() {
    let (repo, mut app) = empty_app();
    app.open_space_manager();
    let changed = app.handle_scroll(&repo, ScrollArea::TaskTree, 3).unwrap();
    assert!(!changed);
    assert!(matches!(app.mode, Mode::SpaceManager { .. }));
}

#[test]
fn detail_actions_follow_the_selected_task_and_the_space_state() {
    let mut repo = personal_repo();
    let mut app = TuiState::new(&mut repo, no_options()).unwrap();

    let none_selected = app.detail_actions();
    assert!(none_selected.can_create);
    assert!(!none_selected.can_edit_task);
    assert!(!none_selected.can_status);
    assert_eq!(none_selected.selected_status, None);

    create_task(&mut repo, "Leaf", None);
    app.reload(&repo).unwrap();
    app.apply_target(&mut repo, MouseTarget::SelectTask(0)).unwrap();
    let live = app.detail_actions();
    assert!(live.can_edit_task && live.can_status);
    assert!(!live.selected_archived && !live.can_restore && !live.can_purge);
    assert_eq!(live.selected_status, Some(TaskStatus::Todo));
    assert!(!live.show_arrange && !live.can_reorder);

    app.apply_target(&mut repo, MouseTarget::CycleSort).unwrap();
    while app.current_sort != oh_my_todo::model::SortMode::Manual {
        app.apply_target(&mut repo, MouseTarget::CycleSort).unwrap();
    }
    app.apply_target(&mut repo, MouseTarget::SelectTask(0)).unwrap();
    let manual = app.detail_actions();
    assert!(manual.show_arrange && manual.can_reorder);
}

#[test]
fn space_manager_context_names_the_viewed_and_current_spaces() {
    let (_repo, app) = empty_app();
    assert_eq!(app.space_manager_context_text(), "No space selected yet.");

    let mut repo = personal_repo();
    let mut app = TuiState::new(&mut repo, no_options()).unwrap();
    assert_eq!(app.space_manager_context_text(), "Viewed: Personal [active]");

    app.viewed_space_id = None;
    assert_eq!(app.space_manager_context_text(), "Current: Personal");
}

#[test]
fn an_archived_space_on_view_is_read_only() {
    let mut repo = personal_repo();
    let work = SpaceService::new().create_space(&mut repo, CreateSpaceCommand { name: "Work".to_owned() }).unwrap();
    SpaceService::new()
        .use_space(&mut repo, SetCurrentSpaceCommand { space_ref: work.id.as_str().to_owned() })
        .unwrap();
    let task = create_task(&mut repo, "Report", None);
    SpaceService::new()
        .archive_space(&mut repo, oh_my_todo::commands::ArchiveSpaceCommand { space_ref: work.id.as_str().to_owned() })
        .unwrap();

    let mut app = TuiState::new(&mut repo, no_options()).unwrap();
    app.open_space_manager();
    app.apply_target(&mut repo, MouseTarget::SetSpaceListMode(SpaceListMode::All)).unwrap();
    let index = app.spaces.iter().position(|s| s.space.id.as_str() == work.id.as_str()).unwrap();
    app.apply_target(&mut repo, MouseTarget::SelectManagedSpace(index)).unwrap();
    app.apply_target(&mut repo, MouseTarget::OpenSelectedSpace).unwrap();
    assert_eq!(app.status_message.as_deref(), Some("Viewing archived space Work."));
    assert_eq!(app.viewed_space_id.as_ref().unwrap().as_str(), work.id.as_str());
    assert!(!app.can_mutate_viewed_space());
    app.apply_target(&mut repo, MouseTarget::SelectTask(0)).unwrap();
    assert_eq!(app.selected_task_id().unwrap().as_str(), task.id.as_str());

    let writes = repo.writes.len();
    let changed = app.apply_target(&mut repo, MouseTarget::SetTaskStatus(TaskStatus::Done)).unwrap();
    assert!(changed);
    assert!(matches!(app.mode, Mode::Browse));
    assert_eq!(app.status_message.as_deref(), Some("Restore this space before changing task status inside it."));
    assert_eq!(repo.writes.len(), writes);

    app.apply_target(&mut repo, MouseTarget::CreateTask).unwrap();
    assert!(matches!(app.mode, Mode::Browse));
    assert_eq!(app.status_message.as_deref(), Some("Restore this space before creating new tasks inside it."));
    assert!(!app.detail_actions().can_edit_task);
}

#[test]
fn space_manager_buttons_follow_the_selected_space() {
    let (_repo, app) = empty_app();
    let none = app.manager_actions();
    assert!(!none.can_open && !none.can_rename && !none.can_archive && !none.can_restore && !none.can_purge);
    assert!(!none.lifecycle_restores);

    let mut repo = personal_repo();
    let work = SpaceService::new().create_space(&mut repo, CreateSpaceCommand { name: "Work".to_owned() }).unwrap();
    SpaceService::new()
        .archive_space(&mut repo, oh_my_todo::commands::ArchiveSpaceCommand { space_ref: work.id.as_str().to_owned() })
        .unwrap();
    let mut app = TuiState::new(&mut repo, no_options()).unwrap();
    app.open_space_manager();
    app.apply_target(&mut repo, MouseTarget::SetSpaceListMode(SpaceListMode::All)).unwrap();

    let personal = app.spaces.iter().position(|s| s.space.name == "Personal").unwrap();
    app.apply_target(&mut repo, MouseTarget::SelectManagedSpace(personal)).unwrap();
    let active = app.manager_actions();
    assert!(active.can_open && active.can_rename && active.can_archive);
    assert!(!active.can_restore && !active.can_purge && !active.lifecycle_restores);

    let archived = app.spaces.iter().position(|s| s.space.name == "Work").unwrap();
    app.apply_target(&mut repo, MouseTarget::SelectManagedSpace(archived)).unwrap();
    let gates = app.manager_actions();
    assert!(gates.can_open && gates.can_rename && !gates.can_archive);
    assert!(gates.can_restore && gates.can_purge && gates.lifecycle_restores);
}

#[test]
fn browser_keys_open_the_filter_with_its_text_and_the_help_over_the_tree() {
    let (_repo, mut app) = empty_app();
    app.task_filter = "review".to_owned();
    app.focus_area = FocusArea::Details;
    assert!(app.handle_key(KeyInput::Char('/')));
    match &app.mode {
        Mode::Filter { text } => assert_eq!(text, "review"),
        _ => panic!("the filter dialog should be open"),
    }
    assert!(matches!(app.background_mode, Some(Mode::Browse)));
    assert_eq!(app.return_focus, FocusArea::Details);

    let (_repo, mut app) = empty_app();
    app.focus_area = FocusArea::Details;
    assert!(app.handle_key(KeyInput::Char('?')));
    assert!(matches!(app.mode, Mode::Help));
    assert!(matches!(app.background_mode, Some(Mode::Browse)));
    assert_eq!(app.return_focus, FocusArea::Details);
    assert!(app.handle_key(KeyInput::Char('?')));
    assert!(matches!(app.mode, Mode::Browse));
    assert!(app.background_mode.is_none());
    assert_eq!(app.focus_area, FocusArea::Details);

    let (_repo, mut app) = empty_app();
    assert!(!app.handle_key(KeyInput::Char('x')));
    assert!(matches!(app.mode, Mode::Browse));
    assert!(!app.should_quit);
}

#[test]
fn cancel_clicks_give_back_the_focus_and_keep_running() {
    let (mut repo, mut app) = empty_app();
    app.focus_area = FocusArea::Details;
    app.open_space_manager();
    app.apply_target(&mut repo, MouseTarget::OpenSpaceCreate).unwrap();
    assert!(app.apply_target(&mut repo, MouseTarget::SpaceFormCancel).unwrap());
    assert!(matches!(app.mode, Mode::SpaceManager { .. }));
    assert_eq!(app.focus_area, FocusArea::Spaces);
    assert_eq!(app.return_focus, FocusArea::Details);
    assert!(app.apply_target(&mut repo, MouseTarget::CloseSpaceManager).unwrap());
    assert!(matches!(app.mode, Mode::Browse));
    assert!(app.background_mode.is_none());
    assert_eq!(app.focus_area, FocusArea::Details);
    assert!(!app.should_quit);
}

#[test]
fn opening_lists_the_spaces_shows_the_tree_and_saves_what_it_shows() {
    let mut repo = personal_repo();
    let parent = create_task(&mut repo, "Parent", None);
    create_task(&mut repo, "Child", Some(&parent.id));
    create_task(&mut repo, "Second", None);

    let app = TuiState::new(&mut repo, no_options()).unwrap();
    assert_eq!(app.spaces.len(), 1);
    assert_eq!(app.spaces[0].space.name, "Personal");
    let mut titles: Vec<&str> = app.visible_tasks.iter().map(|e| e.task.title.as_str()).collect();
    titles.sort();
    assert_eq!(titles, vec!["Parent", "Second"]);
    assert_eq!(app.selected, Some(0));
    let first = app.visible_tasks[0].task.id.clone();
    assert_eq!(app.details.as_ref().unwrap().task.id.as_str(), first.as_str());
    assert_eq!(app.tree_offset, 0);

    let saved = repo.load_state();
    let viewed = app.viewed_space_id.as_ref().unwrap();
    assert_eq!(saved.tui_memory.selected_space_id.as_ref().unwrap().as_str(), viewed.as_str());
    let remembered = saved.tui_memory.spaces.iter().find(|e| e.space_id.as_str() == viewed.as_str()).unwrap();
    assert_eq!(remembered.memory.selected_task_id.as_ref().unwrap().as_str(), first.as_str());

    let again = TuiState::new(&mut repo, no_options()).unwrap();
    assert_eq!(again.selected, Some(0));
}

#[test]
fn reloading_keeps_the_selected_task_and_shows_new_rows() {
    let mut repo = personal_repo();
    create_task(&mut repo, "Alpha", None);
    let beta = create_task(&mut repo, "Beta", None);
    let mut app = TuiState::new(&mut repo, no_options()).unwrap();
    let row = position_of(&app, &beta.id);
    app.apply_target(&mut repo, MouseTarget::SelectTask(row)).unwrap();
    assert_eq!(app.selected_task_id().unwrap().as_str(), beta.id.as_str());

    create_task(&mut repo, "Gamma", None);
    app.reload(&repo).unwrap();
    assert_eq!(app.visible_tasks.len(), 3);
    assert_eq!(app.selected_task_id().unwrap().as_str(), beta.id.as_str());
    assert_eq!(app.details.as_ref().unwrap().task.title, "Beta");
    assert_eq!(app.space_index, 0);
}
