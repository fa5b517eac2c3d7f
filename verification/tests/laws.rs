use oh_my_todo::commands::{
    ArchiveSpaceCommand, ArchiveTaskCommand, CreateSpaceCommand, CreateTaskCommand, RestoreSpaceCommand,
    RestoreTaskCommand, SetCurrentSpaceCommand,
};
use oh_my_todo::dispatch::LaunchOptions;
use oh_my_todo::model::{AppConfig, AppState, FocusArea, SortMode, SpaceState, Task, TaskStatus, ViewMode};
use oh_my_todo::repository::{Repository, TaskBucket};
use oh_my_todo::space_service::SpaceService;
use oh_my_todo::task_service::TaskService;
use oh_my_todo::tui_state::{MouseTarget, TuiState};

fn personal_repo() -> Repository {
    let mut repo = Repository::new(AppConfig::default(), AppState::default());
    let space = SpaceService::new().create_space(&mut repo, CreateSpaceCommand { name: "Personal".to_owned() }).unwrap();
    SpaceService::new()
        .use_space(&mut repo, SetCurrentSpaceCommand { space_ref: space.id.as_str().to_owned() })
        .unwrap();
    repo
}

fn create_task(repo: &mut Repository, title: &str, parent: Option<&Task>) -> Task {
    TaskService::new()
        .create_task(
            repo,
            CreateTaskCommand {
                title: title.to_owned(),
                space_ref: None,
                description: None,
                parent_ref: parent.map(|p| p.id.as_str().to_owned()),
                status: TaskStatus::Todo,
            },
        )
        .unwrap()
}

#[test]
fn restoring_after_archiving_brings_the_subtree_back() {
    let mut repo = personal_repo();
    let parent = create_task(&mut repo, "Run 5km", None);
    let child = create_task(&mut repo, "Warm up", Some(&parent));
    let other = create_task(&mut repo, "Groceries", None);
    let before: Vec<(String, String, bool, TaskStatus)> = repo
        .records
        .iter()
        .map(|r| (r.task.id.as_str().to_owned(), r.task.title.clone(), r.task.archived, r.task.status))
        .collect();

    TaskService::new()
        .archive_task(&mut repo, ArchiveTaskCommand { task_ref: parent.id.as_str().to_owned() })
        .unwrap();
    assert!(repo.records.iter().filter(|r| r.task.archived).count() == 2);
    TaskService::new()
        .restore_task(&mut repo, RestoreTaskCommand { task_ref: parent.id.as_str().to_owned(), status: TaskStatus::InProgress })
        .unwrap();

    assert_eq!(repo.records.len(), before.len());
    for (record, (id, title, archived, status)) in repo.records.iter().zip(before.iter()) {
        assert_eq!(record.task.id.as_str(), id);
        assert_eq!(&record.task.title, title);
        assert!(!record.task.archived && !archived);
        assert!(matches!(record.bucket, TaskBucket::Todo));
        if id == parent.id.as_str() || id == child.id.as_str() {
            assert_eq!(record.task.status, TaskStatus::InProgress);
        } else {
            assert_eq!(id, other.id.as_str());
            assert_eq!(record.task.status, *status);
        }
    }
}

#[test]
fn restoring_after_archiving_a_space_makes_it_active_again() {
    let mut repo = personal_repo();
    let work = SpaceService::new().create_space(&mut repo, CreateSpaceCommand { name: "Work".to_owned() }).unwrap();
    let records = repo.records.len();
    SpaceService::new().archive_space(&mut repo, ArchiveSpaceCommand { space_ref: "work".to_owned() }).unwrap();
    assert_eq!(repo.spaces.iter().find(|s| s.id.as_str() == work.id.as_str()).unwrap().state, SpaceState::Archived);
    SpaceService::new().restore_space(&mut repo, RestoreSpaceCommand { space_ref: "work".to_owned() }).unwrap();
    let restored = repo.spaces.iter().find(|s| s.id.as_str() == work.id.as_str()).unwrap();
    assert_eq!(restored.state, SpaceState::Active);
    assert_eq!(restored.name, work.name);
    assert_eq!(restored.slug, work.slug);
    assert_eq!(repo.spaces.len(), 2);
    assert_eq!(repo.records.len(), records);
}

#[test]
fn a_saved_task_loads_back_and_a_deleted_one_is_gone() {
    let mut repo = personal_repo();
    let mut task = create_task(&mut repo, "Read", None);
    task.title = "Read a book".to_owned();
    task.archived = true;
    repo.save_task(&task);
    let loaded = repo.load_task(&task.id).unwrap();
    assert_eq!(loaded.title, "Read a book");
    assert!(loaded.archived);
    assert!(repo.records.iter().all(|r| matches!(r.bucket, TaskBucket::Archive) == r.task.archived));

    repo.delete_task(&task.id);
    assert!(repo.load_task(&task.id).is_err());
}

#[test]
fn the_interface_reopens_as_it_was_left() {
    let mut repo = personal_repo();
    create_task(&mut repo, "Read", None);
    let mut app = TuiState::new(&mut repo, LaunchOptions { space_id: None, view: None, sort: None }).unwrap();
    app.apply_target(&mut repo, MouseTarget::SwitchView(ViewMode::All)).unwrap();
    while app.current_sort != SortMode::Manual {
        app.apply_target(&mut repo, MouseTarget::CycleSort).unwrap();
    }
    app.apply_target(&mut repo, MouseTarget::CloseDetails).unwrap();
    app.persist(&mut repo).unwrap();

    let reopened = TuiState::new(&mut repo, LaunchOptions { space_id: None, view: None, sort: None }).unwrap();
    assert_eq!(reopened.current_view, ViewMode::All);
    assert_eq!(reopened.current_sort, SortMode::Manual);
    assert_eq!(reopened.focus_area, FocusArea::TaskTree);
    assert_eq!(
        reopened.viewed_space_id.as_ref().map(|id| id.as_str().to_owned()),
        app.viewed_space_id.as_ref().map(|id| id.as_str().to_owned())
    );
}

#[test]
fn a_purged_subtree_cannot_be_found_and_the_rest_stays() {
    let mut repo = personal_repo();
    let parent = create_task(&mut repo, "Run 5km", None);
    let child = create_task(&mut repo, "Warm up", Some(&parent));
    let other = create_task(&mut repo, "Groceries", None);
    TaskService::new()
        .archive_task(&mut repo, ArchiveTaskCommand { task_ref: parent.id.as_str().to_owned() })
        .unwrap();
    TaskService::new()
        .purge_task(
            &mut repo,
            oh_my_todo::commands::PurgeTaskCommand { task_ref: parent.id.as_str().to_owned(), recursive: true },
        )
        .unwrap();
    assert!(repo.load_task(&parent.id).is_err());
    assert!(repo.load_task(&child.id).is_err());
    assert_eq!(repo.load_task(&other.id).unwrap().title, "Groceries");
    assert_eq!(repo.records.len(), 1);
}

#[test]
fn a_purged_space_takes_its_tasks_with_it() {
    let mut repo = personal_repo();
    create_task(&mut repo, "Read", None);
    let work = SpaceService::new().create_space(&mut repo, CreateSpaceCommand { name: "Work".to_owned() }).unwrap();
    SpaceService::new()
        .use_space(&mut repo, SetCurrentSpaceCommand { space_ref: work.id.as_str().to_owned() })
        .unwrap();
    create_task(&mut repo, "Report", None);
    SpaceService::new().archive_space(&mut repo, ArchiveSpaceCommand { space_ref: "work".to_owned() }).unwrap();
    SpaceService::new()
        .purge_space(&mut repo, oh_my_todo::commands::PurgeSpaceCommand { space_ref: "work".to_owned() })
        .unwrap();
    assert!(repo.spaces.iter().all(|s| s.id.as_str() != work.id.as_str()));
    assert!(repo.records.iter().all(|r| r.task.space_id.as_str() != work.id.as_str()));
    assert_eq!(repo.records.len(), 1);
    assert_ne!(repo.state.current_space_id.as_ref().map(|id| id.as_str().to_owned()), Some(work.id.as_str().to_owned()));
}

#[test]
fn moving_a_task_down_swaps_it_with_its_neighbour_and_saves_only_the_two() {
    let mut repo = personal_repo();
    let first = create_task(&mut repo, "First", None);
    let second = create_task(&mut repo, "Second", None);
    let third = create_task(&mut repo, "Third", None);
    let writes = repo.writes.len();

    let moved = TaskService::new()
        .move_task(
            &mut repo,
            oh_my_todo::commands::MoveTaskCommand {
                task_ref: first.id.as_str().to_owned(),
                direction: oh_my_todo::commands::MoveTaskDirection::Down,
            },
        )
        .unwrap();
    assert_eq!(moved.id.as_str(), first.id.as_str());
    assert_eq!(moved.sort_order, 1);
    assert_eq!(repo.writes.len(), writes + 2);
    assert_eq!(repo.load_task(&first.id).unwrap().sort_order, 1);
    assert_eq!(repo.load_task(&second.id).unwrap().sort_order, 0);
    assert_eq!(repo.load_task(&third.id).unwrap().sort_order, 2);
}
