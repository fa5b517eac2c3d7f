use oh_my_todo::clock::Timestamp;
use oh_my_todo::commands::{move_direction_label, EditTaskCommand, MoveTaskDirection};
use oh_my_todo::ids::{SpaceId, TaskId};
use oh_my_todo::maintenance::{bucket_mismatches_status, has_parent_cycle};
use oh_my_todo::model::{slugify, AppConfig, AppState, SortMode, Space, SpaceState, Task, TaskStatus, ViewMode};
use oh_my_todo::order::{status_rank, task_precedes};
use oh_my_todo::repository::{Repository, StoredTaskRecord, TaskBucket};
use oh_my_todo::space_query::next_active_space_id;
use oh_my_todo::task_query::{build_task_list, derive_space_counts, sort_tasks_in_place};
use oh_my_todo::validation::{ensure_non_empty_space_name, ensure_non_empty_title, ensure_not_self_parent, ValidationError};

fn at(n: i128) -> Timestamp {
    Timestamp { unix_nanos: n }
}

fn task_at(title: &str, space: &SpaceId, order: i64, created: i128, updated: i128) -> Task {
    let mut t = Task::new(title, space.clone(), order);
    t.created_at = at(created);
    t.updated_at = at(updated);
    t
}

#[test]
fn slugs_are_lower_case_words_joined_by_underscores() {
    assert_eq!(slugify("Personal Workspace"), "personal_workspace");
    assert_eq!(slugify("  --Hello,   World!--  "), "hello_world");
    assert_eq!(slugify("ÄÖÜ"), "space");
    assert_eq!(slugify(""), "space");
    assert_eq!(slugify("a__b"), "a_b");
    assert_eq!(slugify(&slugify("Mixed CASE 42")), slugify("Mixed CASE 42"));
}

#[test]
fn new_tasks_and_spaces_start_open_and_active() {
    let space = Space::new("Work", 3);
    assert_eq!(space.slug, "work");
    assert_eq!(space.state, SpaceState::Active);
    assert_eq!(space.sort_order, 3);
    assert!(space.created_at.unix_nanos > 0);
    let task = Task::new("Run", space.id.clone(), 2);
    assert_eq!(task.status, TaskStatus::Todo);
    assert!(!task.archived);
    assert_eq!(task.storage_bucket(), "todo");
    assert!(task.is_visible_in_view(ViewMode::Todo));
    assert!(!task.is_visible_in_view(ViewMode::Archive));
    assert!(task.is_visible_in_view(ViewMode::All));
    assert_eq!(task.created_at, task.updated_at);
}

#[test]
fn validation_rules() {
    assert!(matches!(ensure_non_empty_title(" \t"), Err(ValidationError::EmptyTaskTitle)));
    assert!(ensure_non_empty_title("x").is_ok());
    assert!(matches!(ensure_non_empty_space_name(""), Err(ValidationError::EmptySpaceName)));
    let id = TaskId::new();
    assert!(matches!(ensure_not_self_parent(&id, &id.clone()), Err(ValidationError::SelfParent { .. })));
    assert!(ensure_not_self_parent(&id, &TaskId::new()).is_ok());
}

#[test]
fn defaults() {
    let config = AppConfig::default();
    assert_eq!(config.schema_version, 2);
    assert_eq!(config.default_view, ViewMode::Todo);
    assert_eq!(config.default_sort, SortMode::Updated);
    let state = AppState::default();
    assert!(state.current_space_id.is_none());
    assert_eq!(state.current_sort, SortMode::Updated);
    assert!(state.pending_operation.is_none());
}

#[test]
fn sorting_by_each_mode() {
    let sid = SpaceId::new();
    let a = task_at("a", &sid, 2, 10, 50);
    let b = task_at("b", &sid, 1, 20, 40);
    let mut c = task_at("c", &sid, 0, 30, 60);
    c.status = TaskStatus::Done;
    let names = |v: &Vec<Task>| v.iter().map(|t| t.title.clone()).collect::<Vec<_>>();
    let mut v = vec![a.clone(), b.clone(), c.clone()];
    sort_tasks_in_place(&mut v, SortMode::Manual);
    assert_eq!(names(&v), vec!["c", "b", "a"]);
    sort_tasks_in_place(&mut v, SortMode::Created);
    assert_eq!(names(&v), vec!["a", "b", "c"]);
    sort_tasks_in_place(&mut v, SortMode::Updated);
    assert_eq!(names(&v), vec!["c", "a", "b"]);
    sort_tasks_in_place(&mut v, SortMode::Status);
    assert_eq!(names(&v), vec!["b", "a", "c"]);
    assert!(task_precedes(&b, &a, SortMode::Manual));
    assert!(!task_precedes(&a, &a, SortMode::Manual));
    assert_eq!(status_rank(TaskStatus::Close), 3);
}

#[test]
fn task_list_is_a_tree_in_the_chosen_order() {
    let space = Space::new("Home", 0);
    let sid = space.id.clone();
    let root1 = task_at("root1", &sid, 1, 1, 1);
    let root0 = task_at("root0", &sid, 0, 2, 2);
    let mut kid = task_at("kid", &sid, 0, 3, 3);
    kid.parent_id = Some(root1.id.clone());
    let mut gone = task_at("gone", &sid, 1, 4, 4);
    gone.parent_id = Some(root1.id.clone());
    gone.archived = true;
    let tasks = vec![root1.clone(), root0.clone(), kid.clone(), gone.clone()];
    let list = build_task_list(space.clone(), tasks.clone(), ViewMode::Todo, SortMode::Manual);
    let shown = list.entries.iter().map(|e| (e.task.title.clone(), e.depth, e.child_count)).collect::<Vec<_>>();
    assert_eq!(shown, vec![("root0".to_owned(), 0, 0), ("root1".to_owned(), 0, 1), ("kid".to_owned(), 1, 0)]);
    let archive = build_task_list(space.clone(), tasks.clone(), ViewMode::Archive, SortMode::Manual);
    assert_eq!(archive.entries.len(), 1);
    assert_eq!(archive.entries[0].depth, 0);
    let all = build_task_list(space, tasks.clone(), ViewMode::All, SortMode::Manual);
    assert_eq!(all.entries.len(), 4);
    let counts = derive_space_counts(&tasks);
    assert_eq!((counts.todo_tasks, counts.archived_tasks), (3, 1));
}

#[test]
fn next_active_space_follows_the_current_one() {
    let mut a = Space::new("A", 0);
    let mut b = Space::new("B", 1);
    let c = Space::new("C", 2);
    let spaces = vec![c.clone(), a.clone(), b.clone()];
    assert_eq!(next_active_space_id(Some(&a.id), &spaces, None).unwrap().as_str(), b.id.as_str());
    assert_eq!(next_active_space_id(Some(&c.id), &spaces, None).unwrap().as_str(), a.id.as_str());
    assert_eq!(next_active_space_id(Some(&a.id), &spaces, Some(&a.id)).unwrap().as_str(), b.id.as_str());
    assert_eq!(next_active_space_id(None, &spaces, None).unwrap().as_str(), a.id.as_str());
    a.state = SpaceState::Archived;
    b.state = SpaceState::Archived;
    let rest = vec![a.clone(), b.clone()];
    assert!(next_active_space_id(Some(&a.id), &rest, None).is_none());
}

#[test]
fn bucket_and_cycle_checks() {
    assert!(bucket_mismatches_status(TaskBucket::Todo, true));
    assert!(bucket_mismatches_status(TaskBucket::Archive, false));
    assert!(!bucket_mismatches_status(TaskBucket::Todo, false));
    let sid = SpaceId::new();
    let mut a = Task::new("a", sid.clone(), 0);
    let b = Task::new("b", sid, 0);
    a.parent_id = Some(b.id.clone());
    let recs = vec![
        StoredTaskRecord { task: a.clone(), bucket: TaskBucket::Todo },
        StoredTaskRecord { task: b.clone(), bucket: TaskBucket::Todo },
    ];
    assert!(!has_parent_cycle(&a.id, &recs));
    let mut b2 = b.clone();
    b2.parent_id = Some(a.id.clone());
    let looped = vec![
        StoredTaskRecord { task: a.clone(), bucket: TaskBucket::Todo },
        StoredTaskRecord { task: b2, bucket: TaskBucket::Todo },
    ];
    assert!(has_parent_cycle(&a.id, &looped));
}

#[test]
fn edit_commands_know_when_they_change_something() {
    let mut cmd = EditTaskCommand {
        task_ref: "x".to_owned(),
        title: None,
        description: None,
        clear_description: false,
        status: None,
        parent_ref: None,
        clear_parent: false,
        space_ref: None,
    };
    assert!(!cmd.has_any_change());
    cmd.clear_parent = true;
    assert!(cmd.has_any_change());
    assert_eq!(move_direction_label(MoveTaskDirection::Up), "up");
    assert_eq!(move_direction_label(MoveTaskDirection::Down), "down");
}

#[test]
fn repository_keeps_one_record_per_id_and_checks_ids() {
    let mut repo = Repository::new(AppConfig::default(), AppState::default());
    let space = Space::new("S", 0);
    repo.add_stored_space(space.clone());
    repo.add_stored_space(space.clone());
    assert_eq!(repo.list_spaces().len(), 1);
    let t = Task::new("t", space.id.clone(), 0);
    repo.save_task(&t);
    let mut t2 = t.clone();
    t2.archived = true;
    repo.save_task(&t2);
    let recs = repo.list_task_records_in_space(&space.id);
    assert_eq!(recs.len(), 1);
    assert_eq!(recs[0].bucket, TaskBucket::Archive);
    assert!(repo.ids_well_formed());
    assert!(repo.orders_fit());
    repo.delete_task(&t.id);
    assert!(repo.list_all_tasks().is_empty());
    assert_eq!(repo.writes.len(), 3);
}

#[test]
fn a_slug_is_the_words_of_the_name_joined_by_underscores() {
    assert_eq!(slugify("Q3 Roadmap: v2.0 (Draft)"), "q3_roadmap_v2_0_draft");
    assert_eq!(slugify("café au lait"), "caf_au_lait");
    assert_eq!(slugify("__x__"), "x");
}
