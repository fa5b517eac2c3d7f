use oh_my_todo::cli::{
    ActiveTaskStatusArg, RootCommand, SortArg, TaskArgs, TaskCommand, TaskListArgs, TaskStatusArgs, TaskStatusCommand,
    TaskStatusSetArgs, TodoCli, TuiArgs, ViewArg,
};
use oh_my_todo::dispatch::{dispatch, is_runnable, run_command, run_doctor, CliCommand, CommandOutput};
use oh_my_todo::error::AppError;
use oh_my_todo::model::{AppConfig, AppState, SortMode, TaskStatus, ViewMode};
use oh_my_todo::repository::Repository;

fn empty_repo() -> Repository {
    Repository::new(AppConfig::default(), AppState::default())
}

fn run(repo: &mut Repository, command: CliCommand) -> String {
    assert!(is_runnable(repo));
    let output: CommandOutput = run_command(repo, command).unwrap();
    output.text.unwrap_or_default()
}

fn run_err(repo: &mut Repository, command: CliCommand) -> AppError {
    assert!(is_runnable(repo));
    run_command(repo, command).unwrap_err()
}

fn extract_id(output: &str, prefix: &str) -> String {
    let start = output.rfind(prefix).expect("output should contain a trackable id");
    let suffix = &output[start..];
    let end = suffix
        .find(|character: char| !character.is_ascii_alphanumeric() && character != '_')
        .unwrap_or(suffix.len());
    suffix[..end].to_owned()
}

fn space_add(name: &str) -> CliCommand {
    CliCommand::SpaceAdd { name: name.to_owned(), tui: false }
}

fn space_use(reference: &str) -> CliCommand {
    CliCommand::SpaceUse { space_ref: reference.to_owned(), tui: false }
}

fn task_add(title: &str, parent: Option<&str>) -> CliCommand {
    CliCommand::TaskAdd {
        title: title.to_owned(),
        space: None,
        description: None,
        parent: parent.map(|p| p.to_owned()),
        status: None,
        tui: false,
    }
}

fn task_list(view: Option<ViewMode>) -> CliCommand {
    CliCommand::TaskList { space: None, view, sort: None }
}

#[test]
fn cli_stage2_core_flow_works_end_to_end() {
    let mut repo = empty_repo();

    let add_space = run(&mut repo, space_add("personal"));
    assert!(add_space.contains("Created space"));

    let use_space = run(&mut repo, space_use("personal"));
    assert!(use_space.contains("Set current space"));

    let add_parent = run(&mut repo, task_add("Run 5km", None));
    let parent_id = extract_id(&add_parent, "tsk_");
    assert!(add_parent.contains("Created task"));

    let add_child = run(&mut repo, task_add("Warm up", Some(parent_id.as_str())));
    let child_id = extract_id(&add_child, "tsk_");
    assert!(add_child.contains("Created task"));

    let child_done = run(&mut repo, CliCommand::TaskDone { task_ref: child_id.clone(), tui: false });
    assert!(child_done.contains("to done and archived"));

    let done = run(&mut repo, CliCommand::TaskDone { task_ref: parent_id.clone(), tui: false });
    assert!(done.contains("to done and archived"));

    let archive_list = run(&mut repo, task_list(Some(ViewMode::Archive)));
    assert!(archive_list.contains("Run 5km"));
    assert!(archive_list.contains("Warm up"));

    let log = run(
        &mut repo,
        CliCommand::TaskLogAdd { task_ref: parent_id.clone(), text: "Today finished 5km".to_owned(), tui: false },
    );
    assert!(log.contains("Added log to task"));

    let show = run(&mut repo, CliCommand::TaskShow { task_ref: parent_id.clone() });
    assert!(show.contains("Recent Logs:"));
    assert!(show.contains("Today finished 5km"));
}

#[test]
fn cli_requires_current_space_for_task_add_without_space_flag() {
    let mut repo = empty_repo();
    let error = run_err(&mut repo, task_add("Run 5km", None));
    assert!(matches!(error, AppError::MissingCurrentSpace));
    assert_eq!(error.exit_code(), 5);
    assert!(error.hint().unwrap().contains("todo space add <NAME>"));
}

#[test]
fn cli_stage3_task_archive_restore_and_purge_flow() {
    let mut repo = empty_repo();
    run(&mut repo, space_add("personal"));
    run(&mut repo, space_use("personal"));

    let add_parent = run(&mut repo, task_add("Run 5km", None));
    let parent_id = extract_id(&add_parent, "tsk_");
    run(&mut repo, task_add("Warm up", Some(parent_id.as_str())));

    let archived = run(&mut repo, CliCommand::TaskArchive { task_ref: parent_id.clone(), tui: false });
    assert!(archived.contains("Archived task"));

    let archive_list = run(&mut repo, task_list(Some(ViewMode::Archive)));
    assert!(archive_list.contains("[a] Run 5km"));
    assert!(archive_list.contains("Warm up"));

    let restored = run(
        &mut repo,
        CliCommand::TaskRestore { task_ref: parent_id.clone(), status: Some(TaskStatus::InProgress), tui: false },
    );
    assert!(restored.contains("Restored task"));
    let todo_list = run(&mut repo, task_list(None));
    assert!(todo_list.contains("[~] Run 5km"));
    assert!(todo_list.contains("[~] Warm up"));

    run(&mut repo, CliCommand::TaskArchive { task_ref: parent_id.clone(), tui: false });

    let refused = run_err(
        &mut repo,
        CliCommand::TaskPurge { task_ref: parent_id.clone(), recursive: false, force: true },
    );
    assert!(matches!(refused, AppError::TaskPurgeRequiresRecursive { .. }));
    assert_eq!(refused.exit_code(), 5);
    assert!(refused.hint().unwrap().contains("--recursive"));

    let purged = run(&mut repo, CliCommand::TaskPurge { task_ref: parent_id.clone(), recursive: true, force: true });
    assert!(purged.contains("Purged task"));

    let all_list = run(&mut repo, task_list(Some(ViewMode::All)));
    assert!(!all_list.contains("Run 5km"));
    assert!(!all_list.contains("Warm up"));
}

#[test]
fn cli_stage3_space_lifecycle_and_doctor_flow() {
    let mut repo = empty_repo();
    run(&mut repo, space_add("personal"));
    run(&mut repo, space_add("work"));
    run(&mut repo, space_use("personal"));

    let archived = run(&mut repo, CliCommand::SpaceArchive { space_ref: "personal".to_owned(), tui: false });
    assert!(archived.contains("Archived space"));

    let listed = run(&mut repo, CliCommand::SpaceList { include_archived: false });
    assert!(!listed.contains("personal"));
    assert!(listed.contains("* work"));

    let restored = run(&mut repo, CliCommand::SpaceRestore { space_ref: "personal".to_owned(), tui: false });
    assert!(restored.contains("Restored space"));

    run(&mut repo, CliCommand::SpaceArchive { space_ref: "personal".to_owned(), tui: false });
    let purged = run(&mut repo, CliCommand::SpacePurge { space_ref: "personal".to_owned(), force: true });
    assert!(purged.contains("Purged space"));

    let doctor = run_doctor(&repo).unwrap().text.unwrap();
    assert!(doctor.contains("No problems found."));
}

#[test]
fn commands_that_ask_for_the_interface_hand_back_where_it_opens() {
    let mut repo = empty_repo();
    let created = run_command(&mut repo, CliCommand::SpaceAdd { name: "home".to_owned(), tui: true }).unwrap();
    let launch = created.launch.expect("the interface opens after the command");
    assert!(launch.space_id.is_some());
    assert!(created.text.is_some());

    let opened = run_command(
        &mut repo,
        CliCommand::Tui { space: Some("home".to_owned()), view: Some(ViewMode::All), sort: Some(SortMode::Manual) },
    )
    .unwrap();
    assert!(opened.text.is_none());
    let launch = opened.launch.unwrap();
    assert_eq!(launch.view, Some(ViewMode::All));
    assert_eq!(launch.sort, Some(SortMode::Manual));

    let listed = run_command(&mut repo, CliCommand::SpaceList { include_archived: true }).unwrap();
    assert!(listed.launch.is_none());
}

#[test]
fn unknown_references_are_reported_and_change_nothing() {
    let mut repo = empty_repo();
    run(&mut repo, space_add("personal"));
    let before = repo.writes.len();
    let error = run_err(&mut repo, space_use("nowhere"));
    assert!(matches!(error, AppError::Reference(_)));
    assert_eq!(error.exit_code(), 1);
    assert_eq!(repo.writes.len(), before);
}

#[test]
fn a_parsed_command_line_runs_the_command_it_names() {
    let mut repo = empty_repo();
    run(&mut repo, space_add("personal"));
    run(&mut repo, space_use("personal"));
    let added = run(&mut repo, task_add("Run 5km", None));
    let id = extract_id(&added, "tsk_");

    let set = TodoCli {
        command: RootCommand::Task(TaskArgs {
            command: TaskCommand::Status(TaskStatusArgs {
                command: TaskStatusCommand::SetStatus(TaskStatusSetArgs {
                    task_ref: id.clone(),
                    status: ActiveTaskStatusArg::InProgress,
                    tui: false,
                }),
            }),
        }),
    };
    let output = dispatch(&mut repo, set).unwrap();
    assert!(output.text.unwrap().contains("in_progress"));

    let list = TodoCli {
        command: RootCommand::Task(TaskArgs {
            command: TaskCommand::List(TaskListArgs { space: None, view: Some(ViewArg::All), sort: Some(SortArg::Manual) }),
        }),
    };
    let listed = dispatch(&mut repo, list).unwrap().text.unwrap();
    assert!(listed.contains("View: all"));
    assert!(listed.contains("Sort: manual"));
    assert!(listed.contains("[~] Run 5km"));

    let open = TodoCli {
        command: RootCommand::Tui(TuiArgs { space: None, view: Some(ViewArg::Archive), sort: Some(SortArg::Created) }),
    };
    let launch = dispatch(&mut repo, open).unwrap().launch.unwrap();
    assert_eq!(launch.view, Some(oh_my_todo::model::ViewMode::Archive));
    assert_eq!(launch.sort, Some(oh_my_todo::model::SortMode::Created));
}
