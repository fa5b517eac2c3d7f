use oh_my_todo::clock::Timestamp;
use oh_my_todo::ids::{SpaceId, TaskId};
use oh_my_todo::model::{PendingOperationKind, SortMode, Space, SpaceCounts, SpaceState, Task, TaskLog, TaskStatus, ViewMode};
use oh_my_todo::output::{
    format_archived_task, format_bucket, format_created_space, format_created_task, format_doctor_issue,
    format_purged_task, format_restored_task, format_space_state, format_task_status, format_task_status_name,
    format_timestamp, format_used_space, format_view_name, join_strings, render_doctor_report, render_space,
    render_spaces, render_task, render_task_list, yes_no,
};
use oh_my_todo::queries::{DoctorIssue, DoctorReport, SpaceDetails, SpaceSummary, TaskDetails, TaskListEntry, TaskListResult};
use oh_my_todo::repository::TaskBucket;

fn fixed_space() -> Space {
    let mut s = Space::new("Personal Workspace", 0);
    s.id = SpaceId::try_from("spc_01ARZ3NDEKTSV4RRFFQ69G5FAV").unwrap();
    s
}

fn fixed_task(space: &Space, id: &str, title: &str) -> Task {
    let mut t = Task::new(title, space.id.clone(), 0);
    t.id = TaskId::try_from(id).unwrap();
    t
}

#[test]
fn result_lines() {
    let space = fixed_space();
    assert_eq!(
        format_created_space(&space),
        "Created space [spc_01ARZ3ND] Personal Workspace (spc_01ARZ3NDEKTSV4RRFFQ69G5FAV)"
    );
    assert_eq!(
        format_used_space(&space),
        "Set current space to [spc_01ARZ3ND] Personal Workspace (spc_01ARZ3NDEKTSV4RRFFQ69G5FAV)"
    );
    let mut task = fixed_task(&space, "tsk_01BX5ZZKBKACTAV9WEVGEMMVRZ", "Run 5km");
    assert_eq!(
        format_created_task(&task, &space),
        "Created task [tsk_01BX5ZZK] Run 5km (tsk_01BX5ZZKBKACTAV9WEVGEMMVRZ) in space personal_workspace"
    );
    task.status = TaskStatus::Done;
    task.archived = true;
    assert_eq!(
        format_task_status(&task),
        "Set task [tsk_01BX5ZZK] Run 5km (tsk_01BX5ZZKBKACTAV9WEVGEMMVRZ) to done and archived"
    );
    task.archived = false;
    assert!(format_task_status(&task).ends_with("to done"));
    assert_eq!(
        format_archived_task(&task, 12),
        "Archived task [tsk_01BX5ZZK] Run 5km (tsk_01BX5ZZKBKACTAV9WEVGEMMVRZ) across 12 task(s)"
    );
    task.status = TaskStatus::InProgress;
    assert_eq!(
        format_restored_task(&task, 0),
        "Restored task [tsk_01BX5ZZK] Run 5km (tsk_01BX5ZZKBKACTAV9WEVGEMMVRZ) with status in_progress across 0 task(s)"
    );
    assert!(format_purged_task(&task, 105).ends_with("across 105 task(s)"));
}

#[test]
fn names() {
    assert_eq!(format_task_status_name(TaskStatus::InProgress), "in_progress");
    assert_eq!(format_view_name(ViewMode::Archive), "archive");
    assert_eq!(format_space_state(SpaceState::Archived), "archived");
    assert_eq!(format_bucket(TaskBucket::Todo), "todo/");
    assert_eq!(yes_no(true), "yes");
    assert_eq!(yes_no(false), "no");
    assert_eq!(join_strings(&vec!["a".to_owned(), "b".to_owned(), "c".to_owned()], ", "), "a, b, c");
    assert_eq!(join_strings(&Vec::new(), ", "), "");
}

#[test]
fn doctor_report_text() {
    assert_eq!(render_doctor_report(&DoctorReport { issues: Vec::new() }), "No problems found.");
    let task_id = TaskId::try_from("tsk_01BX5ZZKBKACTAV9WEVGEMMVRZ").unwrap();
    let parent_id = TaskId::try_from("tsk_01ARZ3NDEKTSV4RRFFQ69G5FAV").unwrap();
    let report = DoctorReport {
        issues: vec![
            DoctorIssue::PendingOperation { operation_id: "op_1".to_owned(), kind: PendingOperationKind::SpacePurge },
            DoctorIssue::MissingParent { task_id: task_id.clone(), parent_id },
            DoctorIssue::BucketStatusMismatch { task_id: task_id.clone(), bucket: TaskBucket::Archive, archived: false },
            DoctorIssue::ParentCycle { task_id },
        ],
    };
    assert_eq!(
        render_doctor_report(&report),
        "Problems found: 4\n- pending operation op_1 (space_purge)\n- task tsk_01BX5ZZKBKACTAV9WEVGEMMVRZ has missing parent tsk_01ARZ3NDEKTSV4RRFFQ69G5FAV\n- task tsk_01BX5ZZKBKACTAV9WEVGEMMVRZ is stored in archive/ but archived is no\n- task tsk_01BX5ZZKBKACTAV9WEVGEMMVRZ participates in a parent cycle"
    );
    assert_eq!(
        format_doctor_issue(&report.issues[2]),
        "task tsk_01BX5ZZKBKACTAV9WEVGEMMVRZ is stored in archive/ but archived is no"
    );
}

#[test]
fn listings() {
    let space = fixed_space();
    assert_eq!(render_spaces(&Vec::new()), "No spaces found.");
    let items = vec![SpaceSummary { space: space.clone(), counts: SpaceCounts { todo_tasks: 3, archived_tasks: 1 }, is_current: true }];
    assert_eq!(
        render_spaces(&items),
        "* Personal Workspace [spc_01ARZ3ND] slug: personal_workspace state: active tasks: 3 active / 1 archived"
    );
    let parent = fixed_task(&space, "tsk_01BX5ZZKBKACTAV9WEVGEMMVRZ", "Run 5km");
    let mut child = fixed_task(&space, "tsk_01ARZ3NDEKTSV4RRFFQ69G5FAV", "Warm up");
    child.status = TaskStatus::Done;
    let result = TaskListResult {
        space: space.clone(),
        view: ViewMode::All,
        sort: SortMode::Manual,
        entries: vec![
            TaskListEntry { task: parent.clone(), depth: 0, child_count: 1 },
            TaskListEntry { task: child.clone(), depth: 1, child_count: 0 },
        ],
    };
    assert_eq!(
        render_task_list(&result),
        "Space: Personal Workspace [spc_01ARZ3ND]\nView: all\nSort: manual\n\n[ ] Run 5km [tsk_01BX5ZZK]\n  - [x] Warm up [tsk_01ARZ3ND]"
    );
    let empty = TaskListResult { space, view: ViewMode::Todo, sort: SortMode::Updated, entries: Vec::new() };
    assert!(render_task_list(&empty).ends_with("Sort: updated\n\nNo tasks found."));
}

#[test]
fn detail_views() {
    let mut space = fixed_space();
    space.created_at = Timestamp { unix_nanos: 0 };
    space.updated_at = Timestamp { unix_nanos: 1_000_000_000 };
    assert_eq!(format_timestamp(space.created_at), "1970-01-01T00:00:00Z");
    let details = SpaceDetails { space: space.clone(), counts: SpaceCounts { todo_tasks: 2, archived_tasks: 0 }, is_current: false };
    assert_eq!(
        render_space(&details),
        "Name: Personal Workspace\nSpace ID: spc_01ARZ3NDEKTSV4RRFFQ69G5FAV\nShort ID: spc_01ARZ3ND\nSlug: personal_workspace\nState: active\nCurrent: no\nTasks: 2 active / 0 archived\nCreated: 1970-01-01T00:00:00Z\nUpdated: 1970-01-01T00:00:01Z"
    );
    let mut task = fixed_task(&space, "tsk_01BX5ZZKBKACTAV9WEVGEMMVRZ", "Run 5km");
    task.created_at = Timestamp { unix_nanos: 0 };
    task.updated_at = Timestamp { unix_nanos: 0 };
    let log = TaskLog { at: Timestamp { unix_nanos: 0 }, message: "Today finished 5km".to_owned() };
    task.logs.push(log.clone());
    let text = render_task(&TaskDetails { task: task.clone(), space, parent: None, children: Vec::new(), logs: vec![log] });
    assert!(text.starts_with("Title: Run 5km\nTask ID: tsk_01BX5ZZKBKACTAV9WEVGEMMVRZ\nShort ID: tsk_01BX5ZZK\n"));
    assert!(text.contains("Parent: -\nChildren: -\n"));
    assert!(text.contains("Description: -\nRecent Logs:\n- 1970-01-01T00:00:00Z Today finished 5km"));
}
