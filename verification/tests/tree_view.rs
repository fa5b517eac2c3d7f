use oh_my_todo::ids::SpaceId;
use oh_my_todo::model::{SortMode, Task, TaskLog, TaskStatus};
use oh_my_todo::clock::Timestamp;
use oh_my_todo::queries::TaskListEntry;
use oh_my_todo::tree_view::{
    build_visible_tasks, detail_panel_height, filter_task_entries, index_of_task, sort_label, status_label,
    status_marker, task_matches_filter, text_contains, trim_text, truncate_text,
};

#[test]
fn collapsed_parent_hides_descendants() {
    let space_id = SpaceId::new();
    let parent = Task::new("parent", space_id.clone(), 0);
    let mut child = Task::new("child", space_id, 1);
    child.parent_id = Some(parent.id.clone());
    let entries = vec![
        TaskListEntry { task: parent.clone(), depth: 0, child_count: 1 },
        TaskListEntry { task: child, depth: 1, child_count: 0 },
    ];

    let visible = build_visible_tasks(&entries, &Vec::new());
    assert_eq!(visible.len(), 1);
    assert_eq!(visible[0].task.id.as_str(), parent.id.as_str());
}

#[test]
fn filter_keeps_matching_subtree_and_ancestors() {
    let space_id = SpaceId::new();
    let parent = Task::new("Weekly Review", space_id.clone(), 0);
    let mut child = Task::new("Collect notes", space_id.clone(), 1);
    child.parent_id = Some(parent.id.clone());
    let mut grandchild = Task::new("Draft summary", space_id, 2);
    grandchild.parent_id = Some(child.id.clone());

    let entries = vec![
        TaskListEntry { task: parent.clone(), depth: 0, child_count: 1 },
        TaskListEntry { task: child.clone(), depth: 1, child_count: 1 },
        TaskListEntry { task: grandchild.clone(), depth: 2, child_count: 0 },
    ];

    let filtered = filter_task_entries(&entries, "summary");
    assert_eq!(filtered.len(), 3);
    assert_eq!(filtered[0].task.id.as_str(), parent.id.as_str());
    assert_eq!(filtered[1].task.id.as_str(), child.id.as_str());
    assert_eq!(filtered[2].task.id.as_str(), grandchild.id.as_str());
}

#[test]
fn expanded_parent_shows_children_and_nested_collapse_hides_only_below() {
    let space_id = SpaceId::new();
    let a = Task::new("a", space_id.clone(), 0);
    let mut b = Task::new("b", space_id.clone(), 0);
    b.parent_id = Some(a.id.clone());
    let mut c = Task::new("c", space_id.clone(), 0);
    c.parent_id = Some(b.id.clone());
    let d = Task::new("d", space_id, 1);
    let entries = vec![
        TaskListEntry { task: a.clone(), depth: 0, child_count: 1 },
        TaskListEntry { task: b.clone(), depth: 1, child_count: 1 },
        TaskListEntry { task: c, depth: 2, child_count: 0 },
        TaskListEntry { task: d.clone(), depth: 0, child_count: 0 },
    ];
    let visible = build_visible_tasks(&entries, &vec![a.id.clone()]);
    let names: Vec<&str> = visible.iter().map(|v| v.task.title.as_str()).collect();
    assert_eq!(names, vec!["a", "b", "d"]);
    assert!(visible[0].is_expanded);
    assert!(!visible[1].is_expanded);
    assert!(visible[2].is_expanded);
    assert_eq!(index_of_task(&visible, &d.id), Some(2));
    assert_eq!(index_of_task(&visible, &b.id), Some(1));
}

#[test]
fn filter_matches_case_insensitively_and_blank_query_keeps_all() {
    let space_id = SpaceId::new();
    let a = Task::new("Buy MILK", space_id.clone(), 0);
    let mut b = Task::new("Call mom", space_id.clone(), 1);
    b.logs.push(TaskLog { at: Timestamp { unix_nanos: 0 }, message: "Left a VOICEMAIL".to_owned() });
    let mut c = Task::new("Plan trip", space_id, 2);
    c.description = Some("Book the Hotel".to_owned());
    c.status = TaskStatus::InProgress;
    let entries = vec![
        TaskListEntry { task: a.clone(), depth: 0, child_count: 0 },
        TaskListEntry { task: b.clone(), depth: 0, child_count: 0 },
        TaskListEntry { task: c.clone(), depth: 0, child_count: 0 },
    ];
    assert_eq!(filter_task_entries(&entries, "   ").len(), 3);
    let by_title = filter_task_entries(&entries, "  milk ");
    assert_eq!(by_title.len(), 1);
    assert_eq!(by_title[0].task.title, "Buy MILK");
    let by_log = filter_task_entries(&entries, "voicemail");
    assert_eq!(by_log.len(), 1);
    assert_eq!(by_log[0].task.title, "Call mom");
    let by_description = filter_task_entries(&entries, "HOTEL");
    assert_eq!(by_description.len(), 1);
    let by_status = filter_task_entries(&entries, "in_progress");
    assert_eq!(by_status.len(), 1);
    assert_eq!(by_status[0].task.title, "Plan trip");
    let by_id = filter_task_entries(&entries, a.id.as_str());
    assert_eq!(by_id.len(), 1);
    assert_eq!(by_id[0].task.title, "Buy MILK");
    assert!(task_matches_filter(&a, "milk"));
    assert!(!task_matches_filter(&a, "MILK"));
    assert_eq!(filter_task_entries(&entries, "nothing like this").len(), 0);
}

#[test]
fn text_helpers() {
    assert_eq!(trim_text("  \t hi there \n"), "hi there");
    assert_eq!(trim_text(" \u{3000} "), "");
    assert_eq!(trim_text("x"), "x");
    assert!(text_contains("hello world", "o w"));
    assert!(text_contains("abc", ""));
    assert!(!text_contains("abc", "abcd"));
    assert!(!text_contains("abc", "ac"));
}

#[test]
fn truncation_keeps_short_text_and_marks_cut_text() {
    assert_eq!(truncate_text("hello", 10), "hello");
    assert_eq!(truncate_text("hello", 5), "hello");
    assert_eq!(truncate_text("hello world", 8), "hello...");
    assert_eq!(truncate_text("hello", 3), "hel");
    assert_eq!(truncate_text("hello", 0), "");
    assert_eq!(truncate_text("héllo wörld", 6), "hél...");
}

#[test]
fn panel_height_steps() {
    assert_eq!(detail_panel_height(40), 11);
    assert_eq!(detail_panel_height(26), 11);
    assert_eq!(detail_panel_height(25), 9);
    assert_eq!(detail_panel_height(21), 9);
    assert_eq!(detail_panel_height(20), 7);
    assert_eq!(detail_panel_height(17), 7);
    assert_eq!(detail_panel_height(16), 11);
    assert_eq!(detail_panel_height(12), 7);
    assert_eq!(detail_panel_height(8), 5);
    assert_eq!(detail_panel_height(0), 5);
}

#[test]
fn labels() {
    assert_eq!(status_label(TaskStatus::InProgress), "in_progress");
    assert_eq!(status_label(TaskStatus::Close), "close");
    assert_eq!(status_marker(TaskStatus::Todo), "[ ]");
    assert_eq!(status_marker(TaskStatus::Done), "[x]");
    assert_eq!(sort_label(SortMode::Manual), "manual");
    assert_eq!(sort_label(SortMode::Updated), "updated");
}

#[test]
fn filter_keeps_exactly_matches_their_ancestors_and_their_subtrees() {
    let space_id = SpaceId::new();
    let root = Task::new("Home", space_id.clone(), 0);
    let mut middle = Task::new("Paint fence", space_id.clone(), 0);
    middle.parent_id = Some(root.id.clone());
    let mut below = Task::new("Buy brushes", space_id.clone(), 0);
    below.parent_id = Some(middle.id.clone());
    let mut sibling = Task::new("Clean gutters", space_id.clone(), 1);
    sibling.parent_id = Some(root.id.clone());
    let other = Task::new("Taxes", space_id, 1);
    let entries = vec![
        TaskListEntry { task: root.clone(), depth: 0, child_count: 2 },
        TaskListEntry { task: middle.clone(), depth: 1, child_count: 1 },
        TaskListEntry { task: below.clone(), depth: 2, child_count: 0 },
        TaskListEntry { task: sibling, depth: 1, child_count: 0 },
        TaskListEntry { task: other, depth: 0, child_count: 0 },
    ];
    let filtered = filter_task_entries(&entries, "  FENCE ");
    let names: Vec<&str> = filtered.iter().map(|e| e.task.title.as_str()).collect();
    assert_eq!(names, vec!["Home", "Paint fence", "Buy brushes"]);
}
