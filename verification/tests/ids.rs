use oh_my_todo::ids::{IdError, SpaceId, TaskId, MIN_SHORT_ID_SUFFIX_LEN};
use oh_my_todo::model::Space;
use oh_my_todo::refs::{resolve_space_ref, resolve_task_ref, ReferenceError};

#[test]
fn generated_ids_include_prefix_and_short_id() {
    let task_id = TaskId::new();
    let space_id = SpaceId::new();

    assert!(task_id.as_str().starts_with("tsk_"));
    assert!(space_id.as_str().starts_with("spc_"));
    assert_eq!(task_id.short_id().len(), 4 + MIN_SHORT_ID_SUFFIX_LEN);
    assert_eq!(space_id.short_id().len(), 4 + MIN_SHORT_ID_SUFFIX_LEN);
    assert!(task_id.matches_ref(&task_id.short_id()).unwrap());
    assert!(space_id.matches_ref(&space_id.short_id()).unwrap());
}

#[test]
fn ambiguous_short_task_reference_is_rejected() {
    let first = TaskId::try_from("tsk_01ARZ3NDEKTSV4RRFFQ69G5FAV").unwrap();
    let second = TaskId::try_from("tsk_01ARZ3NDM7QJ4P9WV7YB9X6T1R").unwrap();

    let error = resolve_task_ref("tsk_01ARZ3ND", &[first, second]).unwrap_err();
    assert!(matches!(
        error,
        ReferenceError::AmbiguousTaskReference { ref matches, .. } if matches.len() == 2
    ));
}

#[test]
fn space_reference_supports_slug_and_short_id() {
    let mut personal = Space::new("Personal Workspace", 0);
    let mut work = Space::new("Work", 1);
    personal.id = SpaceId::try_from("spc_01ARZ3NDEKTSV4RRFFQ69G5FAV").unwrap();
    work.id = SpaceId::try_from("spc_01BX5ZZKBKACTAV9WEVGEMMVRZ").unwrap();

    let spaces = vec![personal.clone(), work.clone()];
    let resolved_by_slug = resolve_space_ref("personal_workspace", &spaces).unwrap();
    let resolved_by_short = resolve_space_ref(&work.id.short_id(), &spaces).unwrap();

    assert_eq!(resolved_by_slug.as_str(), personal.id.as_str());
    assert_eq!(resolved_by_short.as_str(), work.id.as_str());
}

#[test]
fn fresh_ids_are_distinct_and_parse_back() {
    let a = TaskId::new();
    let b = TaskId::new();
    assert_ne!(a.as_str(), b.as_str());
    assert_eq!(a.as_str().len(), 4 + 26);
    assert_eq!(TaskId::try_from(a.as_str()).unwrap().as_str(), a.as_str());
    assert_eq!(SpaceId::try_from(SpaceId::new().as_str()).is_ok(), true);
}

#[test]
fn malformed_ids_are_rejected_with_their_kind() {
    assert!(matches!(TaskId::try_from("task_01ARZ3NDEKTSV4RRFFQ69G5FAV"), Err(IdError::InvalidPrefix { .. })));
    assert!(matches!(TaskId::try_from("tsk01ARZ3NDEKTSV4RRFFQ69G5FAV"), Err(IdError::InvalidPrefix { .. })));
    assert!(matches!(TaskId::try_from("tsk_01ARZ3NDEKTSV4RRFFQ69G5FA"), Err(IdError::InvalidUlid { .. })));
    assert!(matches!(TaskId::try_from("tsk_01ARZ3NDEKTSV4RRFFQ69G5FAU"), Err(IdError::InvalidUlid { .. })));
    assert!(matches!(SpaceId::try_from("tsk_01ARZ3NDEKTSV4RRFFQ69G5FAV"), Err(IdError::InvalidPrefix { .. })));
    assert!(TaskId::try_from("tsk_01arz3ndektsv4rrffq69g5fav").is_ok());
}

#[test]
fn short_references_must_have_a_valid_length() {
    let id = TaskId::try_from("tsk_01ARZ3NDEKTSV4RRFFQ69G5FAV").unwrap();
    assert!(matches!(id.matches_ref("tsk_01AR"), Err(IdError::InvalidReferenceLength { min: 8, max: 26, .. })));
    assert!(matches!(id.matches_ref("spc_01ARZ3ND"), Err(IdError::InvalidPrefix { .. })));
    assert!(!id.matches_ref("tsk_01BRZ3ND").unwrap());
    assert!(id.matches_ref("tsk_01ARZ3NDEKTS").unwrap());
    assert_eq!(id.short_id(), "tsk_01ARZ3ND");
}

#[test]
fn task_reference_resolution_outcomes() {
    let first = TaskId::try_from("tsk_01ARZ3NDEKTSV4RRFFQ69G5FAV").unwrap();
    let second = TaskId::try_from("tsk_01BX5ZZKBKACTAV9WEVGEMMVRZ").unwrap();
    let ids = vec![first.clone(), second.clone()];
    assert_eq!(resolve_task_ref("tsk_01BX5ZZK", &ids).unwrap().as_str(), second.as_str());
    assert_eq!(resolve_task_ref(first.as_str(), &ids).unwrap().as_str(), first.as_str());
    assert!(matches!(resolve_task_ref("tsk_01CCCCCC", &ids), Err(ReferenceError::TaskNotFound(_))));
    assert!(matches!(resolve_task_ref("nonsense", &ids), Err(ReferenceError::InvalidId(_))));
    assert!(matches!(resolve_task_ref("tsk_01AR", &[]), Err(ReferenceError::TaskNotFound(_))));
}
