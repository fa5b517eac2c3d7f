//! Input checks shared by the services.

use vstd::prelude::*;
use crate::ids::TaskId;
use crate::text::{is_blank, str_is_blank};

verus! {

#[derive(Debug)]
pub enum ValidationError {
    EmptyTaskTitle,
    EmptySpaceName,
    SelfParent { task_id: TaskId },
}

/// A title must hold something besides white space.
pub fn ensure_non_empty_title(title: &str) -> (r: Result<(), ValidationError>)
    ensures
        r is Err <==> is_blank(title@),
        r matches Err(e) ==> e is EmptyTaskTitle,
{
    if str_is_blank(title) {
        Err(ValidationError::EmptyTaskTitle)
    } else {
        Ok(())
    }
}

/// A space name must hold something besides white space.
pub fn ensure_non_empty_space_name(name: &str) -> (r: Result<(), ValidationError>)
    ensures
        r is Err <==> is_blank(name@),
        r matches Err(e) ==> e is EmptySpaceName,
{
    if str_is_blank(name) {
        Err(ValidationError::EmptySpaceName)
    } else {
        Ok(())
    }
}

/// A task cannot be its own parent.
pub fn ensure_not_self_parent(task_id: &TaskId, parent_id: &TaskId) -> (r: Result<(), ValidationError>)
    ensures
        r is Err <==> task_id@ == parent_id@,
        r matches Err(e) ==> e matches ValidationError::SelfParent { task_id: t } && t@ == task_id@,
{
    if task_id.0 == parent_id.0 {
        Err(ValidationError::SelfParent { task_id: task_id.clone() })
    } else {
        Ok(())
    }
}

} // verus!
