//! Background task resources.

use vstd::prelude::*;

use crate::text::opt_chars;

verus! {

pub struct TaskDto {
    pub id: i32,
    pub task_type: String,
    pub status: String,
    pub label: Option<String>,
    pub progress: i32,
    pub total: Option<i32>,
    pub error: Option<String>,
    pub created_at: Option<String>,
    pub updated_at: Option<String>,
}

/// A background task as the task service hands it; kind and status by their
/// names, timestamps already rendered as text.
pub struct TaskRecord {
    pub id: Option<i32>,
    pub task_type: String,
    pub status: String,
    pub label: Option<String>,
    pub progress: i32,
    pub total: Option<i32>,
    pub error: Option<String>,
    pub created_at: Option<String>,
    pub updated_at: Option<String>,
}

impl TaskDto {
    /// The DTO of a task; `None` for one without an id.
    pub fn from_task(task: TaskRecord) -> (res: Option<Self>)
        ensures
            task.id is None ==> res is None,
            task.id is Some ==> (res matches Some(d) && d.id == task.id->0 && d.task_type@
                == task.task_type@ && d.status@ == task.status@ && opt_chars(d.label) == opt_chars(
                task.label,
            ) && d.progress == task.progress && d.total == task.total && opt_chars(d.error)
                == opt_chars(task.error) && opt_chars(d.created_at) == opt_chars(task.created_at)
                && opt_chars(d.updated_at) == opt_chars(task.updated_at)),
    {
        match task.id {
            None => None,
            Some(id) => Some(
                TaskDto {
                    id,
                    task_type: task.task_type,
                    status: task.status,
                    label: task.label,
                    progress: task.progress,
                    total: task.total,
                    error: task.error,
                    created_at: task.created_at,
                    updated_at: task.updated_at,
                },
            ),
        }
    }
}

} // verus!
