//! Data model of the task-tracking store that sits beside the supervisor:
//! the plain records its database layer exchanges, and the defaulting and
//! coalescing rules applied when tasks are created and updated. The store's
//! SQL itself is I/O and lives outside the library.

use vstd::prelude::*;

verus! {

/// One task row. Boolean flags are stored as 0/1 counters, as the store
/// keeps them.
pub struct Task {
    pub id: String,
    pub title: String,
    pub description: Option<String>,
    pub done: i64,
    pub due_date: Option<String>,
    pub project: Option<String>,
    pub priority: Option<String>,
    pub starred: i64,
    pub progress: i64,
    pub attachments: i64,
    pub comments: i64,
    pub created_at: String,
    pub updated_at: String,
}

/// What a caller supplies to create a task.
pub struct CreateTaskInput {
    pub id: Option<String>,
    pub title: String,
    pub description: Option<String>,
    pub due_date: Option<String>,
    pub project: Option<String>,
    pub priority: Option<String>,
}

/// What a caller supplies to update a task; absent fields keep their old
/// values.
pub struct UpdateTaskInput {
    pub id: String,
    pub title: Option<String>,
    pub description: Option<String>,
    pub done: Option<bool>,
    pub due_date: Option<String>,
    pub project: Option<String>,
    pub priority: Option<String>,
    pub starred: Option<bool>,
    pub progress: Option<i64>,
}

/// One work session row.
pub struct Session {
    pub id: String,
    pub task_id: Option<String>,
    pub start_at: String,
    pub end_at: Option<String>,
    pub notes: Option<String>,
    pub quality_rating: Option<i32>,
}

/// What a caller supplies to start a session.
pub struct CreateSessionInput {
    pub task_id: Option<String>,
    pub notes: Option<String>,
}

/// What a caller supplies to end a session.
pub struct EndSessionInput {
    pub notes: Option<String>,
    pub quality_rating: Option<i32>,
}

/// One key-value setting row.
pub struct Setting {
    pub key: String,
    pub value: String,
}

impl Task {
    /// A new task from its creation input: the input's id when it carries
    /// one, else the freshly generated id; every flag and counter starts
    /// at zero.
    pub fn from_input(
        input: CreateTaskInput,
        fresh_id: String,
        created_at: String,
        updated_at: String,
    ) -> (t: Task)
        ensures
            t.id == match input.id {
                Some(s) => s,
                None => fresh_id,
            },
            t.title == input.title,
            t.description == input.description,
            t.due_date == input.due_date,
            t.project == input.project,
            t.priority == input.priority,
            t.done == 0,
            t.starred == 0,
            t.progress == 0,
            t.attachments == 0,
            t.comments == 0,
            t.created_at == created_at,
            t.updated_at == updated_at,
    {
        let id = match input.id {
            Some(s) => s,
            None => fresh_id,
        };
        Task {
            id,
            title: input.title,
            description: input.description,
            done: 0,
            due_date: input.due_date,
            project: input.project,
            priority: input.priority,
            starred: 0,
            progress: 0,
            attachments: 0,
            comments: 0,
            created_at,
            updated_at,
        }
    }

    /// The store's update rule: each field the input carries replaces the
    /// old value, each absent field keeps it; the two boolean inputs are
    /// stored as 0/1 flags. The id, the two counters and the timestamps
    /// never change.
    pub fn apply_update(self, u: UpdateTaskInput) -> (t: Task)
        ensures
            t.id == self.id,
            t.title == match u.title {
                Some(s) => s,
                None => self.title,
            },
            t.description == match u.description {
                Some(s) => Some(s),
                None => self.description,
            },
            t.done == match u.done {
                Some(b) => if b {
                    1i64
                } else {
                    0i64
                },
                None => self.done,
            },
            t.due_date == match u.due_date {
                Some(s) => Some(s),
                None => self.due_date,
            },
            t.project == match u.project {
                Some(s) => Some(s),
                None => self.project,
            },
            t.priority == match u.priority {
                Some(s) => Some(s),
                None => self.priority,
            },
            t.starred == match u.starred {
                Some(b) => if b {
                    1i64
                } else {
                    0i64
                },
                None => self.starred,
            },
            t.progress == match u.progress {
                Some(p) => p,
                None => self.progress,
            },
            t.attachments == self.attachments,
            t.comments == self.comments,
            t.created_at == self.created_at,
            t.updated_at == self.updated_at,
    {
        Task {
            id: self.id,
            title: match u.title {
                Some(s) => s,
                None => self.title,
            },
            description: match u.description {
                Some(s) => Some(s),
                None => self.description,
            },
            done: match u.done {
                Some(b) => if b {
                    1
                } else {
                    0
                },
                None => self.done,
            },
            due_date: match u.due_date {
                Some(s) => Some(s),
                None => self.due_date,
            },
            project: match u.project {
                Some(s) => Some(s),
                None => self.project,
            },
            priority: match u.priority {
                Some(s) => Some(s),
                None => self.priority,
            },
            starred: match u.starred {
                Some(b) => if b {
                    1
                } else {
                    0
                },
                None => self.starred,
            },
            progress: match u.progress {
                Some(p) => p,
                None => self.progress,
            },
            attachments: self.attachments,
            comments: self.comments,
            created_at: self.created_at,
            updated_at: self.updated_at,
        }
    }
}

impl Session {
    /// A new session from its creation input, open-ended and unrated.
    pub fn from_input(input: CreateSessionInput, fresh_id: String, start_at: String) -> (s: Session)
        ensures
            s.id == fresh_id,
            s.task_id == input.task_id,
            s.start_at == start_at,
            s.end_at is None,
            s.notes == input.notes,
            s.quality_rating is None,
    {
        Session {
            id: fresh_id,
            task_id: input.task_id,
            start_at,
            end_at: None,
            notes: input.notes,
            quality_rating: None,
        }
    }

    /// Ends a session: stamps the end time and replaces the notes and the
    /// quality rating with whatever the input carries.
    pub fn apply_end(self, input: EndSessionInput, end_at: String) -> (s: Session)
        ensures
            s.id == self.id,
            s.task_id == self.task_id,
            s.start_at == self.start_at,
            s.end_at == Some(end_at),
            s.notes == input.notes,
            s.quality_rating == input.quality_rating,
    {
        Session {
            id: self.id,
            task_id: self.task_id,
            start_at: self.start_at,
            end_at: Some(end_at),
            notes: input.notes,
            quality_rating: input.quality_rating,
        }
    }
}

} // verus!
