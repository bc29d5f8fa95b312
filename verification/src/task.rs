//! Task records, their mathematical view, and the rule that decides which
//! user-supplied fields are acceptable.

use vstd::prelude::*;

verus! {

/// Whether a task is still open or has been finished.
#[derive(Clone, Copy, Debug, PartialEq, Eq, Structural)]
pub enum TaskStatus {
    Pending,
    Completed,
}

/// One unit of work.
///
/// A `Task` is a plain record: the registry hands out independent copies and
/// never a reference into its own storage.
#[derive(Debug)]
pub struct Task {
    pub id: u64,
    pub title: String,
    pub description: String,
    pub status: TaskStatus,
    pub due_date: Option<u64>,
}

/// What a [`Task`] is, mathematically: its fields as plain values.
pub struct TaskView {
    pub id: nat,
    pub title: Seq<char>,
    pub description: Seq<char>,
    pub status: TaskStatus,
    pub due_date: Option<u64>,
}

impl TaskView {
    /// The task that creation yields: the given fields, not yet completed.
    pub open spec fn pending(
        id: nat,
        title: Seq<char>,
        description: Seq<char>,
        due_date: Option<u64>,
    ) -> TaskView {
        TaskView { id, title, description, status: TaskStatus::Pending, due_date }
    }

    /// The same task with its user-editable fields replaced; `id` and
    /// `status` stay as they are.
    pub open spec fn edited(
        self,
        title: Seq<char>,
        description: Seq<char>,
        due_date: Option<u64>,
    ) -> TaskView {
        TaskView { title, description, due_date, ..self }
    }

    /// The same task with another status.
    pub open spec fn with_status(self, status: TaskStatus) -> TaskView {
        TaskView { status, ..self }
    }

    /// A task as the registry stores it: a positive id and non-empty texts.
    pub open spec fn well_formed(self) -> bool {
        &&& self.id >= 1
        &&& acceptable(self.title, self.description)
    }
}

impl View for Task {
    type V = TaskView;

    open spec fn view(&self) -> TaskView {
        TaskView {
            id: self.id as nat,
            title: self.title@,
            description: self.description@,
            status: self.status,
            due_date: self.due_date,
        }
    }
}

impl Clone for Task {
    fn clone(&self) -> (copy: Self)
        ensures
            copy == *self,
    {
        Task {
            id: self.id,
            title: self.title.clone(),
            description: self.description.clone(),
            status: self.status,
            due_date: self.due_date,
        }
    }
}

impl PartialEq for Task {
    fn eq(&self, other: &Self) -> (same: bool) {
        self.id == other.id && self.title == other.title && self.description == other.description
            && self.status == other.status && self.due_date == other.due_date
    }
}

impl vstd::std_specs::cmp::PartialEqSpecImpl for Task {
    open spec fn obeys_eq_spec() -> bool {
        true
    }

    /// Two tasks are equal when all their fields are.
    open spec fn eq_spec(&self, other: &Self) -> bool {
        self@ == other@
    }
}

impl Task {
    /// Builds a pending task from its parts. Nothing is validated here: the
    /// registry validates before it creates.
    pub fn new(id: u64, title: String, description: String, due_date: Option<u64>) -> (task: Task)
        ensures
            task@ == TaskView::pending(id as nat, title@, description@, due_date),
            task.title == title,
            task.description == description,
    {
        Task { id, title, description, status: TaskStatus::Pending, due_date }
    }
}

/// The view of an optional task.
pub open spec fn view_of(task: Option<Task>) -> Option<TaskView> {
    match task {
        Some(t) => Some(t@),
        None => None,
    }
}

/// Why user-supplied fields were turned down.
#[derive(Clone, Copy, Debug, PartialEq, Eq, Structural)]
pub enum ValidationError {
    EmptyTitle,
    EmptyDescription,
}

/// The first reason, if any, to turn down a title and a description. The
/// title is looked at first. A due date is optional and never a reason.
pub open spec fn rejection(title: Seq<char>, description: Seq<char>) -> Option<ValidationError> {
    if title.len() == 0 {
        Some(ValidationError::EmptyTitle)
    } else if description.len() == 0 {
        Some(ValidationError::EmptyDescription)
    } else {
        None
    }
}

/// Both texts are non-empty.
pub open spec fn acceptable(title: Seq<char>, description: Seq<char>) -> bool {
    title.len() > 0 && description.len() > 0
}

/// Fields are acceptable exactly when there is no reason to reject them.
pub proof fn lemma_acceptable_iff_not_rejected(title: Seq<char>, description: Seq<char>)
    ensures
        acceptable(title, description) <==> rejection(title, description) is None,
{
}

/// Checks a title and a description before anything is stored.
pub fn validate(title: &String, description: &String) -> (res: Result<(), ValidationError>)
    ensures
        res == match rejection(title@, description@) {
            Some(e) => Err::<(), ValidationError>(e),
            None => Ok::<(), ValidationError>(()),
        },
{
    if title.as_str().is_empty() {
        Err(ValidationError::EmptyTitle)
    } else if description.as_str().is_empty() {
        Err(ValidationError::EmptyDescription)
    } else {
        Ok(())
    }
}

impl ValidationError {
    /// The text of [`ValidationError::message`].
    pub open spec fn message_text(self) -> Seq<char> {
        match self {
            ValidationError::EmptyTitle => "title must not be empty"@,
            ValidationError::EmptyDescription => "description must not be empty"@,
        }
    }

    /// A sentence for the person who supplied the fields.
    pub fn message(&self) -> (text: String)
        ensures
            text@ == self.message_text(),
    {
        match self {
            ValidationError::EmptyTitle => "title must not be empty".to_owned(),
            ValidationError::EmptyDescription => "description must not be empty".to_owned(),
        }
    }
}

} // verus!
