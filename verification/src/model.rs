//! The task record model: the `Status` classification, the persisted `Task`
//! record, and the transient `NewTask` draft produced by form intake.

use vstd::prelude::*;

verus! {

/// A flat classification tag for a task. No transition rules are enforced:
/// any variant may be set directly by a submission.
#[derive(Clone, Copy, Debug, PartialEq, Eq, Structural)]
pub enum Status {
    Todo,
    InProgress,
    Done,
    Closed,
}

impl Default for Status {
    /// The default classification of a task is `Todo`.
    fn default() -> (r: Status)
        ensures
            r == Status::Todo,
    {
        Status::Todo
    }
}

/// The exact identifier string of a status variant, as it appears on the
/// wire and in the rendered list.
pub open spec fn status_name(s: Status) -> Seq<char> {
    match s {
        Status::Todo => "Todo"@,
        Status::InProgress => "InProgress"@,
        Status::Done => "Done"@,
        Status::Closed => "Closed"@,
    }
}

impl Status {
    /// The identifier string of this variant.
    pub fn as_str(&self) -> (r: &'static str)
        ensures
            r@ == status_name(*self),
    {
        match self {
            Status::Todo => "Todo",
            Status::InProgress => "InProgress",
            Status::Done => "Done",
            Status::Closed => "Closed",
        }
    }
}

/// The mathematical model of a stored task: every text field as a sequence
/// of characters, every numeric field as an unbounded integer.
pub ghost struct TaskView {
    pub id: int,
    pub title: Seq<char>,
    pub description: Option<Seq<char>>,
    pub due_date: Option<Seq<char>>,
    pub status: Status,
    pub priority: Option<int>,
    pub created_at: Seq<char>,
    pub updated_at: Seq<char>,
}

/// A persisted todo record. `id` is assigned as `collection length + 1` at
/// creation time; `created_at` and `updated_at` are RFC 3339 text stamped at
/// creation and never changed afterwards.
#[derive(Clone, Debug, PartialEq)]
pub struct Task {
    pub id: i32,
    pub title: String,
    pub description: Option<String>,
    pub due_date: Option<String>,
    pub status: Status,
    pub priority: Option<i32>,
    pub created_at: String,
    pub updated_at: String,
}

pub open spec fn opt_string_view(o: Option<String>) -> Option<Seq<char>> {
    match o {
        Option::Some(s) => Option::Some(s@),
        Option::None => Option::None,
    }
}

pub open spec fn opt_i32_view(o: Option<i32>) -> Option<int> {
    match o {
        Option::Some(p) => Option::Some(p as int),
        Option::None => Option::None,
    }
}

impl View for Task {
    type V = TaskView;

    open spec fn view(&self) -> TaskView {
        TaskView {
            id: self.id as int,
            title: self.title@,
            description: opt_string_view(self.description),
            due_date: opt_string_view(self.due_date),
            status: self.status,
            priority: opt_i32_view(self.priority),
            created_at: self.created_at@,
            updated_at: self.updated_at@,
        }
    }
}

/// The model of a draft: a task without identity and timestamps.
pub ghost struct NewTaskView {
    pub title: Seq<char>,
    pub description: Option<Seq<char>>,
    pub due_date: Option<Seq<char>>,
    pub status: Status,
    pub priority: Option<int>,
}

/// A transient draft carrying validated form input into a new task. It has
/// the shape of `Task` minus `id`, `created_at` and `updated_at`.
#[derive(Clone, Debug, PartialEq)]
pub struct NewTask {
    pub title: String,
    pub description: Option<String>,
    pub due_date: Option<String>,
    pub status: Status,
    pub priority: Option<i32>,
}

impl View for NewTask {
    type V = NewTaskView;

    open spec fn view(&self) -> NewTaskView {
        NewTaskView {
            title: self.title@,
            description: opt_string_view(self.description),
            due_date: opt_string_view(self.due_date),
            status: self.status,
            priority: opt_i32_view(self.priority),
        }
    }
}

/// The model of the empty draft that a fresh form starts from and that the
/// controller resets to after each accepted submission.
pub open spec fn default_new_task() -> NewTaskView {
    NewTaskView {
        title: Seq::empty(),
        description: Option::None,
        due_date: Option::None,
        status: Status::Todo,
        priority: Option::None,
    }
}

impl Default for NewTask {
    /// The empty draft: empty title, no optional fields, status `Todo`.
    fn default() -> (r: NewTask)
        ensures
            r@ == default_new_task(),
    {
        NewTask {
            title: String::new(),
            description: Option::None,
            due_date: Option::None,
            status: Status::Todo,
            priority: Option::None,
        }
    }
}

/// The views of a sequence of tasks, element by element.
pub open spec fn views_of(ts: Seq<Task>) -> Seq<TaskView> {
    ts.map_values(|t: Task| t@)
}

} // verus!
