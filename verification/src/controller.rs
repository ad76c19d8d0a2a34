//! The task list controller: the one owner of the in-memory collection.
//! Each accepted submission is given the next identifier (the current
//! length plus one), a default priority when the draft carries none, and
//! matching creation and update timestamps, then appended; the pending
//! draft is reset. The collection preserves insertion order, the only
//! order ever displayed. Identifier uniqueness rests on lengths only: it
//! holds while tasks are only ever appended, and is not guaranteed for
//! collections loaded with pre-existing identifiers.

use vstd::prelude::*;

use crate::intake::{intake, intake_spec};
use crate::model::{
    NewTask, NewTaskView, Task, TaskView, default_new_task, opt_string_view, views_of,
};

verus! {

/// Relies on chrono's `Utc::now` and `DateTime::to_rfc3339`: the current
/// UTC instant rendered as RFC 3339 text. The result depends on the clock,
/// so nothing is assumed of it.
#[verifier::external_body]
fn now_rfc3339() -> String {
    chrono::Utc::now().to_rfc3339()
}

/// A copy of an optional string with the same characters.
fn clone_opt_string(o: &Option<String>) -> (r: Option<String>)
    ensures
        opt_string_view(r) == opt_string_view(*o),
{
    match o {
        Option::Some(s) => Option::Some(s.clone()),
        Option::None => Option::None,
    }
}

/// A copy of a task with the same model.
pub fn clone_task(t: &Task) -> (r: Task)
    ensures
        r@ == t@,
{
    Task {
        id: t.id,
        title: t.title.clone(),
        description: clone_opt_string(&t.description),
        due_date: clone_opt_string(&t.due_date),
        status: t.status,
        priority: t.priority,
        created_at: t.created_at.clone(),
        updated_at: t.updated_at.clone(),
    }
}

/// The task a draft becomes when it is accepted as the `n`th entry at
/// instant `now`: identifier `n`, the draft's fields, priority defaulted
/// to zero, both timestamps equal to `now`.
pub open spec fn make_task(n: int, d: NewTaskView, now: Seq<char>) -> TaskView {
    TaskView {
        id: n,
        title: d.title,
        description: d.description,
        due_date: d.due_date,
        status: d.status,
        priority: Option::Some(
            match d.priority {
                Option::Some(p) => p,
                Option::None => 0,
            },
        ),
        created_at: now,
        updated_at: now,
    }
}

/// The owner of the in-memory collection, together with the pending form
/// draft.
pub struct TaskList {
    pub tasks: Vec<Task>,
    pub pending: NewTask,
}

impl View for TaskList {
    type V = Seq<TaskView>;

    open spec fn view(&self) -> Seq<TaskView> {
        views_of(self.tasks@)
    }
}

impl TaskList {
    /// An empty collection with an empty pending draft.
    pub fn new() -> (r: TaskList)
        ensures
            r@ == Seq::<TaskView>::empty(),
            r.pending@ == default_new_task(),
    {
        let r = TaskList { tasks: Vec::new(), pending: NewTask::default() };
        proof {
            assert(views_of(r.tasks@) =~= Seq::<TaskView>::empty());
        }
        r
    }

    /// A collection taken over as it stands, for state loaded from
    /// storage, with an empty pending draft.
    pub fn from_tasks(tasks: Vec<Task>) -> (r: TaskList)
        ensures
            r@ == views_of(tasks@),
            r.pending@ == default_new_task(),
    {
        TaskList { tasks: tasks, pending: NewTask::default() }
    }

    /// How many tasks the collection holds.
    pub fn len(&self) -> (r: usize)
        ensures
            r == self@.len(),
    {
        self.tasks.len()
    }

    /// Accept a draft: append the task it becomes, reset the pending
    /// draft, and hand the new task back. The new task's identifier is
    /// the old length plus one, and its two timestamps are the same
    /// instant.
    pub fn add(&mut self, draft: NewTask) -> (r: Task)
        requires
            old(self)@.len() < i32::MAX,
        ensures
            final(self)@ == old(self)@.push(r@),
            r@ == make_task(old(self)@.len() as int + 1, draft@, r@.created_at),
            final(self).pending@ == default_new_task(),
    {
        let now = now_rfc3339();
        let id = self.tasks.len() as i32 + 1;
        let priority = match draft.priority {
            Option::Some(p) => p,
            Option::None => 0,
        };
        let created = now.clone();
        let task = Task {
            id: id,
            title: draft.title,
            description: draft.description,
            due_date: draft.due_date,
            status: draft.status,
            priority: Option::Some(priority),
            created_at: created,
            updated_at: now,
        };
        let stored = clone_task(&task);
        proof {
            assert(views_of(self.tasks@.push(stored)) =~= views_of(self.tasks@).push(stored@));
        }
        self.tasks.push(stored);
        self.pending = NewTask::default();
        task
    }

    /// One whole submission: convert the field map into a draft and, when
    /// it yields one, add it. A field map without a `title` entry, or with
    /// a malformed `status` entry, changes nothing at all and yields no
    /// task.
    pub fn submit(&mut self, fields: &Vec<(String, String)>) -> (r: Option<Task>)
        requires
            old(self)@.len() < i32::MAX,
        ensures
            match intake_spec(fields@) {
                Option::None => r == Option::<Task>::None && *final(self) == *old(self),
                Option::Some(d) => match r {
                    Option::Some(t) => final(self)@ == old(self)@.push(t@) && t@ == make_task(
                        old(self)@.len() as int + 1,
                        d,
                        t@.created_at,
                    ) && final(self).pending@ == default_new_task(),
                    Option::None => false,
                },
            },
    {
        match intake(fields) {
            Option::None => Option::None,
            Option::Some(draft) => Option::Some(self.add(draft)),
        }
    }
}

} // verus!
