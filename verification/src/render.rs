//! The view renderer: a pure projection of the collection into display
//! lines. For each task, in collection order: title, description, due
//! date, status, priority, creation timestamp, update timestamp — in that
//! fixed order, with the text `None` as the marker of an absent optional
//! field. Nothing here mutates any state.

use vstd::prelude::*;

use crate::codec::render_int;
use crate::model::{Task, TaskView, status_name};
use crate::text::chars_to_string;

verus! {

/// The display text of an optional text field.
pub open spec fn opt_text(o: Option<Seq<char>>) -> Seq<char> {
    match o {
        Option::Some(s) => s,
        Option::None => "None"@,
    }
}

/// The display text of an optional integer field.
pub open spec fn opt_int_text(o: Option<int>) -> Seq<char> {
    match o {
        Option::Some(i) => render_int(i),
        Option::None => "None"@,
    }
}

/// The seven display lines of one task, in their fixed order.
pub open spec fn task_lines(t: TaskView) -> Seq<Seq<char>> {
    seq![
        t.title,
        opt_text(t.description),
        opt_text(t.due_date),
        status_name(t.status),
        opt_int_text(t.priority),
        t.created_at,
        t.updated_at,
    ]
}

/// The display text of an optional string, executably.
fn opt_string_text(o: &Option<String>) -> (r: String)
    ensures
        r@ == opt_text(crate::model::opt_string_view(*o)),
{
    match o {
        Option::Some(s) => s.clone(),
        Option::None => String::from_str("None"),
    }
}

/// The decimal text of an integer.
pub fn int_to_string(v: i32) -> (r: String)
    ensures
        r@ == render_int(v as int),
{
    let mut out: Vec<char> = Vec::new();
    crate::codec::push_i32(&mut out, v);
    chars_to_string(&out)
}

/// The seven display lines of one task.
pub fn render_task_lines(t: &Task) -> (r: Vec<String>)
    ensures
        r@.len() == 7,
        forall|k: int| 0 <= k < 7 ==> r@[k]@ == task_lines(t@)[k],
{
    let mut r: Vec<String> = Vec::new();
    r.push(t.title.clone());
    r.push(opt_string_text(&t.description));
    r.push(opt_string_text(&t.due_date));
    r.push(String::from_str(t.status.as_str()));
    let prio = match &t.priority {
        Option::Some(p) => int_to_string(*p),
        Option::None => String::from_str("None"),
    };
    r.push(prio);
    r.push(t.created_at.clone());
    r.push(t.updated_at.clone());
    r
}

/// The display lines of the whole collection, one task after another in
/// collection order.
pub fn render_list(tasks: &Vec<Task>) -> (r: Vec<Vec<String>>)
    ensures
        r@.len() == tasks@.len(),
        forall|k: int|
            0 <= k < tasks@.len() ==> #[trigger] r@[k]@.len() == 7 && forall|j: int|
                0 <= j < 7 ==> r@[k]@[j]@ == task_lines(tasks@[k]@)[j],
{
    let mut r: Vec<Vec<String>> = Vec::new();
    let n = tasks.len();
    let mut i: usize = 0;
    while i < n
        invariant
            n == tasks@.len(),
            i <= n,
            r@.len() == i,
            forall|k: int|
                0 <= k < i ==> #[trigger] r@[k]@.len() == 7 && forall|j: int|
                    0 <= j < 7 ==> r@[k]@[j]@ == task_lines(tasks@[k]@)[j],
        decreases n - i,
    {
        r.push(render_task_lines(&tasks[i]));
        i = i + 1;
    }
    r
}

} // verus!
