//! The persistence adapter's computing half: the whole collection is kept
//! as one encoded text under a single fixed key in a browser-style
//! key-value store. Reading the raw stored text and writing it back are the
//! caller's affair; here the text is produced and interpreted, and an
//! absent or corrupt stored value silently yields the empty collection.

use vstd::prelude::*;

use crate::codec::{decode_spec, decode_tasks, encode_tasks, render_tasks};
use crate::model::{Task, views_of};
use crate::text::{chars_to_string, string_to_chars};

verus! {

/// The fixed key the whole collection is stored under.
pub fn storage_key() -> (r: &'static str)
    ensures
        r@ == "todo_tasks"@,
{
    "todo_tasks"
}

/// The text that stores the whole collection: its canonical encoding.
pub fn save_all(tasks: &Vec<Task>) -> (r: String)
    ensures
        r@ == render_tasks(views_of(tasks@)),
{
    let chars = encode_tasks(tasks);
    chars_to_string(&chars)
}

/// The collection a stored text holds. An absent value (`None`) and a text
/// that encodes no collection both yield the empty collection: silent
/// recovery, never an error and never a partial result.
pub fn load_all(raw: Option<&str>) -> (r: Vec<Task>)
    ensures
        match raw {
            Option::Some(s) => match decode_spec(s@) {
                Option::Some(ts) => views_of(r@) == ts,
                Option::None => r@ == Seq::<Task>::empty(),
            },
            Option::None => r@ == Seq::<Task>::empty(),
        },
{
    match raw {
        Option::None => Vec::new(),
        Option::Some(s) => {
            let chars = string_to_chars(s);
            match decode_tasks(&chars) {
                Option::Some(v) => v,
                Option::None => Vec::new(),
            }
        },
    }
}

} // verus!
