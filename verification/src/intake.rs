//! Form intake: a submitted form arrives as named string fields, and is
//! converted into a validated draft. `title` is required: without it the
//! submission yields no draft at all. `description` and `due_date` pass
//! through unchanged. A `priority` that is not a decimal integer counts as
//! absent. A `status` that is present must be one of the four identifiers,
//! else the submission is refused as structurally malformed; an absent
//! `status` defaults to `Todo`.

use vstd::prelude::*;

use crate::codec::{parse_i32, status_of_name};
use crate::model::{NewTask, NewTaskView, Status, opt_string_view};
use crate::text::{str_eq, string_to_chars};

verus! {

/// The value under the first field of the given name, if any.
pub open spec fn lookup(fields: Seq<(String, String)>, key: Seq<char>) -> Option<Seq<char>>
    decreases fields.len(),
{
    if fields.len() == 0 {
        Option::None
    } else if fields[0].0@ == key {
        Option::Some(fields[0].1@)
    } else {
        lookup(fields.drop_first(), key)
    }
}

/// A whole text read as a decimal integer: an optional minus sign and
/// digits, nothing else, fitting a 32-bit machine integer.
pub open spec fn int_of_text(s: Seq<char>) -> Option<int> {
    match parse_i32(s, 0) {
        Option::Some((v, e)) => if e == s.len() {
            Option::Some(v)
        } else {
            Option::None
        },
        Option::None => Option::None,
    }
}

/// The status a submitted `status` field stands for: the default when the
/// field is absent, its identifier's variant when present and well formed,
/// nothing when present and malformed.
pub open spec fn status_of_field(o: Option<Seq<char>>) -> Option<Status> {
    match o {
        Option::None => Option::Some(Status::Todo),
        Option::Some(sv) => status_of_name(sv),
    }
}

/// The draft a submitted field map yields, if any: none without a `title`
/// field or with a malformed `status` field.
pub open spec fn intake_spec(fields: Seq<(String, String)>) -> Option<NewTaskView> {
    match lookup(fields, "title"@) {
        Option::None => Option::None,
        Option::Some(title) => match status_of_field(lookup(fields, "status"@)) {
            Option::None => Option::None,
            Option::Some(st) => Option::Some(
                NewTaskView {
                    title: title,
                    description: lookup(fields, "description"@),
                    due_date: lookup(fields, "due_date"@),
                    status: st,
                    priority: match lookup(fields, "priority"@) {
                        Option::None => Option::None,
                        Option::Some(pv) => int_of_text(pv),
                    },
                },
            ),
        },
    }
}

/// The value under the first field of the given name, copied out.
fn lookup_field(fields: &Vec<(String, String)>, key: &str) -> (r: Option<String>)
    ensures
        opt_string_view(r) == lookup(fields@, key@),
{
    let n = fields.len();
    proof {
        assert(fields@.skip(0) =~= fields@);
    }
    let mut i: usize = 0;
    while i < n
        invariant
            n == fields@.len(),
            i <= n,
            lookup(fields@, key@) == lookup(fields@.skip(i as int), key@),
        decreases n - i,
    {
        proof {
            assert(fields@.skip(i as int)[0] == fields@[i as int]);
            assert(fields@.skip(i as int).drop_first() =~= fields@.skip(i + 1));
        }
        let pair = &fields[i];
        if str_eq(pair.0.as_str(), key) {
            return Option::Some(pair.1.clone());
        }
        i = i + 1;
    }
    proof {
        assert(fields@.skip(n as int) =~= Seq::<(String, String)>::empty());
    }
    Option::None
}

/// A whole string read as a decimal integer, if it is one.
pub fn int_of_str(s: &str) -> (r: Option<i32>)
    ensures
        match r {
            Option::Some(v) => int_of_text(s@) == Option::Some(v as int),
            Option::None => int_of_text(s@) == Option::<int>::None,
        },
{
    let chars = string_to_chars(s);
    match crate::codec::p_i32(&chars, 0) {
        Option::Some((v, e)) => {
            if e == chars.len() {
                Option::Some(v)
            } else {
                Option::None
            }
        },
        Option::None => Option::None,
    }
}

/// The draft a submitted field map yields, if any.
pub fn intake(fields: &Vec<(String, String)>) -> (r: Option<NewTask>)
    ensures
        match r {
            Option::Some(d) => intake_spec(fields@) == Option::Some(d@),
            Option::None => intake_spec(fields@) == Option::<NewTaskView>::None,
        },
{
    let title = match lookup_field(fields, "title") {
        Option::Some(t) => t,
        Option::None => {
            return Option::None;
        },
    };
    let status = match lookup_field(fields, "status") {
        Option::None => Status::Todo,
        Option::Some(sv) => {
            if str_eq(sv.as_str(), "Todo") {
                Status::Todo
            } else if str_eq(sv.as_str(), "InProgress") {
                Status::InProgress
            } else if str_eq(sv.as_str(), "Done") {
                Status::Done
            } else if str_eq(sv.as_str(), "Closed") {
                Status::Closed
            } else {
                return Option::None;
            }
        },
    };
    let description = lookup_field(fields, "description");
    let due_date = lookup_field(fields, "due_date");
    let priority = match lookup_field(fields, "priority") {
        Option::None => Option::None,
        Option::Some(pv) => int_of_str(pv.as_str()),
    };
    Option::Some(
        NewTask {
            title: title,
            description: description,
            due_date: due_date,
            status: status,
            priority: priority,
        },
    )
}

} // verus!
