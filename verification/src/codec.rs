//! The text codec for the persisted collection: the whole task list is one
//! JSON array of objects with lower-camel-case field names, statuses written
//! as their exact identifier strings, and absent optional fields written as
//! `null`. The encoder emits one canonical text for every collection; the
//! decoder accepts exactly the texts the encoder can emit and refuses
//! everything else, so a corrupt stored value is detected, never
//! misread.

use vstd::prelude::*;

use crate::model::{Status, Task, TaskView, status_name, views_of};

verus! {

// ---------------------------------------------------------------------------
// Rendering, as specification
// ---------------------------------------------------------------------------

/// The character of a single decimal digit.
pub open spec fn digit_char(d: nat) -> char {
    if d == 0 {
        '0'
    } else if d == 1 {
        '1'
    } else if d == 2 {
        '2'
    } else if d == 3 {
        '3'
    } else if d == 4 {
        '4'
    } else if d == 5 {
        '5'
    } else if d == 6 {
        '6'
    } else if d == 7 {
        '7'
    } else if d == 8 {
        '8'
    } else {
        '9'
    }
}

/// The decimal digits of `n`, most significant first, with no leading zero
/// except for `n == 0` itself.
pub open spec fn dec_digits(n: nat) -> Seq<char>
    decreases n,
{
    if n < 10 {
        seq![digit_char(n)]
    } else {
        dec_digits(n / 10).push(digit_char(n % 10))
    }
}

/// The decimal rendering of an integer, with a leading minus sign when it is
/// negative.
pub open spec fn render_int(i: int) -> Seq<char> {
    if i < 0 {
        seq!['-'] + dec_digits((-i) as nat)
    } else {
        dec_digits(i as nat)
    }
}

/// The escape sequence a character is written as inside a quoted string:
/// quote, backslash, newline, carriage return and tab take a two-character
/// escape; every other character stands for itself.
pub open spec fn escape_char(c: char) -> Seq<char> {
    if c == '"' {
        seq!['\\', '"']
    } else if c == '\\' {
        seq!['\\', '\\']
    } else if c == '\n' {
        seq!['\\', 'n']
    } else if c == '\r' {
        seq!['\\', 'r']
    } else if c == '\t' {
        seq!['\\', 't']
    } else {
        seq![c]
    }
}

/// A string body with every character escaped.
pub open spec fn escape(s: Seq<char>) -> Seq<char>
    decreases s.len(),
{
    if s.len() == 0 {
        Seq::empty()
    } else {
        escape_char(s[0]) + escape(s.drop_first())
    }
}

/// A quoted, escaped string.
pub open spec fn render_string(s: Seq<char>) -> Seq<char> {
    seq!['"'] + escape(s) + seq!['"']
}

/// An optional string: `null` when absent, a quoted string when present.
pub open spec fn render_opt_string(o: Option<Seq<char>>) -> Seq<char> {
    match o {
        Option::Some(s) => render_string(s),
        Option::None => "null"@,
    }
}

/// An optional integer: `null` when absent, a decimal number when present.
pub open spec fn render_opt_int(o: Option<int>) -> Seq<char> {
    match o {
        Option::Some(i) => render_int(i),
        Option::None => "null"@,
    }
}

/// One task as a JSON object, fields in a fixed order under their wire
/// names.
pub open spec fn render_task(t: TaskView) -> Seq<char> {
    "{\"id\":"@ + (render_int(t.id) + (",\"title\":"@ + (render_string(t.title) + (
    ",\"description\":"@ + (render_opt_string(t.description) + (",\"dueDate\":"@ + (
    render_opt_string(t.due_date) + (",\"status\":"@ + (render_string(status_name(t.status)) + (
    ",\"priority\":"@ + (render_opt_int(t.priority) + (",\"createdAt\":"@ + (
    render_string(t.created_at) + (",\"updatedAt\":"@ + (render_string(t.updated_at)
        + "}"@)))))))))))))))
}

/// The tail of a non-empty array: the remaining tasks separated by commas,
/// closed by the final bracket.
pub open spec fn render_task_list(ts: Seq<TaskView>) -> Seq<char>
    decreases ts.len(),
{
    if ts.len() <= 1 {
        render_task(ts[0]) + seq![']']
    } else {
        render_task(ts[0]) + seq![','] + render_task_list(ts.drop_first())
    }
}

/// The whole collection as a JSON array.
pub open spec fn render_tasks(ts: Seq<TaskView>) -> Seq<char> {
    if ts.len() == 0 {
        "[]"@
    } else {
        seq!['['] + render_task_list(ts)
    }
}

// ---------------------------------------------------------------------------
// Parsing, as specification
// ---------------------------------------------------------------------------

pub open spec fn is_digit(c: char) -> bool {
    c == '0' || c == '1' || c == '2' || c == '3' || c == '4' || c == '5' || c == '6' || c == '7'
        || c == '8' || c == '9'
}

/// The value of a single decimal digit character.
pub open spec fn digit_val(c: char) -> nat {
    if c == '0' {
        0
    } else if c == '1' {
        1
    } else if c == '2' {
        2
    } else if c == '3' {
        3
    } else if c == '4' {
        4
    } else if c == '5' {
        5
    } else if c == '6' {
        6
    } else if c == '7' {
        7
    } else if c == '8' {
        8
    } else {
        9
    }
}

/// Expect the exact text `lit` at position `i`; the position after it on
/// success.
pub open spec fn parse_lit(s: Seq<char>, i: int, lit: Seq<char>) -> Option<int> {
    if 0 <= i && i + lit.len() <= s.len() && s.subrange(i, i + lit.len()) == lit {
        Option::Some(i + lit.len())
    } else {
        Option::None
    }
}

/// Fold the maximal run of digits starting at `i` onto the accumulator;
/// the value and the position of the first non-digit.
pub open spec fn parse_digits(s: Seq<char>, i: int, acc: nat) -> (nat, int)
    decreases s.len() - i,
{
    if 0 <= i && i < s.len() && is_digit(s[i]) {
        parse_digits(s, i + 1, acc * 10 + digit_val(s[i]))
    } else {
        (acc, i)
    }
}

/// A decimal integer with an optional leading minus sign, refused when its
/// value does not fit a 32-bit signed machine integer.
pub open spec fn parse_i32(s: Seq<char>, i: int) -> Option<(int, int)> {
    let neg = 0 <= i && i < s.len() && s[i] == '-';
    let j = if neg {
        i + 1
    } else {
        i
    };
    if 0 <= j && j < s.len() && is_digit(s[j]) {
        let (v, e) = parse_digits(s, j, 0);
        let sv = if neg {
            -(v as int)
        } else {
            v as int
        };
        if i32::MIN <= sv <= i32::MAX {
            Option::Some((sv, e))
        } else {
            Option::None
        }
    } else {
        Option::None
    }
}

/// The character an escape code stands for, if it is one of the five
/// accepted codes.
pub open spec fn unescape_char(c: char) -> Option<char> {
    if c == '"' {
        Option::Some('"')
    } else if c == '\\' {
        Option::Some('\\')
    } else if c == 'n' {
        Option::Some('\n')
    } else if c == 'r' {
        Option::Some('\r')
    } else if c == 't' {
        Option::Some('\t')
    } else {
        Option::None
    }
}

/// The body of a quoted string from position `i` up to its closing quote:
/// the unescaped characters and the position after the quote.
pub open spec fn parse_str_body(s: Seq<char>, i: int) -> Option<(Seq<char>, int)>
    decreases s.len() - i,
{
    if 0 <= i && i < s.len() {
        if s[i] == '"' {
            Option::Some((Seq::empty(), i + 1))
        } else if s[i] == '\\' {
            if i + 1 < s.len() {
                match unescape_char(s[i + 1]) {
                    Option::Some(c) => match parse_str_body(s, i + 2) {
                        Option::Some(r) => Option::Some((seq![c] + r.0, r.1)),
                        Option::None => Option::None,
                    },
                    Option::None => Option::None,
                }
            } else {
                Option::None
            }
        } else {
            match parse_str_body(s, i + 1) {
                Option::Some(r) => Option::Some((seq![s[i]] + r.0, r.1)),
                Option::None => Option::None,
            }
        }
    } else {
        Option::None
    }
}

/// A quoted string: an opening quote, an escaped body, a closing quote.
pub open spec fn parse_string(s: Seq<char>, i: int) -> Option<(Seq<char>, int)> {
    if 0 <= i && i < s.len() && s[i] == '"' {
        parse_str_body(s, i + 1)
    } else {
        Option::None
    }
}

/// `null` or a quoted string.
pub open spec fn parse_opt_string(s: Seq<char>, i: int) -> Option<(Option<Seq<char>>, int)> {
    match parse_lit(s, i, "null"@) {
        Option::Some(e) => Option::Some((Option::None, e)),
        Option::None => match parse_string(s, i) {
            Option::Some(r) => Option::Some((Option::Some(r.0), r.1)),
            Option::None => Option::None,
        },
    }
}

/// `null` or a decimal integer.
pub open spec fn parse_opt_i32(s: Seq<char>, i: int) -> Option<(Option<int>, int)> {
    match parse_lit(s, i, "null"@) {
        Option::Some(e) => Option::Some((Option::None, e)),
        Option::None => match parse_i32(s, i) {
            Option::Some(r) => Option::Some((Option::Some(r.0), r.1)),
            Option::None => Option::None,
        },
    }
}

/// The status variant a name stands for, if it is one of the four
/// identifiers.
pub open spec fn status_of_name(s: Seq<char>) -> Option<Status> {
    if s == "Todo"@ {
        Option::Some(Status::Todo)
    } else if s == "InProgress"@ {
        Option::Some(Status::InProgress)
    } else if s == "Done"@ {
        Option::Some(Status::Done)
    } else if s == "Closed"@ {
        Option::Some(Status::Closed)
    } else {
        Option::None
    }
}

/// A quoted status identifier.
pub open spec fn parse_status(s: Seq<char>, i: int) -> Option<(Status, int)> {
    match parse_string(s, i) {
        Option::Some(r) => match status_of_name(r.0) {
            Option::Some(st) => Option::Some((st, r.1)),
            Option::None => Option::None,
        },
        Option::None => Option::None,
    }
}

/// One task object: every field in its fixed order under its wire name.
pub open spec fn parse_task(s: Seq<char>, i: int) -> Option<(TaskView, int)> {
    match parse_lit(s, i, "{\"id\":"@) {
        Option::Some(e1) => match parse_i32(s, e1) {
            Option::Some((id, e2)) => match parse_lit(s, e2, ",\"title\":"@) {
                Option::Some(e3) => match parse_string(s, e3) {
                    Option::Some((title, e4)) => match parse_lit(s, e4, ",\"description\":"@) {
                        Option::Some(e5) => match parse_opt_string(s, e5) {
                            Option::Some((descr, e6)) => match parse_lit(s, e6, ",\"dueDate\":"@) {
                                Option::Some(e7) => match parse_opt_string(s, e7) {
                                    Option::Some((due, e8)) => match parse_lit(
                                        s,
                                        e8,
                                        ",\"status\":"@,
                                    ) {
                                        Option::Some(e9) => match parse_status(s, e9) {
                                            Option::Some((st, e10)) => match parse_lit(
                                                s,
                                                e10,
                                                ",\"priority\":"@,
                                            ) {
                                                Option::Some(e11) => match parse_opt_i32(s, e11) {
                                                    Option::Some((prio, e12)) => match parse_lit(
                                                        s,
                                                        e12,
                                                        ",\"createdAt\":"@,
                                                    ) {
                                                        Option::Some(e13) => match parse_string(
                                                            s,
                                                            e13,
                                                        ) {
                                                            Option::Some((created, e14)) => match parse_lit(
                                                                s,
                                                                e14,
                                                                ",\"updatedAt\":"@,
                                                            ) {
                                                                Option::Some(e15) => match parse_string(
                                                                    s,
                                                                    e15,
                                                                ) {
                                                                    Option::Some(
                                                                        (updated, e16),
                                                                    ) => match parse_lit(
                                                                        s,
                                                                        e16,
                                                                        "}"@,
                                                                    ) {
                                                                        Option::Some(
                                                                            e17,
                                                                        ) => Option::Some(
                                                                            (
                                                                                TaskView {
                                                                                    id: id,
                                                                                    title: title,
                                                                                    description:
                                                                                        descr,
                                                                                    due_date: due,
                                                                                    status: st,
                                                                                    priority: prio,
                                                                                    created_at:
                                                                                        created,
                                                                                    updated_at:
                                                                                        updated,
                                                                                },
                                                                                e17,
                                                                            ),
                                                                        ),
                                                                        Option::None
                                                                            => Option::None,
                                                                    },
                                                                    Option::None => Option::None,
                                                                },
                                                                Option::None => Option::None,
                                                            },
                                                            Option::None => Option::None,
                                                        },
                                                        Option::None => Option::None,
                                                    },
                                                    Option::None => Option::None,
                                                },
                                                Option::None => Option::None,
                                            },
                                            Option::None => Option::None,
                                        },
                                        Option::None => Option::None,
                                    },
                                    Option::None => Option::None,
                                },
                                Option::None => Option::None,
                            },
                            Option::None => Option::None,
                        },
                        Option::None => Option::None,
                    },
                    Option::None => Option::None,
                },
                Option::None => Option::None,
            },
            Option::None => Option::None,
        },
        Option::None => Option::None,
    }
}

/// One or more task objects separated by commas, closed by the final
/// bracket.
pub open spec fn parse_task_list(s: Seq<char>, i: int) -> Option<(Seq<TaskView>, int)>
    decreases s.len() - i,
{
    match parse_task(s, i) {
        Option::Some((t, e)) => if 0 <= e && e < s.len() && s[e] == ']' {
            Option::Some((seq![t], e + 1))
        } else if i <= e && e < s.len() && s[e] == ',' {
            match parse_task_list(s, e + 1) {
                Option::Some((ts, e2)) => Option::Some((seq![t] + ts, e2)),
                Option::None => Option::None,
            }
        } else {
            Option::None
        },
        Option::None => Option::None,
    }
}

/// A JSON array of task objects starting at `i`.
pub open spec fn parse_tasks(s: Seq<char>, i: int) -> Option<(Seq<TaskView>, int)> {
    match parse_lit(s, i, "[]"@) {
        Option::Some(e) => Option::Some((Seq::empty(), e)),
        Option::None => match parse_lit(s, i, "["@) {
            Option::Some(e) => parse_task_list(s, e),
            Option::None => Option::None,
        },
    }
}

/// The decoding of a whole stored text: a task array with nothing after it,
/// or nothing at all when the text is not one the encoder could have
/// written.
pub open spec fn decode_spec(s: Seq<char>) -> Option<Seq<TaskView>> {
    match parse_tasks(s, 0) {
        Option::Some((ts, e)) => if e == s.len() {
            Option::Some(ts)
        } else {
            Option::None
        },
        Option::None => Option::None,
    }
}

// ---------------------------------------------------------------------------
// The encoder
// ---------------------------------------------------------------------------

/// The character of a decimal digit, executably.
fn digit_to_char(d: u64) -> (r: char)
    requires
        d < 10,
    ensures
        r == digit_char(d as nat),
{
    if d == 0 {
        '0'
    } else if d == 1 {
        '1'
    } else if d == 2 {
        '2'
    } else if d == 3 {
        '3'
    } else if d == 4 {
        '4'
    } else if d == 5 {
        '5'
    } else if d == 6 {
        '6'
    } else if d == 7 {
        '7'
    } else if d == 8 {
        '8'
    } else {
        '9'
    }
}

/// Append the exact characters of a literal.
fn push_lit(out: &mut Vec<char>, lit: &str)
    ensures
        final(out)@ == old(out)@ + lit@,
{
    let n = lit.unicode_len();
    let mut i: usize = 0;
    while i < n
        invariant
            n == lit@.len(),
            i <= n,
            out@ == old(out)@ + lit@.subrange(0, i as int),
        decreases n - i,
    {
        out.push(lit.get_char(i));
        proof {
            assert(old(out)@ + lit@.subrange(0, i + 1) =~= (old(out)@ + lit@.subrange(
                0,
                i as int,
            )).push(lit@[i as int]));
        }
        i = i + 1;
    }
    proof {
        assert(lit@.subrange(0, n as int) =~= lit@);
    }
}

/// Append the decimal digits of `n`, most significant first.
fn push_digits(out: &mut Vec<char>, n: u64)
    ensures
        final(out)@ == old(out)@ + dec_digits(n as nat),
    decreases n,
{
    if n < 10 {
        out.push(digit_to_char(n));
        proof {
            assert(old(out)@ + seq![digit_char(n as nat)] =~= old(out)@.push(
                digit_char(n as nat),
            ));
        }
    } else {
        push_digits(out, n / 10);
        out.push(digit_to_char(n % 10));
        proof {
            assert(old(out)@ + dec_digits((n / 10) as nat).push(digit_char((n % 10) as nat)) =~= (
            old(out)@ + dec_digits((n / 10) as nat)).push(digit_char((n % 10) as nat)));
        }
    }
}

/// Append the decimal rendering of a signed integer.
pub(crate) fn push_i32(out: &mut Vec<char>, v: i32)
    ensures
        final(out)@ == old(out)@ + render_int(v as int),
{
    if v < 0 {
        out.push('-');
        let m: u64 = (-(v as i64)) as u64;
        push_digits(out, m);
        proof {
            assert(old(out)@ + (seq!['-'] + dec_digits(m as nat)) =~= old(out)@.push('-')
                + dec_digits(m as nat));
        }
    } else {
        push_digits(out, v as u64);
    }
}

/// Append a string body with every character escaped.
fn push_escaped(out: &mut Vec<char>, s: &str)
    ensures
        final(out)@ == old(out)@ + escape(s@),
{
    let n = s.unicode_len();
    let mut i: usize = 0;
    while i < n
        invariant
            n == s@.len(),
            i <= n,
            out@ == old(out)@ + escape(s@.subrange(0, i as int)),
        decreases n - i,
    {
        let c = s.get_char(i);
        if c == '"' {
            out.push('\\');
            out.push('"');
        } else if c == '\\' {
            out.push('\\');
            out.push('\\');
        } else if c == '\n' {
            out.push('\\');
            out.push('n');
        } else if c == '\r' {
            out.push('\\');
            out.push('r');
        } else if c == '\t' {
            out.push('\\');
            out.push('t');
        } else {
            out.push(c);
        }
        proof {
            lemma_escape_push(s@.subrange(0, i as int), s@[i as int]);
            assert(s@.subrange(0, i + 1) =~= s@.subrange(0, i as int).push(s@[i as int]));
            assert(out@ =~= old(out)@ + escape(s@.subrange(0, i + 1)));
        }
        i = i + 1;
    }
    proof {
        assert(s@.subrange(0, n as int) =~= s@);
    }
}

/// Escaping a sequence extended by one character extends the escaped text
/// by that character's escape sequence.
proof fn lemma_escape_push(s: Seq<char>, c: char)
    ensures
        escape(s.push(c)) == escape(s) + escape_char(c),
    decreases s.len(),
{
    if s.len() == 0 {
        reveal_with_fuel(escape, 3);
        assert(s.push(c)[0] == c);
        assert(s.push(c).drop_first() =~= Seq::<char>::empty());
        assert(escape(s.push(c)) == escape_char(c) + escape(Seq::<char>::empty()));
        assert(escape(s.push(c)) =~= escape(s) + escape_char(c));
    } else {
        assert(s.push(c)[0] == s[0]);
        assert(s.push(c).drop_first() =~= s.drop_first().push(c));
        lemma_escape_push(s.drop_first(), c);
        assert(escape(s.push(c)) == escape_char(s[0]) + (escape(s.drop_first()) + escape_char(c)));
        assert(escape(s.push(c)) =~= escape(s) + escape_char(c));
    }
}

/// Append a quoted, escaped string.
fn push_string(out: &mut Vec<char>, s: &str)
    ensures
        final(out)@ == old(out)@ + render_string(s@),
{
    out.push('"');
    push_escaped(out, s);
    out.push('"');
    proof {
        assert(out@ =~= old(out)@ + (seq!['"'] + escape(s@) + seq!['"']));
    }
}

/// Append an optional string: `null` when absent.
fn push_opt_string(out: &mut Vec<char>, o: &Option<String>)
    ensures
        final(out)@ == old(out)@ + render_opt_string(crate::model::opt_string_view(*o)),
{
    match o {
        Option::Some(s) => push_string(out, s.as_str()),
        Option::None => push_lit(out, "null"),
    }
}

/// Append an optional integer: `null` when absent.
fn push_opt_i32(out: &mut Vec<char>, o: &Option<i32>)
    ensures
        final(out)@ == old(out)@ + render_opt_int(crate::model::opt_i32_view(*o)),
{
    match o {
        Option::Some(v) => push_i32(out, *v),
        Option::None => push_lit(out, "null"),
    }
}

/// Concatenation of character sequences is associative.
proof fn lemma_seq_assoc(x: Seq<char>, y: Seq<char>, z: Seq<char>)
    ensures
        (x + y) + z == x + (y + z),
{
    assert((x + y) + z =~= x + (y + z));
}

/// A task's rendering, flattened: appending its pieces one after the other
/// appends `render_task` as a whole.
proof fn lemma_render_task_flat(o: Seq<char>, t: TaskView)
    ensures
        o + "{\"id\":"@ + render_int(t.id) + ",\"title\":"@ + render_string(t.title)
            + ",\"description\":"@ + render_opt_string(t.description) + ",\"dueDate\":"@
            + render_opt_string(t.due_date) + ",\"status\":"@ + render_string(
            status_name(t.status),
        ) + ",\"priority\":"@ + render_opt_int(t.priority) + ",\"createdAt\":"@ + render_string(
            t.created_at,
        ) + ",\"updatedAt\":"@ + render_string(t.updated_at) + "}"@ == o + render_task(t),
{
    let a1 = "{\"id\":"@;
    let a2 = render_int(t.id);
    let a3 = ",\"title\":"@;
    let a4 = render_string(t.title);
    let a5 = ",\"description\":"@;
    let a6 = render_opt_string(t.description);
    let a7 = ",\"dueDate\":"@;
    let a8 = render_opt_string(t.due_date);
    let a9 = ",\"status\":"@;
    let a10 = render_string(status_name(t.status));
    let a11 = ",\"priority\":"@;
    let a12 = render_opt_int(t.priority);
    let a13 = ",\"createdAt\":"@;
    let a14 = render_string(t.created_at);
    let a15 = ",\"updatedAt\":"@;
    let a16 = render_string(t.updated_at);
    let a17 = "}"@;
    let r16 = a16 + a17;
    let r15 = a15 + r16;
    let r14 = a14 + r15;
    let r13 = a13 + r14;
    let r12 = a12 + r13;
    let r11 = a11 + r12;
    let r10 = a10 + r11;
    let r9 = a9 + r10;
    let r8 = a8 + r9;
    let r7 = a7 + r8;
    let r6 = a6 + r7;
    let r5 = a5 + r6;
    let r4 = a4 + r5;
    let r3 = a3 + r4;
    let r2 = a2 + r3;
    let r1 = a1 + r2;
    assert(render_task(t) == r1);
    let l1 = o + a1;
    let l2 = l1 + a2;
    let l3 = l2 + a3;
    let l4 = l3 + a4;
    let l5 = l4 + a5;
    let l6 = l5 + a6;
    let l7 = l6 + a7;
    let l8 = l7 + a8;
    let l9 = l8 + a9;
    let l10 = l9 + a10;
    let l11 = l10 + a11;
    let l12 = l11 + a12;
    let l13 = l12 + a13;
    let l14 = l13 + a14;
    let l15 = l14 + a15;
    let l16 = l15 + a16;
    let l17 = l16 + a17;
    lemma_seq_assoc(o, a1, r2);
    lemma_seq_assoc(l1, a2, r3);
    lemma_seq_assoc(l2, a3, r4);
    lemma_seq_assoc(l3, a4, r5);
    lemma_seq_assoc(l4, a5, r6);
    lemma_seq_assoc(l5, a6, r7);
    lemma_seq_assoc(l6, a7, r8);
    lemma_seq_assoc(l7, a8, r9);
    lemma_seq_assoc(l8, a9, r10);
    lemma_seq_assoc(l9, a10, r11);
    lemma_seq_assoc(l10, a11, r12);
    lemma_seq_assoc(l11, a12, r13);
    lemma_seq_assoc(l12, a13, r14);
    lemma_seq_assoc(l13, a14, r15);
    lemma_seq_assoc(l14, a15, r16);
    lemma_seq_assoc(l15, a16, a17);
    assert(o + render_task(t) == l17);
}

/// Append one task as a JSON object.
#[verifier::rlimit(50)]
fn push_task(out: &mut Vec<char>, t: &Task)
    ensures
        final(out)@ == old(out)@ + render_task(t@),
{
    push_lit(out, "{\"id\":");
    push_i32(out, t.id);
    push_lit(out, ",\"title\":");
    push_string(out, t.title.as_str());
    push_lit(out, ",\"description\":");
    push_opt_string(out, &t.description);
    push_lit(out, ",\"dueDate\":");
    push_opt_string(out, &t.due_date);
    push_lit(out, ",\"status\":");
    push_string(out, t.status.as_str());
    push_lit(out, ",\"priority\":");
    push_opt_i32(out, &t.priority);
    push_lit(out, ",\"createdAt\":");
    push_string(out, t.created_at.as_str());
    push_lit(out, ",\"updatedAt\":");
    push_string(out, t.updated_at.as_str());
    push_lit(out, "}");
    proof {
        lemma_render_task_flat(old(out)@, t@);
    }
}

/// The whole collection encoded as the canonical JSON array text.
pub fn encode_tasks(tasks: &Vec<Task>) -> (r: Vec<char>)
    ensures
        r@ == render_tasks(views_of(tasks@)),
{
    let ghost vs = views_of(tasks@);
    let mut out: Vec<char> = Vec::new();
    if tasks.len() == 0 {
        push_lit(&mut out, "[]");
        proof {
            assert(out@ =~= render_tasks(vs));
        }
        return out;
    }
    out.push('[');
    proof {
        assert(vs.skip(0) =~= vs);
        assert(out@ =~= seq!['[']);
    }
    let n = tasks.len();
    let mut i: usize = 0;
    while i < n
        invariant
            n == tasks@.len(),
            n >= 1,
            i <= n,
            vs == views_of(tasks@),
            vs.len() == n,
            forall|k: int| 0 <= k < n ==> vs[k] == tasks@[k]@,
            i < n ==> out@ + render_task_list(vs.skip(i as int)) == seq!['['] + render_task_list(
                vs,
            ),
            i == n ==> out@ == seq!['['] + render_task_list(vs),
        decreases n - i,
    {
        push_task(&mut out, &tasks[i]);
        proof {
            assert(vs.skip(i as int)[0] == vs[i as int]);
        }
        if i == n - 1 {
            out.push(']');
            proof {
                assert(vs.skip(i as int).len() == 1);
                assert(render_task_list(vs.skip(i as int)) =~= render_task(vs[i as int]) + seq![
                    ']',
                ]);
                assert(out@ =~= seq!['['] + render_task_list(vs));
            }
        } else {
            out.push(',');
            proof {
                assert(vs.skip(i as int).len() >= 2);
                assert(vs.skip(i as int).drop_first() =~= vs.skip(i + 1));
                assert(render_task_list(vs.skip(i as int)) =~= render_task(vs[i as int]) + seq![
                    ',',
                ] + render_task_list(vs.skip(i + 1)));
                assert(out@ + render_task_list(vs.skip(i + 1)) =~= seq!['['] + render_task_list(
                    vs,
                ));
            }
        }
        i = i + 1;
    }
    proof {
        assert(out@ =~= render_tasks(vs));
    }
    out
}

// ---------------------------------------------------------------------------
// The decoder
// ---------------------------------------------------------------------------

fn is_digit_ch(c: char) -> (r: bool)
    ensures
        r == is_digit(c),
{
    c == '0' || c == '1' || c == '2' || c == '3' || c == '4' || c == '5' || c == '6' || c == '7'
        || c == '8' || c == '9'
}

fn digit_val_ch(c: char) -> (r: u64)
    requires
        is_digit(c),
    ensures
        r == digit_val(c),
{
    if c == '0' {
        0
    } else if c == '1' {
        1
    } else if c == '2' {
        2
    } else if c == '3' {
        3
    } else if c == '4' {
        4
    } else if c == '5' {
        5
    } else if c == '6' {
        6
    } else if c == '7' {
        7
    } else if c == '8' {
        8
    } else {
        9
    }
}

fn unescape_ch(c: char) -> (r: Option<char>)
    ensures
        r == unescape_char(c),
{
    if c == '"' {
        Option::Some('"')
    } else if c == '\\' {
        Option::Some('\\')
    } else if c == 'n' {
        Option::Some('\n')
    } else if c == 'r' {
        Option::Some('\r')
    } else if c == 't' {
        Option::Some('\t')
    } else {
        Option::None
    }
}

/// Whether position `j` holds a digit.
fn digit_at(s: &Vec<char>, j: usize) -> (r: bool)
    ensures
        r == (j < s@.len() && is_digit(s@[j as int])),
{
    if j < s.len() {
        is_digit_ch(s[j])
    } else {
        false
    }
}

/// Expect the exact text `lit` at position `i`.
fn p_lit(s: &Vec<char>, i: usize, lit: &str) -> (r: Option<usize>)
    ensures
        match r {
            Option::Some(e) => parse_lit(s@, i as int, lit@) == Option::Some(e as int) && i <= e
                <= s@.len(),
            Option::None => parse_lit(s@, i as int, lit@) == Option::<int>::None,
        },
{
    let n = lit.unicode_len();
    let slen = s.len();
    if i > slen || n > slen - i {
        return Option::None;
    }
    let mut j: usize = 0;
    while j < n
        invariant
            n == lit@.len(),
            slen == s@.len(),
            i + n <= slen,
            j <= n,
            forall|k: int| 0 <= k < j ==> s@[i + k] == lit@[k],
        decreases n - j,
    {
        if s[i + j] != lit.get_char(j) {
            proof {
                assert(s@.subrange(i as int, i + n) != lit@) by {
                    if s@.subrange(i as int, i + n) == lit@ {
                        assert(s@.subrange(i as int, i + n)[j as int] == s@[i + j]);
                    }
                }
            }
            return Option::None;
        }
        j = j + 1;
    }
    proof {
        assert(s@.subrange(i as int, i + n) =~= lit@);
    }
    Option::Some(i + n)
}

/// Folding digits never decreases the accumulated value.
proof fn lemma_parse_digits_ge(s: Seq<char>, i: int, a: nat)
    ensures
        parse_digits(s, i, a).0 >= a,
    decreases s.len() - i,
{
    if 0 <= i && i < s.len() && is_digit(s[i]) {
        lemma_parse_digits_ge(s, i + 1, a * 10 + digit_val(s[i]));
    }
}

/// The maximal digit run from `i`, folded to its value; refused when the
/// value cannot be that of a 32-bit integer.
fn p_digits(s: &Vec<char>, i: usize) -> (r: Option<(u64, usize)>)
    requires
        i <= s@.len(),
    ensures
        match r {
            Option::Some(p) => parse_digits(s@, i as int, 0) == (p.0 as nat, p.1 as int) && i
                <= p.1 <= s@.len(),
            Option::None => parse_digits(s@, i as int, 0).0 > 2147483648,
        },
{
    let slen = s.len();
    let mut acc: u64 = 0;
    let mut j: usize = i;
    while digit_at(s, j)
        invariant
            slen == s@.len(),
            i <= j <= slen,
            parse_digits(s@, i as int, 0) == parse_digits(s@, j as int, acc as nat),
        decreases s@.len() - j,
    {
        let d = digit_val_ch(s[j]);
        if acc > 2147483648 {
            proof {
                lemma_parse_digits_ge(s@, j as int, acc as nat);
            }
            return Option::None;
        }
        acc = acc * 10 + d;
        j = j + 1;
    }
    Option::Some((acc, j))
}

/// A decimal integer fitting a 32-bit machine integer.
pub(crate) fn p_i32(s: &Vec<char>, i: usize) -> (r: Option<(i32, usize)>)
    ensures
        match r {
            Option::Some(p) => parse_i32(s@, i as int) == Option::Some((p.0 as int, p.1 as int))
                && i <= p.1 <= s@.len(),
            Option::None => parse_i32(s@, i as int) == Option::<(int, int)>::None,
        },
{
    let neg = i < s.len() && s[i] == '-';
    let j = if neg {
        i + 1
    } else {
        i
    };
    if j >= s.len() || !is_digit_ch(s[j]) {
        return Option::None;
    }
    match p_digits(s, j) {
        Option::None => Option::None,
        Option::Some((v, e)) => {
            if neg {
                if v <= 2147483648 {
                    Option::Some(((-(v as i64)) as i32, e))
                } else {
                    Option::None
                }
            } else {
                if v <= 2147483647 {
                    Option::Some((v as i32, e))
                } else {
                    Option::None
                }
            }
        },
    }
}

/// The body of a quoted string, from just after the opening quote to just
/// after the closing quote.
fn p_str_body(s: &Vec<char>, i: usize) -> (r: Option<(Vec<char>, usize)>)
    requires
        i <= s@.len(),
    ensures
        match r {
            Option::Some(p) => parse_str_body(s@, i as int) == Option::Some(
                (p.0@, p.1 as int),
            ) && i < p.1 <= s@.len(),
            Option::None => parse_str_body(s@, i as int) == Option::<(Seq<char>, int)>::None,
        },
{
    let mut acc: Vec<char> = Vec::new();
    let mut j: usize = i;
    loop
        invariant
            i <= j <= s@.len(),
            parse_str_body(s@, i as int) == (match parse_str_body(s@, j as int) {
                Option::Some(p) => Option::Some((acc@ + p.0, p.1)),
                Option::None => Option::<(Seq<char>, int)>::None,
            }),
        decreases s@.len() - j,
    {
        if j >= s.len() {
            return Option::None;
        }
        let c = s[j];
        if c == '"' {
            proof {
                assert(acc@ + Seq::<char>::empty() =~= acc@);
            }
            return Option::Some((acc, j + 1));
        } else if c == '\\' {
            if j + 1 >= s.len() {
                return Option::None;
            }
            let esc = s[j + 1];
            match unescape_ch(esc) {
                Option::None => {
                    return Option::None;
                },
                Option::Some(u) => {
                    proof {
                        match parse_str_body(s@, j + 2) {
                            Option::Some(p2) => {
                                assert(acc@ + (seq![u] + p2.0) =~= acc@.push(u) + p2.0);
                            },
                            Option::None => {},
                        }
                    }
                    acc.push(u);
                    j = j + 2;
                },
            }
        } else {
            proof {
                match parse_str_body(s@, j + 1) {
                    Option::Some(p2) => {
                        assert(acc@ + (seq![c] + p2.0) =~= acc@.push(c) + p2.0);
                    },
                    Option::None => {},
                }
            }
            acc.push(c);
            j = j + 1;
        }
    }
}

/// A quoted string.
fn p_string(s: &Vec<char>, i: usize) -> (r: Option<(Vec<char>, usize)>)
    ensures
        match r {
            Option::Some(p) => parse_string(s@, i as int) == Option::Some(
                (p.0@, p.1 as int),
            ) && i < p.1 <= s@.len(),
            Option::None => parse_string(s@, i as int) == Option::<(Seq<char>, int)>::None,
        },
{
    if i >= s.len() {
        return Option::None;
    }
    if s[i] != '"' {
        return Option::None;
    }
    p_str_body(s, i + 1)
}

/// `null` or a quoted string.
fn p_opt_string(s: &Vec<char>, i: usize) -> (r: Option<(Option<String>, usize)>)
    ensures
        match r {
            Option::Some(p) => parse_opt_string(s@, i as int) == Option::Some(
                (crate::model::opt_string_view(p.0), p.1 as int),
            ) && i <= p.1 <= s@.len(),
            Option::None => parse_opt_string(s@, i as int) == Option::<(
                Option<Seq<char>>,
                int,
            )>::None,
        },
{
    match p_lit(s, i, "null") {
        Option::Some(e) => Option::Some((Option::None, e)),
        Option::None => match p_string(s, i) {
            Option::Some((v, e)) => {
                let st = crate::text::chars_to_string(&v);
                Option::Some((Option::Some(st), e))
            },
            Option::None => Option::None,
        },
    }
}

/// `null` or a decimal integer.
fn p_opt_i32(s: &Vec<char>, i: usize) -> (r: Option<(Option<i32>, usize)>)
    ensures
        match r {
            Option::Some(p) => parse_opt_i32(s@, i as int) == Option::Some(
                (crate::model::opt_i32_view(p.0), p.1 as int),
            ) && i <= p.1 <= s@.len(),
            Option::None => parse_opt_i32(s@, i as int) == Option::<(Option<int>, int)>::None,
        },
{
    match p_lit(s, i, "null") {
        Option::Some(e) => Option::Some((Option::None, e)),
        Option::None => match p_i32(s, i) {
            Option::Some((v, e)) => Option::Some((Option::Some(v), e)),
            Option::None => Option::None,
        },
    }
}

/// A quoted status identifier.
fn p_status(s: &Vec<char>, i: usize) -> (r: Option<(Status, usize)>)
    ensures
        match r {
            Option::Some(p) => parse_status(s@, i as int) == Option::Some(
                (p.0, p.1 as int),
            ) && i <= p.1 <= s@.len(),
            Option::None => parse_status(s@, i as int) == Option::<(Status, int)>::None,
        },
{
    match p_string(s, i) {
        Option::None => Option::None,
        Option::Some((v, e)) => {
            if crate::text::chars_eq_str(&v, "Todo") {
                Option::Some((Status::Todo, e))
            } else if crate::text::chars_eq_str(&v, "InProgress") {
                Option::Some((Status::InProgress, e))
            } else if crate::text::chars_eq_str(&v, "Done") {
                Option::Some((Status::Done, e))
            } else if crate::text::chars_eq_str(&v, "Closed") {
                Option::Some((Status::Closed, e))
            } else {
                Option::None
            }
        },
    }
}

/// One task object.
#[verifier::rlimit(50)]
fn p_task(s: &Vec<char>, i: usize) -> (r: Option<(Task, usize)>)
    ensures
        match r {
            Option::Some(p) => parse_task(s@, i as int) == Option::Some(
                (p.0@, p.1 as int),
            ) && i < p.1 <= s@.len(),
            Option::None => parse_task(s@, i as int) == Option::<(TaskView, int)>::None,
        },
{
    let e1 = match p_lit(s, i, "{\"id\":") {
        Option::Some(e) => e,
        Option::None => {
            return Option::None;
        },
    };
    let (id, e2) = match p_i32(s, e1) {
        Option::Some(p) => p,
        Option::None => {
            return Option::None;
        },
    };
    let e3 = match p_lit(s, e2, ",\"title\":") {
        Option::Some(e) => e,
        Option::None => {
            return Option::None;
        },
    };
    let (title_v, e4) = match p_string(s, e3) {
        Option::Some(p) => p,
        Option::None => {
            return Option::None;
        },
    };
    let e5 = match p_lit(s, e4, ",\"description\":") {
        Option::Some(e) => e,
        Option::None => {
            return Option::None;
        },
    };
    let (descr, e6) = match p_opt_string(s, e5) {
        Option::Some(p) => p,
        Option::None => {
            return Option::None;
        },
    };
    let e7 = match p_lit(s, e6, ",\"dueDate\":") {
        Option::Some(e) => e,
        Option::None => {
            return Option::None;
        },
    };
    let (due, e8) = match p_opt_string(s, e7) {
        Option::Some(p) => p,
        Option::None => {
            return Option::None;
        },
    };
    let e9 = match p_lit(s, e8, ",\"status\":") {
        Option::Some(e) => e,
        Option::None => {
            return Option::None;
        },
    };
    let (st, e10) = match p_status(s, e9) {
        Option::Some(p) => p,
        Option::None => {
            return Option::None;
        },
    };
    let e11 = match p_lit(s, e10, ",\"priority\":") {
        Option::Some(e) => e,
        Option::None => {
            return Option::None;
        },
    };
    let (prio, e12) = match p_opt_i32(s, e11) {
        Option::Some(p) => p,
        Option::None => {
            return Option::None;
        },
    };
    let e13 = match p_lit(s, e12, ",\"createdAt\":") {
        Option::Some(e) => e,
        Option::None => {
            return Option::None;
        },
    };
    let (created_v, e14) = match p_string(s, e13) {
        Option::Some(p) => p,
        Option::None => {
            return Option::None;
        },
    };
    let e15 = match p_lit(s, e14, ",\"updatedAt\":") {
        Option::Some(e) => e,
        Option::None => {
            return Option::None;
        },
    };
    let (updated_v, e16) = match p_string(s, e15) {
        Option::Some(p) => p,
        Option::None => {
            return Option::None;
        },
    };
    let e17 = match p_lit(s, e16, "}") {
        Option::Some(e) => e,
        Option::None => {
            return Option::None;
        },
    };
    let task = Task {
        id: id,
        title: crate::text::chars_to_string(&title_v),
        description: descr,
        due_date: due,
        status: st,
        priority: prio,
        created_at: crate::text::chars_to_string(&created_v),
        updated_at: crate::text::chars_to_string(&updated_v),
    };
    proof {
        reveal_strlit("}");
        assert(parse_task(s@, i as int) == Option::Some((task@, e17 as int)));
    }
    Option::Some((task, e17))
}

/// One or more task objects separated by commas, up to the closing
/// bracket.
fn p_task_list(s: &Vec<char>, i: usize) -> (r: Option<(Vec<Task>, usize)>)
    requires
        i <= s@.len(),
    ensures
        match r {
            Option::Some(p) => parse_task_list(s@, i as int) == Option::Some(
                (views_of(p.0@), p.1 as int),
            ) && p.1 <= s@.len(),
            Option::None => parse_task_list(s@, i as int) == Option::<(Seq<TaskView>, int)>::None,
        },
{
    let mut acc: Vec<Task> = Vec::new();
    let mut j: usize = i;
    loop
        invariant
            i <= j <= s@.len(),
            parse_task_list(s@, i as int) == (match parse_task_list(s@, j as int) {
                Option::Some(p) => Option::Some((views_of(acc@) + p.0, p.1)),
                Option::None => Option::<(Seq<TaskView>, int)>::None,
            }),
        decreases s@.len() - j,
    {
        let (t, e) = match p_task(s, j) {
            Option::Some(p) => p,
            Option::None => {
                return Option::None;
            },
        };
        if e < s.len() && s[e] == ']' {
            proof {
                assert(views_of(acc@.push(t)) =~= views_of(acc@) + seq![t@]);
            }
            acc.push(t);
            return Option::Some((acc, e + 1));
        } else if e < s.len() && s[e] == ',' {
            proof {
                match parse_task_list(s@, e + 1) {
                    Option::Some(p2) => {
                        assert(views_of(acc@) + (seq![t@] + p2.0) =~= views_of(acc@.push(t))
                            + p2.0);
                        assert(views_of(acc@.push(t)) =~= views_of(acc@) + seq![t@]);
                    },
                    Option::None => {
                        assert(views_of(acc@.push(t)) =~= views_of(acc@) + seq![t@]);
                    },
                }
            }
            acc.push(t);
            j = e + 1;
        } else {
            return Option::None;
        }
    }
}

/// The decoding of a whole stored text into tasks: the collection the text
/// canonically encodes, or nothing when it encodes none.
pub fn decode_tasks(s: &Vec<char>) -> (r: Option<Vec<Task>>)
    ensures
        match r {
            Option::Some(v) => decode_spec(s@) == Option::Some(views_of(v@)),
            Option::None => decode_spec(s@) == Option::<Seq<TaskView>>::None,
        },
{
    match p_lit(s, 0, "[]") {
        Option::Some(e) => {
            if e == s.len() {
                let empty: Vec<Task> = Vec::new();
                proof {
                    assert(views_of(empty@) =~= Seq::<TaskView>::empty());
                }
                Option::Some(empty)
            } else {
                Option::None
            }
        },
        Option::None => match p_lit(s, 0, "[") {
            Option::Some(e) => match p_task_list(s, e) {
                Option::Some((v, e2)) => {
                    if e2 == s.len() {
                        Option::Some(v)
                    } else {
                        Option::None
                    }
                },
                Option::None => Option::None,
            },
            Option::None => Option::None,
        },
    }
}

} // verus!
