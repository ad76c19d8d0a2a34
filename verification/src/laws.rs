//! The library's laws. Of the codec: the decoder inverts the encoder, so
//! whatever collection is saved, loading the saved text yields the same
//! collection, field for field and in the same order. Of creation: a run
//! of accepted submissions grows the collection by exactly one task per
//! submission, in submission order, with the Kth created task carrying
//! identifier K, a defaulted status and priority where the draft had none,
//! and equal creation and update timestamps.

use vstd::prelude::*;

use crate::codec::{
    dec_digits, decode_spec, digit_char, digit_val, escape, escape_char, is_digit, parse_digits,
    parse_i32, parse_lit, parse_opt_i32, parse_opt_string, parse_status, parse_str_body,
    parse_string, parse_task, parse_task_list, parse_tasks, render_int, render_opt_int,
    render_opt_string, render_string, render_task, render_task_list, render_tasks, status_of_name,
};
use crate::controller::make_task;
use crate::intake::{intake_spec, lookup};
use crate::model::{NewTaskView, Status, Task, TaskView, status_name, views_of};

verus! {

/// Whether every character of the sequence is a decimal digit.
pub open spec fn all_digits(ds: Seq<char>) -> bool {
    forall|k: int| 0 <= k < ds.len() ==> is_digit(ds[k])
}

/// The value of a digit run folded onto an accumulator, front to back.
pub open spec fn fold_acc(ds: Seq<char>, a: nat) -> nat
    decreases ds.len(),
{
    if ds.len() == 0 {
        a
    } else {
        fold_acc(ds.drop_first(), a * 10 + digit_val(ds[0]))
    }
}

proof fn lemma_fold_snoc(ds: Seq<char>, d: char, a: nat)
    ensures
        fold_acc(ds.push(d), a) == fold_acc(ds, a) * 10 + digit_val(d),
    decreases ds.len(),
{
    if ds.len() == 0 {
        reveal_with_fuel(fold_acc, 3);
        assert(ds.push(d)[0] == d);
        assert(ds.push(d).drop_first() =~= Seq::<char>::empty());
        assert(fold_acc(ds.push(d), a) == fold_acc(Seq::<char>::empty(), a * 10 + digit_val(d)));
    } else {
        assert(ds.push(d)[0] == ds[0]);
        assert(ds.push(d).drop_first() =~= ds.drop_first().push(d));
        lemma_fold_snoc(ds.drop_first(), d, a * 10 + digit_val(ds[0]));
    }
}

proof fn lemma_dec_digits_all_digits(n: nat)
    ensures
        all_digits(dec_digits(n)),
        dec_digits(n).len() >= 1,
    decreases n,
{
    if n < 10 {
        assert(is_digit(digit_char(n)));
        assert(dec_digits(n)[0] == digit_char(n));
    } else {
        lemma_dec_digits_all_digits(n / 10);
        let pre = dec_digits(n / 10);
        assert(forall|k: int|
            0 <= k < pre.push(digit_char(n % 10)).len() ==> is_digit(
                #[trigger] pre.push(digit_char(n % 10))[k],
            ) ) by {
            assert(forall|k: int|
                0 <= k < pre.len() ==> pre.push(digit_char(n % 10))[k] == #[trigger] pre[k]);
            assert(pre.push(digit_char(n % 10))[pre.len() as int] == digit_char(n % 10));
            assert(is_digit(digit_char(n % 10)));
        }
    }
}

proof fn lemma_fold_dec(n: nat)
    ensures
        fold_acc(dec_digits(n), 0) == n,
    decreases n,
{
    if n < 10 {
        reveal_with_fuel(fold_acc, 3);
        assert(dec_digits(n)[0] == digit_char(n));
        assert(dec_digits(n).drop_first() =~= Seq::<char>::empty());
        assert(digit_val(digit_char(n)) == n);
        assert(fold_acc(dec_digits(n), 0) == fold_acc(Seq::<char>::empty(), digit_val(digit_char(n))));
    } else {
        lemma_fold_dec(n / 10);
        lemma_fold_snoc(dec_digits(n / 10), digit_char(n % 10), 0);
        assert(digit_val(digit_char(n % 10)) == n % 10);
    }
}

/// Folding a known digit run moves the position past it and folds its
/// digits onto the accumulator.
proof fn lemma_parse_digits_append(s: Seq<char>, i: int, ds: Seq<char>, a: nat)
    requires
        0 <= i,
        i + ds.len() <= s.len(),
        s.subrange(i, i + ds.len()) == ds,
        all_digits(ds),
    ensures
        parse_digits(s, i, a) == parse_digits(s, i + ds.len(), fold_acc(ds, a)),
    decreases ds.len(),
{
    if ds.len() == 0 {
    } else {
        assert(s.subrange(i, i + ds.len())[0] == s[i]);
        assert(s[i] == ds[0]);
        assert(is_digit(ds[0]));
        let ds2 = ds.drop_first();
        assert(s.subrange(i + 1, i + 1 + ds2.len()) =~= ds2) by {
            assert(forall|k: int|
                0 <= k < ds2.len() ==> s.subrange(i + 1, i + 1 + ds2.len())[k] == s[i + 1 + k]
                    && #[trigger] ds2[k] == ds[k + 1] && s.subrange(i, i + ds.len())[k + 1] == s[i
                    + 1 + k]);
        }
        assert(all_digits(ds2)) by {
            assert(forall|k: int| 0 <= k < ds2.len() ==> #[trigger] ds2[k] == ds[k + 1]);
        }
        lemma_parse_digits_append(s, i + 1, ds2, a * 10 + digit_val(ds[0]));
    }
}

/// A rendered integer parses back to itself when what follows it is not a
/// digit.
proof fn lemma_parse_int_rt(s: Seq<char>, i: int, v: int)
    requires
        0 <= i,
        i + render_int(v).len() <= s.len(),
        s.subrange(i, i + render_int(v).len()) == render_int(v),
        i + render_int(v).len() == s.len() || !is_digit(s[i + render_int(v).len()]),
        i32::MIN <= v <= i32::MAX,
    ensures
        parse_i32(s, i) == Option::Some((v, i + render_int(v).len())),
{
    let r = render_int(v);
    let l = r.len();
    if v >= 0 {
        let n = v as nat;
        lemma_dec_digits_all_digits(n);
        assert(s.subrange(i, i + l)[0] == s[i]);
        assert(s[i] == dec_digits(n)[0]);
        assert(is_digit(s[i]));
        assert(s[i] != '-');
        lemma_parse_digits_append(s, i, dec_digits(n), 0);
        lemma_fold_dec(n);
        assert(parse_digits(s, i + l, n) == (n, i + l));
    } else {
        let n = (-v) as nat;
        lemma_dec_digits_all_digits(n);
        assert(s.subrange(i, i + l)[0] == s[i]);
        assert(s[i] == '-');
        let ds = dec_digits(n);
        assert(s.subrange(i + 1, i + 1 + ds.len()) =~= ds) by {
            assert(forall|k: int|
                0 <= k < ds.len() ==> s.subrange(i + 1, i + 1 + ds.len())[k] == s[i + 1 + k]
                    && s.subrange(i, i + l)[k + 1] == s[i + 1 + k] && render_int(v)[k + 1]
                    == #[trigger] ds[k]);
        }
        assert(s.subrange(i + 1, i + 1 + ds.len())[0] == s[i + 1]);
        assert(is_digit(s[i + 1]));
        lemma_parse_digits_append(s, i + 1, ds, 0);
        lemma_fold_dec(n);
        assert(parse_digits(s, i + 1 + ds.len(), n) == (n, i + l));
    }
}

/// An escaped body followed by a closing quote parses back to the
/// characters it was made from.
proof fn lemma_parse_str_body_rt(s: Seq<char>, i: int, v: Seq<char>)
    requires
        0 <= i,
        i + escape(v).len() + 1 <= s.len(),
        s.subrange(i, i + escape(v).len()) == escape(v),
        s[i + escape(v).len()] == '"',
    ensures
        parse_str_body(s, i) == Option::Some((v, i + escape(v).len() + 1)),
    decreases v.len(),
{
    if v.len() == 0 {
        assert(v =~= Seq::<char>::empty());
        assert(s[i] == '"');
    } else {
        let c = v[0];
        let v2 = v.drop_first();
        let ec = escape_char(c);
        let el = ec.len();
        assert(escape(v) == ec + escape(v2));
        assert(forall|k: int|
            0 <= k < escape(v).len() ==> #[trigger] s.subrange(i, i + escape(v).len())[k] == s[i
                + k]);
        assert forall|k: int| 0 <= k < el implies s[i + k] == #[trigger] ec[k] by {
            assert(s.subrange(i, i + escape(v).len())[k] == s[i + k]);
            assert((ec + escape(v2))[k] == ec[k]);
        }
        assert(s.subrange(i + el, i + el + escape(v2).len()) =~= escape(v2)) by {
            assert(forall|k: int|
                0 <= k < escape(v2).len() ==> s.subrange(i + el, i + el + escape(v2).len())[k]
                    == s[i + el + k] && (ec + escape(v2))[el + k] == #[trigger] escape(v2)[k]);
        }
        assert(s[i + el + escape(v2).len()] == '"');
        lemma_parse_str_body_rt(s, i + el, v2);
        assert(seq![c] + v2 =~= v);
        if c == '"' || c == '\\' || c == '\n' || c == '\r' || c == '\t' {
            assert(el == 2);
            assert(s[i] == '\\');
            assert(crate::codec::unescape_char(s[i + 1]) == Option::Some(c));
        } else {
            assert(el == 1);
            assert(s[i] == c);
        }
    }
}

/// A rendered string parses back to itself.
proof fn lemma_parse_string_rt(s: Seq<char>, i: int, v: Seq<char>)
    requires
        0 <= i,
        i + render_string(v).len() <= s.len(),
        s.subrange(i, i + render_string(v).len()) == render_string(v),
    ensures
        parse_string(s, i) == Option::Some((v, i + render_string(v).len())),
{
    let el = escape(v).len() as int;
    assert(forall|k: int|
        0 <= k < render_string(v).len() ==> #[trigger] s.subrange(i, i + render_string(v).len())[k]
            == s[i + k]);
    assert(render_string(v)[0] == '"');
    assert(s[i] == '"');
    assert(s.subrange(i + 1, i + 1 + el) =~= escape(v)) by {
        assert(forall|k: int|
            0 <= k < el ==> s.subrange(i + 1, i + 1 + el)[k] == s[i + 1 + k] && render_string(
                v,
            )[1 + k] == #[trigger] escape(v)[k]);
    }
    assert(render_string(v)[1 + el] == '"');
    assert(s[i + 1 + el] == '"');
    lemma_parse_str_body_rt(s, i + 1, v);
}

/// A rendered optional string parses back to itself.
proof fn lemma_parse_opt_string_rt(s: Seq<char>, i: int, o: Option<Seq<char>>)
    requires
        0 <= i,
        i + render_opt_string(o).len() <= s.len(),
        s.subrange(i, i + render_opt_string(o).len()) == render_opt_string(o),
    ensures
        parse_opt_string(s, i) == Option::Some((o, i + render_opt_string(o).len())),
{
    match o {
        Option::None => {
            assert(parse_lit(s, i, "null"@) == Option::Some(i + "null"@.len()));
        },
        Option::Some(v) => {
            reveal_strlit("null");
            assert(s.subrange(i, i + render_string(v).len())[0] == s[i]);
            assert(s[i] == '"');
            assert(parse_lit(s, i, "null"@) == Option::<int>::None) by {
                if parse_lit(s, i, "null"@) is Some {
                    assert(s.subrange(i, i + 4)[0] == s[i]);
                }
            }
            lemma_parse_string_rt(s, i, v);
        },
    }
}

/// A rendered optional integer parses back to itself when what follows is
/// not a digit.
proof fn lemma_parse_opt_int_rt(s: Seq<char>, i: int, o: Option<int>)
    requires
        0 <= i,
        i + render_opt_int(o).len() <= s.len(),
        s.subrange(i, i + render_opt_int(o).len()) == render_opt_int(o),
        i + render_opt_int(o).len() == s.len() || !is_digit(s[i + render_opt_int(o).len()]),
        o matches Option::Some(v) ==> i32::MIN <= v <= i32::MAX,
    ensures
        parse_opt_i32(s, i) == Option::Some((o, i + render_opt_int(o).len())),
{
    match o {
        Option::None => {
            assert(parse_lit(s, i, "null"@) == Option::Some(i + "null"@.len()));
        },
        Option::Some(v) => {
            reveal_strlit("null");
            assert(s.subrange(i, i + render_int(v).len())[0] == s[i]);
            if v >= 0 {
                lemma_dec_digits_all_digits(v as nat);
                assert(render_int(v)[0] == dec_digits(v as nat)[0]);
                assert(is_digit(s[i]));
            } else {
                assert(render_int(v)[0] == '-');
                assert(s[i] == '-');
            }
            assert(parse_lit(s, i, "null"@) == Option::<int>::None) by {
                if parse_lit(s, i, "null"@) is Some {
                    assert(s.subrange(i, i + 4)[0] == s[i]);
                }
            }
            lemma_parse_int_rt(s, i, v);
        },
    }
}

/// A rendered status identifier parses back to its variant.
proof fn lemma_parse_status_rt(s: Seq<char>, i: int, st: crate::model::Status)
    requires
        0 <= i,
        i + render_string(status_name(st)).len() <= s.len(),
        s.subrange(i, i + render_string(status_name(st)).len()) == render_string(status_name(st)),
    ensures
        parse_status(s, i) == Option::Some((st, i + render_string(status_name(st)).len())),
{
    lemma_parse_string_rt(s, i, status_name(st));
    reveal_strlit("Todo");
    reveal_strlit("InProgress");
    reveal_strlit("Done");
    reveal_strlit("Closed");
    assert(status_of_name(status_name(st)) == Option::Some(st));
}

/// A known stretch of text that is a concatenation splits into its two
/// parts.
proof fn lemma_split(s: Seq<char>, i: int, a: Seq<char>, b: Seq<char>)
    requires
        0 <= i,
        i + a.len() + b.len() <= s.len(),
        s.subrange(i, i + a.len() + b.len()) == a + b,
    ensures
        s.subrange(i, i + a.len()) == a,
        s.subrange(i + a.len(), i + a.len() + b.len()) == b,
{
    assert forall|k: int| 0 <= k < a.len() implies #[trigger] s.subrange(i, i + a.len())[k]
        == a[k] by {
        assert(s.subrange(i, i + a.len() + b.len())[k] == s[i + k]);
        assert((a + b)[k] == a[k]);
        assert(s.subrange(i, i + a.len())[k] == s[i + k]);
    }
    assert(s.subrange(i, i + a.len()) =~= a);
    assert forall|k: int|
        0 <= k < b.len() implies #[trigger] s.subrange(i + a.len(), i + a.len() + b.len())[k]
        == b[k] by {
        assert(s.subrange(i, i + a.len() + b.len())[a.len() + k] == s[i + a.len() + k]);
        assert((a + b)[a.len() + k] == b[k]);
        assert(s.subrange(i + a.len(), i + a.len() + b.len())[k] == s[i + a.len() + k]);
    }
    assert(s.subrange(i + a.len(), i + a.len() + b.len()) =~= b);
}

/// Whether a task's numeric fields fit 32-bit machine integers, so that
/// its rendering can be decoded back.
pub open spec fn wf_task(t: TaskView) -> bool {
    &&& i32::MIN <= t.id <= i32::MAX
    &&& match t.priority {
        Option::Some(p) => i32::MIN <= p <= i32::MAX,
        Option::None => true,
    }
}

pub open spec fn wf_tasks(ts: Seq<TaskView>) -> bool {
    forall|k: int| 0 <= k < ts.len() ==> wf_task(#[trigger] ts[k])
}

/// A rendered task parses back to itself.
#[verifier::rlimit(100)]
proof fn lemma_parse_task_rt(s: Seq<char>, i: int, t: TaskView)
    requires
        0 <= i,
        i + render_task(t).len() <= s.len(),
        s.subrange(i, i + render_task(t).len()) == render_task(t),
        wf_task(t),
    ensures
        parse_task(s, i) == Option::Some((t, i + render_task(t).len())),
        render_task(t).len() >= 1,
{
    let a1 = "{\"id\":"@;
    let a2 = render_int(t.id);
    let a3 = ",\"title\":"@;
    let a4 = render_string(t.title);
    let a5 = ",\"description\":"@;
    let a6 = render_opt_string(t.description);
    let a7 = ",\"dueDate\":"@;
    let a8 = render_opt_string(t.due_date);
    let a9 = ",\"status\":"@;
    let a10 = render_string(status_name(t.status));
    let a11 = ",\"priority\":"@;
    let a12 = render_opt_int(t.priority);
    let a13 = ",\"createdAt\":"@;
    let a14 = render_string(t.created_at);
    let a15 = ",\"updatedAt\":"@;
    let a16 = render_string(t.updated_at);
    let a17 = "}"@;
    let r17 = a17;
    let r16 = a16 + r17;
    let r15 = a15 + r16;
    let r14 = a14 + r15;
    let r13 = a13 + r14;
    let r12 = a12 + r13;
    let r11 = a11 + r12;
    let r10 = a10 + r11;
    let r9 = a9 + r10;
    let r8 = a8 + r9;
    let r7 = a7 + r8;
    let r6 = a6 + r7;
    let r5 = a5 + r6;
    let r4 = a4 + r5;
    let r3 = a3 + r4;
    let r2 = a2 + r3;
    let r1 = a1 + r2;
    assert(render_task(t) == r1);
    let p1 = i + a1.len();
    let p2 = p1 + a2.len();
    let p3 = p2 + a3.len();
    let p4 = p3 + a4.len();
    let p5 = p4 + a5.len();
    let p6 = p5 + a6.len();
    let p7 = p6 + a7.len();
    let p8 = p7 + a8.len();
    let p9 = p8 + a9.len();
    let p10 = p9 + a10.len();
    let p11 = p10 + a11.len();
    let p12 = p11 + a12.len();
    let p13 = p12 + a13.len();
    let p14 = p13 + a14.len();
    let p15 = p14 + a15.len();
    let p16 = p15 + a16.len();
    let p17 = p16 + a17.len();
    lemma_split(s, i, a1, r2);
    lemma_split(s, p1, a2, r3);
    lemma_split(s, p2, a3, r4);
    lemma_split(s, p3, a4, r5);
    lemma_split(s, p4, a5, r6);
    lemma_split(s, p5, a6, r7);
    lemma_split(s, p6, a7, r8);
    lemma_split(s, p7, a8, r9);
    lemma_split(s, p8, a9, r10);
    lemma_split(s, p9, a10, r11);
    lemma_split(s, p10, a11, r12);
    lemma_split(s, p11, a12, r13);
    lemma_split(s, p12, a13, r14);
    lemma_split(s, p13, a14, r15);
    lemma_split(s, p14, a15, r16);
    lemma_split(s, p15, a16, r17);
    reveal_strlit(",\"title\":");
    reveal_strlit(",\"createdAt\":");
    assert(s.subrange(p2, p3)[0] == s[p2]);
    assert(s[p2] == ',');
    assert(!is_digit(s[p2]));
    assert(s.subrange(p12, p13)[0] == s[p12]);
    assert(s[p12] == ',');
    assert(!is_digit(s[p12]));
    assert(parse_lit(s, i, a1) == Option::Some(p1));
    lemma_parse_int_rt(s, p1, t.id);
    assert(parse_lit(s, p2, a3) == Option::Some(p3));
    lemma_parse_string_rt(s, p3, t.title);
    assert(parse_lit(s, p4, a5) == Option::Some(p5));
    lemma_parse_opt_string_rt(s, p5, t.description);
    assert(parse_lit(s, p6, a7) == Option::Some(p7));
    lemma_parse_opt_string_rt(s, p7, t.due_date);
    assert(parse_lit(s, p8, a9) == Option::Some(p9));
    lemma_parse_status_rt(s, p9, t.status);
    assert(parse_lit(s, p10, a11) == Option::Some(p11));
    lemma_parse_opt_int_rt(s, p11, t.priority);
    assert(parse_lit(s, p12, a13) == Option::Some(p13));
    lemma_parse_string_rt(s, p13, t.created_at);
    assert(parse_lit(s, p14, a15) == Option::Some(p15));
    lemma_parse_string_rt(s, p15, t.updated_at);
    assert(parse_lit(s, p16, a17) == Option::Some(p17));
    assert(parse_task(s, i) == Option::Some((t, p17)));
}

/// A rendered non-empty task list parses back to itself.
#[verifier::rlimit(100)]
proof fn lemma_parse_task_list_rt(s: Seq<char>, i: int, ts: Seq<TaskView>)
    requires
        0 <= i,
        ts.len() >= 1,
        wf_tasks(ts),
        i + render_task_list(ts).len() <= s.len(),
        s.subrange(i, i + render_task_list(ts).len()) == render_task_list(ts),
    ensures
        parse_task_list(s, i) == Option::Some((ts, i + render_task_list(ts).len())),
    decreases ts.len(),
{
    let t0 = ts[0];
    let a = render_task(t0);
    assert(wf_task(t0));
    if ts.len() == 1 {
        assert(render_task_list(ts) == a + seq![']']);
        lemma_split(s, i, a, seq![']']);
        lemma_parse_task_rt(s, i, t0);
        let e = i + a.len();
        assert(s.subrange(e, e + 1)[0] == s[e]);
        assert(s[e] == ']');
        assert(seq![t0] =~= ts);
        assert(parse_task_list(s, i) == Option::Some((ts, e + 1)));
    } else {
        let ts2 = ts.drop_first();
        assert(wf_tasks(ts2)) by {
            assert(forall|k: int| 0 <= k < ts2.len() ==> #[trigger] ts2[k] == ts[k + 1]);
        }
        let rest = render_task_list(ts2);
        assert(render_task_list(ts) == a + (seq![','] + rest));
        lemma_split(s, i, a, seq![','] + rest);
        let e = i + a.len();
        lemma_split(s, e, seq![','], rest);
        lemma_parse_task_rt(s, i, t0);
        assert(s.subrange(e, e + 1)[0] == s[e]);
        assert(s[e] == ',');
        assert(s[e] != ']');
        lemma_parse_task_list_rt(s, e + 1, ts2);
        assert(seq![t0] + ts2 =~= ts);
        assert(parse_task_list(s, i) == Option::Some((ts, i + render_task_list(ts).len())));
    }
}

/// THE ROUND TRIP: decoding the canonical encoding of any collection whose
/// numeric fields fit 32-bit machine integers yields exactly that
/// collection, order-preserving and field-exact.
pub proof fn lemma_encode_decode(ts: Seq<TaskView>)
    requires
        wf_tasks(ts),
    ensures
        decode_spec(render_tasks(ts)) == Option::Some(ts),
{
    let s = render_tasks(ts);
    if ts.len() == 0 {
        assert(s == "[]"@);
        assert(s.subrange(0, s.len() as int) =~= s);
        assert(parse_lit(s, 0, "[]"@) == Option::Some(s.len() as int));
        assert(ts =~= Seq::<TaskView>::empty());
    } else {
        let rest = render_task_list(ts);
        assert(s == seq!['['] + rest);
        assert(s.subrange(0, s.len() as int) =~= s);
        lemma_split(s, 0, seq!['['], rest);
        lemma_parse_task_list_rt(s, 1, ts);
        reveal_strlit("[]");
        reveal_strlit("[");
        reveal_strlit("{\"id\":");
        assert(render_task(ts[0])[0] == '{');
        assert(rest[0] == render_task(ts[0])[0]);
        assert(s[1] == rest[0]);
        assert(parse_lit(s, 0, "[]"@) == Option::<int>::None) by {
            if parse_lit(s, 0, "[]"@) is Some {
                assert(s.subrange(0, 2)[1] == s[1]);
                assert(s[1] == ']');
            }
        }
        assert(s.subrange(0, 1) =~= "["@) by {
            assert(s.subrange(0, 1)[0] == s[0]);
        }
        assert(parse_lit(s, 0, "["@) == Option::Some(1int));
        assert(parse_tasks(s, 0) == Option::Some((ts, s.len() as int)));
    }
}

/// The round trip at the level of stored records: a collection of tasks,
/// saved and loaded, comes back with exactly the model it had.
pub proof fn lemma_save_load(tasks: Seq<Task>)
    ensures
        decode_spec(render_tasks(views_of(tasks))) == Option::Some(views_of(tasks)),
{
    assert(wf_tasks(views_of(tasks))) by {
        assert(forall|k: int|
            0 <= k < tasks.len() ==> #[trigger] views_of(tasks)[k] == tasks[k]@);
    }
    lemma_encode_decode(views_of(tasks));
}

// ---------------------------------------------------------------------------
// The laws of creation
// ---------------------------------------------------------------------------

/// The collection that a run of accepted submissions builds from the empty
/// collection: each draft in turn becomes the task `add` appends for it,
/// stamped with the matching instant.
pub open spec fn run_adds(drafts: Seq<NewTaskView>, nows: Seq<Seq<char>>) -> Seq<TaskView>
    decreases drafts.len(),
{
    if drafts.len() == 0 {
        Seq::empty()
    } else {
        run_adds(drafts.drop_last(), nows.drop_last()).push(
            make_task(drafts.len() as int, drafts.last(), nows.last()),
        )
    }
}

/// LAW: any run of accepted submissions on the empty collection yields
/// exactly one task per submission.
pub proof fn lemma_create_increments_length(drafts: Seq<NewTaskView>, nows: Seq<Seq<char>>)
    requires
        drafts.len() == nows.len(),
    ensures
        run_adds(drafts, nows).len() == drafts.len(),
    decreases drafts.len(),
{
    if drafts.len() > 0 {
        lemma_create_increments_length(drafts.drop_last(), nows.drop_last());
    }
}

/// LAW: in such a run the Kth created task (1-indexed) is the Kth draft's
/// task, with identifier K.
pub proof fn lemma_id_derivation(drafts: Seq<NewTaskView>, nows: Seq<Seq<char>>, k: int)
    requires
        drafts.len() == nows.len(),
        1 <= k <= drafts.len(),
    ensures
        run_adds(drafts, nows)[k - 1] == make_task(k, drafts[k - 1], nows[k - 1]),
        run_adds(drafts, nows)[k - 1].id == k,
    decreases drafts.len(),
{
    lemma_create_increments_length(drafts, nows);
    if k == drafts.len() {
        lemma_create_increments_length(drafts.drop_last(), nows.drop_last());
    } else {
        lemma_id_derivation(drafts.drop_last(), nows.drop_last(), k);
        lemma_create_increments_length(drafts.drop_last(), nows.drop_last());
        assert(drafts.drop_last()[k - 1] == drafts[k - 1]);
        assert(nows.drop_last()[k - 1] == nows[k - 1]);
    }
}

/// LAW: a submission whose field map carries no `status` entry yields a
/// draft whose status is `Todo`.
pub proof fn lemma_default_status(fields: Seq<(String, String)>)
    requires
        lookup(fields, "title"@) is Some,
        lookup(fields, "status"@) is None,
    ensures
        intake_spec(fields) is Some,
        match intake_spec(fields) {
            Option::Some(d) => d.status == Status::Todo,
            Option::None => false,
        },
{
}

/// LAW: a draft without a priority becomes a stored task whose priority is
/// zero.
pub proof fn lemma_default_priority(n: int, d: NewTaskView, now: Seq<char>)
    requires
        d.priority is None,
    ensures
        make_task(n, d, now).priority == Option::Some(0int),
{
}

/// LAW: a created task's creation and update timestamps are one and the
/// same instant.
pub proof fn lemma_timestamps_equal(n: int, d: NewTaskView, now: Seq<char>)
    ensures
        make_task(n, d, now).created_at == make_task(n, d, now).updated_at,
{
}

} // verus!
