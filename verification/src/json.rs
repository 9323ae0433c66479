//! The JSON text in which stored values are written: compact objects and
//! arrays, with string literals written by `serde_json`.
use vstd::prelude::*;
use crate::text::{decimal, push_decimal};
use crate::store::{Value, ValueView, value_view, entries_view, lemma_entries_view_index, value_wf, lemma_entries_wf};
use crate::todoist::{Task, TaskView, tasks_view};

verus! {

/// A lower-case hexadecimal digit.
pub open spec fn hex_char(d: nat) -> char
    recommends
        d < 16,
{
    if d < 10 {
        (48 + d) as char
    } else {
        (87 + d) as char
    }
}

/// How one character is written inside a JSON string literal: quotes and
/// backslashes are escaped, the five common control characters have short
/// escapes, the others below 0x20 are written `\u00XX`; everything else is
/// written as it is.
pub open spec fn escape_char(c: char) -> Seq<char> {
    if c == '"' {
        seq!['\\', '"']
    } else if c == '\\' {
        seq!['\\', '\\']
    } else if c == '\x08' {
        seq!['\\', 'b']
    } else if c == '\t' {
        seq!['\\', 't']
    } else if c == '\n' {
        seq!['\\', 'n']
    } else if c == '\x0C' {
        seq!['\\', 'f']
    } else if c == '\r' {
        seq!['\\', 'r']
    } else if (c as u32) < 0x20 {
        seq!['\\', 'u', '0', '0', hex_char((c as u32 / 16) as nat), hex_char((c as u32 % 16) as nat)]
    } else {
        seq![c]
    }
}

/// The escaped characters of a text, without the surrounding quotes.
pub open spec fn escaped(s: Seq<char>) -> Seq<char>
    decreases s.len(),
{
    if s.len() == 0 {
        Seq::empty()
    } else {
        escaped(s.drop_last()) + escape_char(s.last())
    }
}

/// A JSON string literal: the escaped text between double quotes.
pub open spec fn json_string(s: Seq<char>) -> Seq<char> {
    seq!['"'] + escaped(s) + seq!['"']
}

/// `serde_json::to_string` on a text: its JSON string literal, with the
/// escapes of serde_json's escape table. Writing a text into memory cannot
/// fail, so the result is always there.
#[verifier::external_body]
fn json_quote(s: &str) -> (r: String)
    ensures
        r@ == json_string(s@),
{
    serde_json::to_string(s).unwrap()
}

/// A task as a JSON object.
pub open spec fn json_task(t: TaskView) -> Seq<char> {
    seq!['{'] + json_string("id"@) + seq![':'] + json_string(t.id) + seq![','] + json_string("project_id"@)
        + seq![':'] + json_string(t.project_id) + seq![','] + json_string("content"@) + seq![':']
        + json_string(t.content) + seq!['}']
}

/// The tasks written one after another, separated by commas.
pub open spec fn json_task_items(ts: Seq<TaskView>) -> Seq<char>
    decreases ts.len(),
{
    if ts.len() == 0 {
        Seq::empty()
    } else if ts.len() == 1 {
        json_task(ts[0])
    } else {
        json_task_items(ts.drop_last()) + seq![','] + json_task(ts.last())
    }
}

/// A list of tasks as a JSON array.
pub open spec fn json_tasks(ts: Seq<TaskView>) -> Seq<char> {
    seq!['['] + json_task_items(ts) + seq![']']
}

/// A value as JSON: an object whose one key names the kind of value.
pub open spec fn json_value(v: ValueView) -> Seq<char>
    decreases v,
{
    match v {
        ValueView::Int(i) => "{\"Int\":"@ + decimal(i as nat) + seq!['}'],
        ValueView::Text(t) => "{\"Text\":"@ + json_string(t) + seq!['}'],
        ValueView::Tasks(ts) => "{\"Tasks\":"@ + json_tasks(ts) + seq!['}'],
        ValueView::Projects(es) => "{\"Projects\":"@ + seq!['{'] + json_members(es) + seq!['}', '}'],
    }
}

/// Named values written one after another as `"name":value`, separated by commas.
pub open spec fn json_members(es: Seq<(Seq<char>, ValueView)>) -> Seq<char>
    decreases es,
{
    if es.len() == 0 {
        Seq::empty()
    } else if es.len() == 1 {
        json_string(es[0].0) + seq![':'] + json_value(es[0].1)
    } else {
        json_members(es.drop_last()) + seq![','] + json_string(es.last().0) + seq![':'] + json_value(
            es.last().1,
        )
    }
}

/// Named values as a JSON object.
pub open spec fn json_object(es: Seq<(Seq<char>, ValueView)>) -> Seq<char> {
    seq!['{'] + json_members(es) + seq!['}']
}

} // verus!

verus! {

/// Appends `s` as a JSON string literal.
pub fn push_json_string(out: &mut String, s: &str)
    ensures
        final(out)@ == old(out)@ + json_string(s@),
{
    let quoted = json_quote(s);
    out.append(quoted.as_str());
}

/// Appends a task as a JSON object.
pub fn push_json_task(out: &mut String, t: &Task)
    ensures
        final(out)@ == old(out)@ + json_task(t@),
{
    let ghost start = out@;
    out.push('{');
    push_json_string(out, "id");
    out.push(':');
    push_json_string(out, t.id.as_str());
    out.push(',');
    push_json_string(out, "project_id");
    out.push(':');
    push_json_string(out, t.project_id.as_str());
    out.push(',');
    push_json_string(out, "content");
    out.push(':');
    push_json_string(out, t.content.as_str());
    out.push('}');
    assert(out@ =~= start + json_task(t@));
}

/// Appends a list of tasks as a JSON array.
pub fn push_json_tasks(out: &mut String, ts: &Vec<Task>)
    ensures
        final(out)@ == old(out)@ + json_tasks(tasks_view(ts@)),
{
    let ghost start = out@;
    out.push('[');
    for i in 0..ts.len()
        invariant
            out@ == start + seq!['['] + json_task_items(tasks_view(ts@.take(i as int))),
    {
        let ghost before = out@;
        if i > 0 {
            out.push(',');
        }
        push_json_task(out, &ts[i]);
        proof {
            let t = tasks_view(ts@.take(i + 1));
            assert(t.drop_last() =~= tasks_view(ts@.take(i as int)));
            assert(t.last() == ts@[i as int]@);
            if i == 0 {
                assert(t.len() == 1);
                assert(t[0] == ts@[0]@);
            }
            assert(out@ =~= start + seq!['['] + json_task_items(t));
        }
    }
    out.push(']');
    assert(ts@.take(ts@.len() as int) == ts@);
    assert(out@ =~= start + json_tasks(tasks_view(ts@)));
}

} // verus!

verus! {

/// Appends a value as JSON.
pub fn push_json_value(out: &mut String, v: &Value)
    requires
        value_wf(value_view(*v)),
    ensures
        final(out)@ == old(out)@ + json_value(value_view(*v)),
    decreases v,
{
    let ghost start = out@;
    match v {
        Value::Int(i) => {
            out.append("{\"Int\":");
            push_decimal(out, *i);
            out.push('}');
        },
        Value::Text(t) => {
            out.append("{\"Text\":");
            push_json_string(out, t.as_str());
            out.push('}');
        },
        Value::Tasks(ts) => {
            out.append("{\"Tasks\":");
            push_json_tasks(out, ts);
            out.push('}');
        },
        Value::Projects(es) => {
            out.append("{\"Projects\":");
            out.push('{');
            proof {
                lemma_entries_wf(entries_view(es@));
                lemma_entries_view_index(es@);
            }
            push_json_members(out, es);
            out.push('}');
            out.push('}');
        },
    }
    assert(out@ =~= start + json_value(value_view(*v)));
}

/// Appends named values as `"name":value` members, separated by commas.
pub fn push_json_members(out: &mut String, es: &Vec<(String, Value)>)
    requires
        forall|i: int| 0 <= i < es@.len() ==> value_wf(#[trigger] entries_view(es@)[i].1),
    ensures
        final(out)@ == old(out)@ + json_members(entries_view(es@)),
    decreases es,
{
    let ghost start = out@;
    proof {
        lemma_entries_view_index(es@);
    }
    for i in 0..es.len()
        invariant
            entries_view(es@).len() == es@.len(),
            forall|j: int|
                0 <= j < es@.len() ==> #[trigger] entries_view(es@)[j] == (es@[j].0@, value_view(es@[j].1)),
            forall|j: int| 0 <= j < es@.len() ==> value_wf(#[trigger] entries_view(es@)[j].1),
            out@ == start + json_members(entries_view(es@).take(i as int)),
    {
        assert(decreases_to!(es => es@[i as int].1));
        if i > 0 {
            out.push(',');
        }
        push_json_string(out, es[i].0.as_str());
        out.push(':');
        assert(value_wf(entries_view(es@)[i as int].1));
        push_json_value(out, &es[i].1);
        proof {
            let t = entries_view(es@).take(i + 1);
            assert(t.drop_last() =~= entries_view(es@).take(i as int));
            assert(t.last() == entries_view(es@)[i as int]);
            if i == 0 {
                assert(t[0] == entries_view(es@)[0]);
            }
            assert(out@ =~= start + json_members(t));
        }
    }
    assert(entries_view(es@).take(es@.len() as int) == entries_view(es@));
}

} // verus!

verus! {

/// Escaping text piece by piece gives the escape of the whole.
pub proof fn lemma_escaped_concat(a: Seq<char>, b: Seq<char>)
    ensures
        escaped(a + b) == escaped(a) + escaped(b),
    decreases b.len(),
{
    if b.len() == 0 {
        assert(a + b == a);
    } else {
        lemma_escaped_concat(a, b.drop_last());
        assert((a + b).drop_last() == a + b.drop_last());
        assert((a + b).last() == b.last());
    }
}

/// The escape of a text that starts with `s[0]`.
proof fn lemma_escaped_first(s: Seq<char>)
    requires
        s.len() > 0,
    ensures
        escaped(s) == escape_char(s[0]) + escaped(s.drop_first()),
{
    lemma_escaped_concat(seq![s[0]], s.drop_first());
    assert(seq![s[0]] + s.drop_first() == s);
    assert(seq![s[0]].drop_last() == Seq::<char>::empty());
    assert(escaped(Seq::<char>::empty()) == Seq::<char>::empty());
    assert(escaped(seq![s[0]]) =~= escape_char(s[0]));
}

proof fn lemma_hex_char_injective(a: nat, b: nat)
    requires
        a < 16,
        b < 16,
        hex_char(a) == hex_char(b),
    ensures
        a == b,
{
    assert(hex_char(a) as int == if a < 10 { 48 + a } else { 87 + a });
    assert(hex_char(b) as int == if b < 10 { 48 + b } else { 87 + b });
}

/// No escape is a prefix of a different one: an escape followed by anything
/// tells which character it escapes.
proof fn lemma_escape_prefix_free(x: char, y: char, s: Seq<char>, t: Seq<char>)
    requires
        escape_char(x) + s == escape_char(y) + t,
    ensures
        x == y,
{
    let ex = escape_char(x);
    let ey = escape_char(y);
    let l = ex + s;
    assert(l[0] == ex[0] && l[0] == ey[0]);
    if ex.len() >= 2 && ey.len() >= 2 {
        assert(l[1] == ex[1] && l[1] == ey[1]);
        if ex[1] == 'u' && ey[1] == 'u' {
            assert(l[4] == ex[4] && l[4] == ey[4]);
            assert(l[5] == ex[5] && l[5] == ey[5]);
            let cx = x as u32;
            let cy = y as u32;
            lemma_hex_char_injective((cx / 16) as nat, (cy / 16) as nat);
            lemma_hex_char_injective((cx % 16) as nat, (cy % 16) as nat);
            assert(cx == (cx / 16) * 16 + cx % 16);
            assert(cy == (cy / 16) * 16 + cy % 16);
            assert(cx == cy);
        }
    }
}

/// Escaping keeps distinct texts apart.
pub proof fn lemma_escaped_injective(a: Seq<char>, b: Seq<char>)
    requires
        escaped(a) == escaped(b),
    ensures
        a == b,
    decreases a.len(),
{
    if a.len() == 0 || b.len() == 0 {
        if a.len() > 0 {
            lemma_escaped_first(a);
            assert(escape_char(a[0]).len() > 0);
            assert(escaped(a).len() > 0);
        }
        if b.len() > 0 {
            lemma_escaped_first(b);
            assert(escape_char(b[0]).len() > 0);
            assert(escaped(b).len() > 0);
        }
        assert(a.len() == 0 && b.len() == 0);
        assert(a == b);
    } else {
        lemma_escaped_first(a);
        lemma_escaped_first(b);
        lemma_escape_prefix_free(a[0], b[0], escaped(a.drop_first()), escaped(b.drop_first()));
        assert(escaped(a.drop_first()) == escaped(a).skip(escape_char(a[0]).len() as int));
        assert(escaped(b.drop_first()) == escaped(b).skip(escape_char(b[0]).len() as int));
        lemma_escaped_injective(a.drop_first(), b.drop_first());
        assert(a == seq![a[0]] + a.drop_first());
        assert(b == seq![b[0]] + b.drop_first());
    }
}

/// Distinct texts are written as distinct JSON strings.
pub proof fn law_json_string_injective(a: Seq<char>, b: Seq<char>)
    requires
        json_string(a) == json_string(b),
    ensures
        a == b,
{
    let ja = json_string(a);
    assert(escaped(a) == ja.subrange(1, ja.len() - 1));
    assert(escaped(b) == json_string(b).subrange(1, json_string(b).len() - 1));
    lemma_escaped_injective(a, b);
}

} // verus!

verus! {

/// One task is written as its object alone.
pub proof fn law_task_items_single(t: TaskView)
    ensures
        json_task_items(seq![t]) == json_task(t),
        json_tasks(seq![t]) == seq!['['] + json_task(t) + seq![']'],
        json_tasks(Seq::<TaskView>::empty()) == seq!['[', ']'],
{
    assert(json_tasks(Seq::<TaskView>::empty()) =~= seq!['[', ']']);
}

/// Two lists of tasks written one after the other are joined by exactly one
/// comma: the list text is every task's object, in order, with a comma
/// between each two neighbours and nowhere else.
pub proof fn law_task_items_concat(a: Seq<TaskView>, b: Seq<TaskView>)
    requires
        a.len() > 0,
        b.len() > 0,
    ensures
        json_task_items(a + b) == json_task_items(a) + seq![','] + json_task_items(b),
    decreases b.len(),
{
    let ab = a + b;
    assert(ab.drop_last() == a + b.drop_last());
    assert(ab.last() == b.last());
    if b.len() == 1 {
        assert(b.drop_last() =~= Seq::<TaskView>::empty());
        assert(a + b.drop_last() == a);
        assert(b == seq![b[0]]);
        law_task_items_single(b[0]);
    } else {
        law_task_items_concat(a, b.drop_last());
        assert(json_task_items(ab) =~= json_task_items(a) + seq![','] + json_task_items(b));
    }
}

} // verus!
