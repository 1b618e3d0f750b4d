//! JSON text of a value, as handed to the template engine.

use vstd::prelude::*;
use crate::json::{JsonValue, JsonMember, JsonNumber, JsonTree, NumberTree, views_of, members_view};
use crate::text::{decimal, digit_char, push_char, push_str, push_decimal};

verus! {

/// A hexadecimal digit, in lower case.
pub open spec fn hex_char(d: nat) -> char {
    if d < 10 {
        digit_char(d)
    } else if d == 10 {
        'a'
    } else if d == 11 {
        'b'
    } else if d == 12 {
        'c'
    } else if d == 13 {
        'd'
    } else if d == 14 {
        'e'
    } else {
        'f'
    }
}

/// How one character is written inside a JSON string: quote and backslash
/// are escaped, control characters are written as `\u00XX`.
pub open spec fn json_char(c: char) -> Seq<char> {
    if c == '"' {
        seq!['\\', '"']
    } else if c == '\\' {
        seq!['\\', '\\']
    } else if (c as u32) < 32 {
        seq!['\\', 'u', '0', '0', hex_char((c as u32 / 16) as nat), hex_char((c as u32 % 16) as nat)]
    } else {
        seq![c]
    }
}

pub open spec fn json_escape(s: Seq<char>) -> Seq<char>
    decreases s.len(),
{
    if s.len() == 0 {
        Seq::empty()
    } else {
        json_escape(s.drop_last()) + json_char(s.last())
    }
}

/// A JSON string literal.
pub open spec fn json_string(s: Seq<char>) -> Seq<char> {
    seq!['"'] + json_escape(s) + seq!['"']
}

/// The JSON text of a number: integers in decimal, other numbers as held.
pub open spec fn number_text(n: NumberTree) -> Seq<char> {
    match n {
        NumberTree::PosInt(x) => decimal(x as nat),
        NumberTree::NegInt(x) => if x < 0 {
            seq!['-'] + decimal((-x) as nat)
        } else {
            decimal(x as nat)
        },
        NumberTree::Float(t) => t,
    }
}

/// The compact JSON text of a value: no white space, object entries in
/// their order.
pub open spec fn json_text(t: JsonTree) -> Seq<char>
    decreases t,
{
    match t {
        JsonTree::Null => seq!['n', 'u', 'l', 'l'],
        JsonTree::Bool(b) => if b {
            seq!['t', 'r', 'u', 'e']
        } else {
            seq!['f', 'a', 'l', 's', 'e']
        },
        JsonTree::Number(n) => number_text(n),
        JsonTree::Str(s) => json_string(s),
        JsonTree::Array(items) => seq!['['] + json_items(items) + seq![']'],
        JsonTree::Object(ms) => seq!['{'] + json_members(ms) + seq!['}'],
    }
}

/// Values separated by commas.
pub open spec fn json_items(s: Seq<JsonTree>) -> Seq<char>
    decreases s,
{
    if s.len() == 0 {
        Seq::empty()
    } else {
        let init = json_items(s.drop_last());
        (if s.len() > 1 {
            init + seq![',']
        } else {
            init
        }) + json_text(s.last())
    }
}

/// Entries `"key":value` separated by commas.
pub open spec fn json_members(ms: Seq<(Seq<char>, JsonTree)>) -> Seq<char>
    decreases ms,
{
    if ms.len() == 0 {
        Seq::empty()
    } else {
        proof {
            assert(decreases_to!(ms => ms.last()));
            assert(decreases_to!(ms.last() => ms.last().1));
        }
        let init = json_members(ms.drop_last());
        (if ms.len() > 1 {
            init + seq![',']
        } else {
            init
        }) + json_string(ms.last().0) + seq![':'] + json_text(ms.last().1)
    }
}

fn hex(d: u32) -> (c: char)
    requires
        d < 16,
    ensures
        c == hex_char(d as nat),
{
    if d == 0 { '0' } else if d == 1 { '1' } else if d == 2 { '2' } else if d == 3 { '3' }
    else if d == 4 { '4' } else if d == 5 { '5' } else if d == 6 { '6' } else if d == 7 { '7' }
    else if d == 8 { '8' } else if d == 9 { '9' } else if d == 10 { 'a' } else if d == 11 { 'b' }
    else if d == 12 { 'c' } else if d == 13 { 'd' } else if d == 14 { 'e' } else { 'f' }
}

/// Appends a JSON string literal for `s`.
pub fn push_json_string(out: &mut String, s: &str)
    ensures
        final(out)@ == old(out)@ + json_string(s@),
{
    let ghost start = out@;
    let ghost full = s@;
    push_char(out, '"');
    for c in it: s.chars()
        invariant
            it.seq() == full,
            it.index() <= full.len(),
            out@ == start + seq!['"'] + json_escape(full.take(it.index() as int)),
    {
        proof {
            assert(full.take(it.index() + 1).drop_last() == full.take(it.index() as int));
        }
        let ghost before = out@;
        if c == '"' {
            push_char(out, '\\');
            push_char(out, '"');
        } else if c == '\\' {
            push_char(out, '\\');
            push_char(out, '\\');
        } else if (c as u32) < 32 {
            let code = c as u32;
            push_char(out, '\\');
            push_char(out, 'u');
            push_char(out, '0');
            push_char(out, '0');
            push_char(out, hex(code / 16));
            push_char(out, hex(code % 16));
        } else {
            push_char(out, c);
        }
        proof {
            assert(out@ == before + json_char(c));
        }
    }
    proof {
        assert(full.take(full.len() as int) == full);
    }
    push_char(out, '"');
}

/// Appends the JSON text of a number.
fn push_number(out: &mut String, n: &JsonNumber)
    ensures
        final(out)@ == old(out)@ + number_text(crate::json::number_view(*n)),
{
    match n {
        JsonNumber::PosInt(x) => push_decimal(out, *x),
        JsonNumber::NegInt(x) => {
            if *x < 0 {
                push_char(out, '-');
                let m: u64 = ((-(*x + 1)) as u64) + 1;
                push_decimal(out, m);
            } else {
                push_decimal(out, *x as u64);
            }
        },
        JsonNumber::Float(t) => push_str(out, t.as_str()),
    }
}

/// Appends the JSON text of `v`.
pub fn write_json(out: &mut String, v: &JsonValue)
    ensures
        final(out)@ == old(out)@ + json_text(v@),
    decreases *v,
{
    match v {
        JsonValue::Null => {
            push_char(out, 'n');
            push_char(out, 'u');
            push_char(out, 'l');
            push_char(out, 'l');
        },
        JsonValue::Bool(b) => {
            if *b {
                push_char(out, 't');
                push_char(out, 'r');
                push_char(out, 'u');
                push_char(out, 'e');
            } else {
                push_char(out, 'f');
                push_char(out, 'a');
                push_char(out, 'l');
                push_char(out, 's');
                push_char(out, 'e');
            }
        },
        JsonValue::Number(n) => push_number(out, n),
        JsonValue::Str(s) => push_json_string(out, s.as_str()),
        JsonValue::Array(a) => {
            proof {
                assert(decreases_to!(*v => *a));
                assert(decreases_to!(*a => a@));
            }
            push_char(out, '[');
            write_items(out, a.as_slice());
            push_char(out, ']');
        },
        JsonValue::Object(m) => {
            proof {
                assert(decreases_to!(*v => *m));
                assert(decreases_to!(*m => m@));
            }
            push_char(out, '{');
            write_members(out, m.as_slice());
            push_char(out, '}');
        },
    }
}

fn write_items(out: &mut String, s: &[JsonValue])
    ensures
        final(out)@ == old(out)@ + json_items(views_of(s@)),
    decreases s@,
{
    let ghost start = out@;
    let n = s.len();
    let mut i: usize = 0;
    while i < n
        invariant
            n == s@.len(),
            i <= n,
            out@ == start + json_items(views_of(s@.take(i as int))),
        decreases n - i,
    {
        proof {
            assert(s@.take(i + 1).drop_last() == s@.take(i as int));
            assert(s@.take(i + 1).last() == s@[i as int]);
            let x = views_of(s@.take(i + 1));
            assert(x.drop_last() == views_of(s@.take(i as int)));
        }
        if i > 0 {
            push_char(out, ',');
        }
        write_json(out, &s[i]);
        i += 1;
    }
    proof {
        assert(s@.take(n as int) == s@);
    }
}

fn write_members(out: &mut String, m: &[JsonMember])
    ensures
        final(out)@ == old(out)@ + json_members(members_view(m@)),
    decreases m@,
{
    let ghost start = out@;
    let n = m.len();
    let mut i: usize = 0;
    while i < n
        invariant
            n == m@.len(),
            i <= n,
            out@ == start + json_members(members_view(m@.take(i as int))),
        decreases n - i,
    {
        proof {
            assert(m@.take(i + 1).drop_last() == m@.take(i as int));
            assert(m@.take(i + 1).last() == m@[i as int]);
            let x = members_view(m@.take(i + 1));
            assert(x.drop_last() == members_view(m@.take(i as int)));
            assert(decreases_to!(m@ => m@[i as int]));
            assert(decreases_to!(m@[i as int] => m@[i as int].value));
        }
        if i > 0 {
            push_char(out, ',');
        }
        push_json_string(out, m[i].key.as_str());
        push_char(out, ':');
        write_json(out, &m[i].value);
        i += 1;
    }
    proof {
        assert(m@.take(n as int) == m@);
    }
}

/// The JSON text of `v`.
pub fn to_json_text(v: &JsonValue) -> (r: String)
    ensures
        r@ == json_text(v@),
{
    let mut out = String::new();
    write_json(&mut out, v);
    out
}

} // verus!
