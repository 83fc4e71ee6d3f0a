//! Compact JSON text of a document, members and items in the document's
//! order, strings escaped as `serde_json` escapes them: `"` and `\` with a
//! backslash, the control characters below U+0020 as `\b`, `\t`, `\n`,
//! `\f`, `\r` or `\u00xx` (lower-case hex), every other character as it is.
use vstd::prelude::*;

use crate::json::{json_view, lemma_array_view, lemma_object_view, items_view, members_view, Json, JsonValue};
use crate::text::{char_vec, push_char};

verus! {

broadcast use vstd::string::group_string_axioms;

pub open spec fn hex_lower(d: nat) -> char {
    if d < 10 {
        (('0' as nat) + d) as char
    } else {
        (('a' as nat) + d - 10) as char
    }
}

/// How one character of a string is written.
pub open spec fn escape_char(c: char) -> Seq<char> {
    if c == '"' {
        seq!['\\', '"']
    } else if c == '\\' {
        seq!['\\', '\\']
    } else if c == '\u{8}' {
        seq!['\\', 'b']
    } else if c == '\t' {
        seq!['\\', 't']
    } else if c == '\n' {
        seq!['\\', 'n']
    } else if c == '\u{c}' {
        seq!['\\', 'f']
    } else if c == '\r' {
        seq!['\\', 'r']
    } else if (c as nat) < 0x20 {
        seq!['\\', 'u', '0', '0', hex_lower((c as nat) / 16), hex_lower((c as nat) % 16)]
    } else {
        seq![c]
    }
}

pub open spec fn escape_text(s: Seq<char>) -> Seq<char>
    decreases s.len(),
{
    if s.len() == 0 {
        Seq::empty()
    } else {
        escape_text(s.drop_last()) + escape_char(s.last())
    }
}

/// A string literal.
pub open spec fn quoted(s: Seq<char>) -> Seq<char> {
    seq!['"'] + escape_text(s) + seq!['"']
}

/// The items of an array, separated by commas.
pub open spec fn array_text(items: Seq<Json>) -> Seq<char>
    decreases items,
{
    if items.len() == 0 {
        Seq::empty()
    } else {
        let init = items.subrange(0, items.len() - 1);
        (if init.len() == 0 {
            Seq::empty()
        } else {
            array_text(init) + seq![',']
        }) + json_text(items[items.len() - 1])
    }
}

/// The members of an object, each as `"key":value`, separated by commas.
pub open spec fn object_text(es: Seq<(Seq<char>, Json)>) -> Seq<char>
    decreases es,
{
    if es.len() == 0 {
        Seq::empty()
    } else {
        let init = es.subrange(0, es.len() - 1);
        (if init.len() == 0 {
            Seq::empty()
        } else {
            object_text(init) + seq![',']
        }) + quoted(es[es.len() - 1].0) + seq![':'] + json_text(es[es.len() - 1].1)
    }
}

/// The compact JSON text of a document.
pub open spec fn json_text(j: Json) -> Seq<char>
    decreases j,
{
    match j {
        Json::Null => "null"@,
        Json::Bool(b) => if b {
            "true"@
        } else {
            "false"@
        },
        Json::Number(n) => n,
        Json::Str(s) => quoted(s),
        Json::Array(items) => seq!['['] + array_text(items) + seq![']'],
        Json::Object(es) => seq!['{'] + object_text(es) + seq!['}'],
    }
}

fn hex_lower_exec(d: u32) -> (c: char)
    requires
        d < 16,
    ensures
        c == hex_lower(d as nat),
{
    if d < 10 {
        char_from_digit(d)
    } else {
        char_from_letter(d - 10)
    }
}

fn char_from_digit(d: u32) -> (c: char)
    requires
        d < 10,
    ensures
        c == (('0' as nat) + d) as char,
{
    match d {
        0 => '0',
        1 => '1',
        2 => '2',
        3 => '3',
        4 => '4',
        5 => '5',
        6 => '6',
        7 => '7',
        8 => '8',
        _ => '9',
    }
}

fn char_from_letter(d: u32) -> (c: char)
    requires
        d < 6,
    ensures
        c == (('a' as nat) + d) as char,
{
    match d {
        0 => 'a',
        1 => 'b',
        2 => 'c',
        3 => 'd',
        4 => 'e',
        _ => 'f',
    }
}

fn push_escaped_char(out: &mut String, c: char)
    ensures
        final(out)@ == old(out)@ + escape_char(c),
{
    let ghost start = out@;
    if c == '"' {
        push_char(out, '\\');
        push_char(out, '"');
    } else if c == '\\' {
        push_char(out, '\\');
        push_char(out, '\\');
    } else if c == '\u{8}' {
        push_char(out, '\\');
        push_char(out, 'b');
    } else if c == '\t' {
        push_char(out, '\\');
        push_char(out, 't');
    } else if c == '\n' {
        push_char(out, '\\');
        push_char(out, 'n');
    } else if c == '\u{c}' {
        push_char(out, '\\');
        push_char(out, 'f');
    } else if c == '\r' {
        push_char(out, '\\');
        push_char(out, 'r');
    } else if (c as u32) < 0x20 {
        let v = c as u32;
        push_char(out, '\\');
        push_char(out, 'u');
        push_char(out, '0');
        push_char(out, '0');
        push_char(out, hex_lower_exec(v / 16));
        push_char(out, hex_lower_exec(v % 16));
    } else {
        push_char(out, c);
    }
    assert(out@ =~= start + escape_char(c));
}

fn push_quoted(out: &mut String, s: &str)
    ensures
        final(out)@ == old(out)@ + quoted(s@),
{
    let ghost start = out@;
    let v = char_vec(s);
    push_char(out, '"');
    let mut i: usize = 0;
    while i < v.len()
        invariant
            i <= v@.len(),
            v@ == s@,
            out@ == start + seq!['"'] + escape_text(v@.subrange(0, i as int)),
        decreases v@.len() - i,
    {
        proof {
            assert(v@.subrange(0, i + 1).drop_last() =~= v@.subrange(0, i as int));
        }
        push_escaped_char(out, v[i]);
        i = i + 1;
        assert(out@ =~= start + seq!['"'] + escape_text(v@.subrange(0, i as int)));
    }
    push_char(out, '"');
    assert(v@.subrange(0, v@.len() as int) =~= s@);
    assert(out@ =~= start + quoted(s@));
}

fn push_str(out: &mut String, s: &str)
    ensures
        final(out)@ == old(out)@ + s@,
{
    let ghost start = out@;
    let v = char_vec(s);
    let mut i: usize = 0;
    while i < v.len()
        invariant
            i <= v@.len(),
            v@ == s@,
            out@ == start + v@.subrange(0, i as int),
        decreases v@.len() - i,
    {
        push_char(out, v[i]);
        i = i + 1;
        assert(out@ =~= start + v@.subrange(0, i as int));
    }
    assert(v@.subrange(0, v@.len() as int) =~= s@);
}

/// Appends the compact JSON text of `v`.
#[verifier::rlimit(50)]
pub fn write_json(v: &JsonValue, out: &mut String)
    ensures
        final(out)@ == old(out)@ + json_text(json_view(*v)),
    decreases v,
{
    let ghost start = out@;
    match v {
        JsonValue::Null => push_str(out, "null"),
        JsonValue::Bool(b) => if *b {
            push_str(out, "true")
        } else {
            push_str(out, "false")
        },
        JsonValue::Number(n) => push_str(out, n.as_str()),
        JsonValue::Str(s) => push_quoted(out, s.as_str()),
        JsonValue::Array(items) => {
            proof {
                lemma_array_view(*items);
            }
            let ghost docs = items_view(items@);
            push_char(out, '[');
            let mut i: usize = 0;
            while i < items.len()
                invariant
                    *v == JsonValue::Array(*items),
                    i <= items@.len(),
                    docs == items_view(items@),
                    out@ == start + seq!['['] + array_text(docs.subrange(0, i as int)),
                decreases items@.len() - i,
            {
                if i > 0 {
                    push_char(out, ',');
                }
                proof {
                    assert(decreases_to!(*v => (*v)->Array_0));
                    assert(decreases_to!((*v)->Array_0 => (*v)->Array_0@));
                    assert(decreases_to!((*v)->Array_0@ => (*v)->Array_0@[i as int]));
                }
                write_json(&items[i], out);
                proof {
                    let next = docs.subrange(0, i + 1);
                    assert(next.subrange(0, next.len() - 1) =~= docs.subrange(0, i as int));
                    assert(next[next.len() - 1] == json_view(items@[i as int]));
                }
                i = i + 1;
                assert(out@ =~= start + seq!['['] + array_text(docs.subrange(0, i as int)));
            }
            push_char(out, ']');
            assert(docs.subrange(0, docs.len() as int) =~= docs);
            assert(json_view(*v) == Json::Array(docs));
            assert(out@ =~= start + json_text(json_view(*v)));
        },
        JsonValue::Object(es) => {
            proof {
                lemma_object_view(*es);
            }
            let ghost mems = members_view(es@);
            push_char(out, '{');
            let mut i: usize = 0;
            while i < es.len()
                invariant
                    *v == JsonValue::Object(*es),
                    i <= es@.len(),
                    mems == members_view(es@),
                    out@ == start + seq!['{'] + object_text(mems.subrange(0, i as int)),
                decreases es@.len() - i,
            {
                if i > 0 {
                    push_char(out, ',');
                }
                let (key, value) = &es[i];
                push_quoted(out, key.as_str());
                push_char(out, ':');
                proof {
                    assert(decreases_to!(*v => (*v)->Object_0));
                    assert(decreases_to!((*v)->Object_0 => (*v)->Object_0@));
                    assert(decreases_to!((*v)->Object_0@ => (*v)->Object_0@[i as int]));
                    assert(decreases_to!((*v)->Object_0@[i as int] => (*v)->Object_0@[i as int].1));
                }
                write_json(value, out);
                proof {
                    let next = mems.subrange(0, i + 1);
                    assert(next.subrange(0, next.len() - 1) =~= mems.subrange(0, i as int));
                    assert(next[next.len() - 1] == (es@[i as int].0@, json_view(es@[i as int].1)));
                }
                i = i + 1;
                assert(out@ =~= start + seq!['{'] + object_text(mems.subrange(0, i as int)));
            }
            push_char(out, '}');
            assert(mems.subrange(0, mems.len() as int) =~= mems);
            assert(json_view(*v) == Json::Object(mems));
            assert(out@ =~= start + json_text(json_view(*v)));
        },
    }
}

/// The compact JSON text of `v`.
pub fn to_json_text(v: &JsonValue) -> (r: String)
    ensures
        r@ == json_text(json_view(*v)),
{
    let mut out = String::new();
    write_json(v, &mut out);
    out
}

} // verus!
