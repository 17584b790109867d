//! Structured-data and identifier helpers injected into the scripting
//! runtime: JSON serialization of the universal value type, and random
//! identifiers.

use vstd::prelude::*;

use crate::value::{model_elems, model_entries, Value, ValueV};

verus! {

broadcast use vstd::std_specs::vec::axiom_vec_index_decreases;

/// How one character is written inside a JSON string: quotes and
/// backslashes are escaped, the named control characters take their short
/// escapes, any other control character becomes a four-digit escape.
pub open spec fn json_escape_char(c: char) -> Seq<char> {
    if c == '"' {
        seq!['\\', '"']
    } else if c == '\\' {
        seq!['\\', '\\']
    } else if c == '\u{8}' {
        seq!['\\', 'b']
    } else if c == '\t' {
        seq!['\\', 't']
    } else if c == '\n' {
        seq!['\\', 'n']
    } else if c == '\u{c}' {
        seq!['\\', 'f']
    } else if c == '\r' {
        seq!['\\', 'r']
    } else if (c as int) < 0x20 {
        seq!['\\', 'u', '0', '0'] + seq![
            crate::evaluate::hex_digit(c as int / 16),
            crate::evaluate::hex_digit(c as int % 16),
        ]
    } else {
        seq![c]
    }
}

/// A whole string escaped for JSON, quotes included.
pub open spec fn json_string_body(s: Seq<char>) -> Seq<char>
    decreases s,
{
    if s.len() == 0 {
        Seq::empty()
    } else {
        json_escape_char(s[0]) + json_string_body(s.drop_first())
    }
}

/// The decimal digits of `n`.
pub open spec fn dec_digits(n: nat) -> Seq<char>
    decreases n,
{
    if n < 10 {
        seq![crate::evaluate::hex_digit(n as int)]
    } else {
        dec_digits(n / 10) + seq![crate::evaluate::hex_digit((n % 10) as int)]
    }
}

/// The decimal form of a signed number.
pub open spec fn dec_of(n: int) -> Seq<char> {
    if n < 0 {
        seq!['-'] + dec_digits((-n) as nat)
    } else {
        dec_digits(n as nat)
    }
}

/// The JSON text of a value, or nothing where JSON cannot carry it: a
/// mapping key must be a string, and a tagged node has no JSON form.
pub open spec fn json_of(v: ValueV) -> Option<Seq<char>>
    decreases v, 0nat,
{
    match v {
        ValueV::Null => Some("null"@),
        ValueV::Bool(b) => Some(if b { "true"@ } else { "false"@ }),
        ValueV::Number(n) => Some(dec_of(n)),
        ValueV::Str(s) => Some(seq!['"'] + json_string_body(s) + seq!['"']),
        ValueV::Sequence(es) => match json_elems(es) {
            Some(body) => Some(seq!['['] + body + seq![']']),
            None => None,
        },
        ValueV::Mapping(es) => match json_entries(es) {
            Some(body) => Some(seq!['{'] + body + seq!['}']),
            None => None,
        },
        ValueV::Tagged(_, _) => None,
    }
}

/// The comma-separated JSON texts of sequence elements.
pub open spec fn json_elems(es: Seq<ValueV>) -> Option<Seq<char>>
    decreases es, 1nat,
{
    if es.len() == 0 {
        Some(Seq::empty())
    } else {
        match json_of(es[0]) {
            None => None,
            Some(head) => {
                if es.len() == 1 {
                    Some(head)
                } else {
                    match json_elems(es.drop_first()) {
                        None => None,
                        Some(rest) => Some(head + seq![','] + rest),
                    }
                }
            },
        }
    }
}

/// The comma-separated JSON texts of mapping entries.
pub open spec fn json_entries(es: Seq<(ValueV, ValueV)>) -> Option<Seq<char>>
    decreases es, 1nat,
{
    if es.len() == 0 {
        Some(Seq::empty())
    } else {
        match es[0].0 {
            ValueV::Str(k) => match json_of(es[0].1) {
                None => None,
                Some(head) => {
                    let entry = seq!['"'] + json_string_body(k) + seq!['"'] + seq![':'] + head;
                    if es.len() == 1 {
                        Some(entry)
                    } else {
                        match json_entries(es.drop_first()) {
                            None => None,
                            Some(rest) => Some(entry + seq![','] + rest),
                        }
                    }
                },
            },
            _ => None,
        }
    }
}

proof fn lemma_json_body_snoc(s: Seq<char>, c: char)
    ensures
        json_string_body(s.push(c)) == json_string_body(s) + json_escape_char(c),
    decreases s,
{
    if s.len() == 0 {
        assert(s.push(c)[0] == c);
        assert(s.push(c).drop_first() =~= Seq::<char>::empty());
        assert(json_string_body(s.push(c)) =~= json_escape_char(c) + json_string_body(
            Seq::<char>::empty(),
        ));
        assert(json_escape_char(c) + Seq::<char>::empty() =~= json_escape_char(c));
        assert(json_string_body(s) + json_escape_char(c) =~= json_escape_char(c));
    } else {
        assert(s.push(c).drop_first() =~= s.drop_first().push(c));
        lemma_json_body_snoc(s.drop_first(), c);
        assert(json_string_body(s.push(c)) =~= json_string_body(s) + json_escape_char(c));
    }
}

/// Appends the JSON escape of `c` to `out`.
fn push_json_escaped(out: &mut String, c: char)
    ensures
        final(out)@ == old(out)@ + json_escape_char(c),
{
    let n = c as u32;
    if c == '"' {
        crate::evaluate::push_char(out, '\\');
        crate::evaluate::push_char(out, '"');
        assert(final(out)@ =~= old(out)@ + json_escape_char(c));
    } else if c == '\\' {
        crate::evaluate::push_char(out, '\\');
        crate::evaluate::push_char(out, '\\');
        assert(final(out)@ =~= old(out)@ + json_escape_char(c));
    } else if c == '\u{8}' {
        crate::evaluate::push_char(out, '\\');
        crate::evaluate::push_char(out, 'b');
        assert(final(out)@ =~= old(out)@ + json_escape_char(c));
    } else if c == '\t' {
        crate::evaluate::push_char(out, '\\');
        crate::evaluate::push_char(out, 't');
        assert(final(out)@ =~= old(out)@ + json_escape_char(c));
    } else if c == '\n' {
        crate::evaluate::push_char(out, '\\');
        crate::evaluate::push_char(out, 'n');
        assert(final(out)@ =~= old(out)@ + json_escape_char(c));
    } else if c == '\u{c}' {
        crate::evaluate::push_char(out, '\\');
        crate::evaluate::push_char(out, 'f');
        assert(final(out)@ =~= old(out)@ + json_escape_char(c));
    } else if c == '\r' {
        crate::evaluate::push_char(out, '\\');
        crate::evaluate::push_char(out, 'r');
        assert(final(out)@ =~= old(out)@ + json_escape_char(c));
    } else if n < 0x20 {
        crate::evaluate::push_char(out, '\\');
        crate::evaluate::push_char(out, 'u');
        crate::evaluate::push_char(out, '0');
        crate::evaluate::push_char(out, '0');
        crate::evaluate::push_char(out, crate::evaluate::hex_digit_char(n / 16));
        crate::evaluate::push_char(out, crate::evaluate::hex_digit_char(n % 16));
        assert(final(out)@ =~= old(out)@ + json_escape_char(c));
    } else {
        crate::evaluate::push_char(out, c);
        assert(final(out)@ =~= old(out)@ + json_escape_char(c));
    }
}

/// Appends the escaped body of `s` to `out`.
#[verifier::loop_isolation(false)]
fn write_string_body(out: &mut String, s: &String)
    ensures
        final(out)@ == old(out)@ + json_string_body(s@),
{
    let cs = crate::evaluate::str_chars(s.as_str());
    let mut i: usize = 0;
    proof {
        assert(json_string_body(cs@.take(0)) =~= Seq::<char>::empty());
        assert(old(out)@ + Seq::<char>::empty() =~= old(out)@);
    }
    while i < cs.len()
        invariant
            i <= cs.len(),
            out@ == old(out)@ + json_string_body(cs@.take(i as int)),
        decreases cs.len() - i,
    {
        proof {
            assert(cs@.take(i as int).push(cs@[i as int]) =~= cs@.take(i + 1));
            lemma_json_body_snoc(cs@.take(i as int), cs@[i as int]);
        }
        push_json_escaped(out, cs[i]);
        i += 1;
    }
    proof {
        assert(cs@.take(cs@.len() as int) =~= cs@);
    }
}

/// Appends the decimal digits of `n` to `out`.
fn write_decimal(out: &mut String, n: u64)
    ensures
        final(out)@ == old(out)@ + dec_digits(n as nat),
    decreases n,
{
    if n < 10 {
        crate::evaluate::push_char(out, crate::evaluate::hex_digit_char(n as u32));
        assert(final(out)@ =~= old(out)@ + dec_digits(n as nat));
    } else {
        write_decimal(out, n / 10);
        crate::evaluate::push_char(out, crate::evaluate::hex_digit_char((n % 10) as u32));
        assert(final(out)@ =~= old(out)@ + dec_digits(n as nat));
    }
}

/// Appends the JSON text of `v` to `out`; reports whether JSON can carry
/// the value at all.
fn json_write(out: &mut String, v: &Value) -> (ok: bool)
    ensures
        ok ==> json_of(v.model()) is Some && final(out)@ == old(out)@ + json_of(v.model())->0,
        !ok ==> json_of(v.model()) is None,
    decreases v, 0nat,
{
    match v {
        Value::Null => {
            out.append("null");
            true
        },
        Value::Bool(b) => {
            if *b {
                out.append("true");
            } else {
                out.append("false");
            }
            true
        },
        Value::Number(n) => {
            if *n >= 0 {
                write_decimal(out, *n as u64);
            } else {
                crate::evaluate::push_char(out, '-');
                let m: u64 = (-(*n as i128)) as u64;
                write_decimal(out, m);
                proof {
                    assert(final(out)@ =~= old(out)@ + dec_of(v.model()->Number_0));
                }
            }
            true
        },
        Value::Str(s) => {
            crate::evaluate::push_char(out, '"');
            write_string_body(out, s);
            crate::evaluate::push_char(out, '"');
            proof {
                assert(final(out)@ =~= old(out)@ + (seq!['"'] + json_string_body(s@) + seq![
                    '"',
                ]));
            }
            true
        },
        Value::Sequence(es) => {
            proof {
                assert(model_elems(es@).skip(0) =~= model_elems(es@));
            }
            crate::evaluate::push_char(out, '[');
            let ok = json_write_elems(out, es, 0);
            if !ok {
                return false;
            }
            crate::evaluate::push_char(out, ']');
            proof {
                assert(model_elems(es@).skip(0) =~= model_elems(es@));
                assert(final(out)@ =~= old(out)@ + (seq!['['] + json_elems(model_elems(es@))->0
                    + seq![']']));
            }
            true
        },
        Value::Mapping(es) => {
            proof {
                assert(model_entries(es@).skip(0) =~= model_entries(es@));
            }
            crate::evaluate::push_char(out, '{');
            let ok = json_write_entries(out, es, 0);
            if !ok {
                return false;
            }
            crate::evaluate::push_char(out, '}');
            proof {
                assert(model_entries(es@).skip(0) =~= model_entries(es@));
                assert(final(out)@ =~= old(out)@ + (seq!['{'] + json_entries(model_entries(
                    es@,
                ))->0 + seq!['}']));
            }
            true
        },
        Value::Tagged(_, _) => false,
    }
}

/// Appends the elements from index `i` on, comma-separated.
fn json_write_elems(out: &mut String, es: &Vec<Value>, i: usize) -> (ok: bool)
    requires
        i <= es@.len(),
    ensures
        ok ==> json_elems(model_elems(es@).skip(i as int)) is Some && final(out)@ == old(out)@
            + json_elems(model_elems(es@).skip(i as int))->0,
        !ok ==> json_elems(model_elems(es@).skip(i as int)) is None,
    decreases es@, es@.len() - i,
{
    broadcast use crate::value::group_value_model;

    let ghost tail = model_elems(es@).skip(i as int);
    if i == es.len() {
        proof {
            assert(tail =~= Seq::<ValueV>::empty());
            assert(old(out)@ + Seq::<char>::empty() =~= old(out)@);
        }
        true
    } else {
        proof {
            assert(tail[0] == es@[i as int].model());
            assert(tail.drop_first() =~= model_elems(es@).skip(i + 1));
        }
        let ok = json_write(out, &es[i]);
        if !ok {
            return false;
        }
        if i + 1 == es.len() {
            proof {
                assert(tail.len() == 1);
            }
            true
        } else {
            crate::evaluate::push_char(out, ',');
            let ok2 = json_write_elems(out, es, i + 1);
            if !ok2 {
                return false;
            }
            proof {
                assert(final(out)@ =~= old(out)@ + (json_of(tail[0])->0 + seq![','] + json_elems(
                    tail.drop_first(),
                )->0));
            }
            true
        }
    }
}

/// Appends the entries from index `i` on, comma-separated; a key that is
/// not a string has no JSON form.
fn json_write_entries(out: &mut String, es: &Vec<(Value, Value)>, i: usize) -> (ok: bool)
    requires
        i <= es@.len(),
    ensures
        ok ==> json_entries(model_entries(es@).skip(i as int)) is Some && final(out)@ == old(
            out,
        )@ + json_entries(model_entries(es@).skip(i as int))->0,
        !ok ==> json_entries(model_entries(es@).skip(i as int)) is None,
    decreases es@, es@.len() - i,
{
    broadcast use crate::value::group_value_model;

    let ghost tail = model_entries(es@).skip(i as int);
    if i == es.len() {
        proof {
            assert(tail =~= Seq::<(ValueV, ValueV)>::empty());
            assert(old(out)@ + Seq::<char>::empty() =~= old(out)@);
        }
        true
    } else {
        proof {
            assert(tail[0] == (es@[i as int].0.model(), es@[i as int].1.model()));
            assert(tail.drop_first() =~= model_entries(es@).skip(i + 1));
        }
        match &es[i].0 {
            Value::Str(k) => {
                crate::evaluate::push_char(out, '"');
                write_string_body(out, k);
                crate::evaluate::push_char(out, '"');
                crate::evaluate::push_char(out, ':');
                let ok = json_write(out, &es[i].1);
                if !ok {
                    return false;
                }
                let ghost entry = seq!['"'] + json_string_body(k@) + seq!['"'] + seq![':']
                    + json_of(tail[0].1)->0;
                proof {
                    assert(out@ =~= old(out)@ + entry);
                }
                if i + 1 == es.len() {
                    proof {
                        assert(tail.len() == 1);
                    }
                    true
                } else {
                    crate::evaluate::push_char(out, ',');
                    let ok2 = json_write_entries(out, es, i + 1);
                    if !ok2 {
                        return false;
                    }
                    proof {
                        assert(final(out)@ =~= old(out)@ + (entry + seq![','] + json_entries(
                            tail.drop_first(),
                        )->0));
                    }
                    true
                }
            },
            _ => false,
        }
    }
}

/// The structured-data helper handed to the scripting runtime.
#[derive(Debug, Clone, Copy)]
pub struct LuauJson;

impl LuauJson {
    /// The JSON text of a value; a mapping keyed by a non-string, or a
    /// tagged node, cannot be serialized.
    pub fn stringify(value: &Value) -> (r: Result<String, String>)
        ensures
            match r {
                Ok(s) => json_of(value.model()) == Some(s@),
                Err(_) => json_of(value.model()) is None,
            },
    {
        let mut out = String::new();
        if json_write(&mut out, value) {
            Ok(out)
        } else {
            Err("Cannot serialize value.".to_owned())
        }
    }
}

/// Whether `c` is a lowercase hexadecimal digit.
pub open spec fn is_lower_hex(c: char) -> bool {
    ('0' <= c && c <= '9') || ('a' <= c && c <= 'f')
}

/// Whether `s` is a hyphenated version-4 identifier: 36 characters,
/// hyphens at the four group breaks, lowercase hex digits elsewhere, and
/// the version digit at the head of the third group.
pub open spec fn is_hyphenated_v4(s: Seq<char>) -> bool {
    &&& s.len() == 36
    &&& forall|i: int| 0 <= i < 36 ==> #[trigger] s[i] == '-' <==> (i == 8 || i == 13 || i == 18
        || i == 23)
    &&& forall|i: int| 0 <= i < 36 && !(i == 8 || i == 13 || i == 18 || i == 23)
        ==> is_lower_hex(#[trigger] s[i])
    &&& s[14] == '4'
}

/// Relies on `uuid::Uuid::new_v4` and its hyphenated lowercase display: a
/// random version-4 identifier written as 36 characters, hyphens at the
/// group breaks and the version digit in place.
#[verifier::external_body]
fn uuid_v4_string() -> (r: String)
    ensures
        is_hyphenated_v4(r@),
{
    uuid::Uuid::new_v4().to_string()
}

/// The identifier helper handed to the scripting runtime.
#[derive(Debug, Clone, Copy)]
pub struct LuauUuid;

impl LuauUuid {
    /// A fresh random identifier in its hyphenated version-4 form.
    pub fn v4() -> (r: String)
        ensures
            is_hyphenated_v4(r@),
    {
        uuid_v4_string()
    }
}

} // verus!
