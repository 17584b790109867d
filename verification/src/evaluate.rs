//! The tagged-value evaluation DSL: plain collections evaluate their
//! children and re-insert; tagged nodes inject, splice or run a shell
//! command, whose captured output has its control bytes escaped.

use vstd::prelude::*;

use crate::value::{model_elems, model_entries, Value, ValueV};
use crate::value::{find_key, first_key_index, mapping_contains_key};
use crate::utils::merge_model;

verus! {

broadcast use {vstd::std_specs::vec::axiom_vec_index_decreases, vstd::string::group_string_axioms};

/// The result of evaluating one node: `Insert` replaces the node's slot,
/// `Merge` splices the value into the parent collection.
#[derive(Debug, PartialEq)]
pub enum EvaluationResult {
    Insert(Value),
    Merge(Value),
}

/// The model of an `EvaluationResult`.
#[verifier::ext_equal]
pub enum EvalResultV {
    Insert(ValueV),
    Merge(ValueV),
}

impl EvaluationResult {
    /// The model of this evaluation result.
    pub open spec fn model(&self) -> EvalResultV {
        match self {
            EvaluationResult::Insert(v) => EvalResultV::Insert(v.model()),
            EvaluationResult::Merge(v) => EvalResultV::Merge(v.model()),
        }
    }
}

/// Why an evaluation failed.
#[derive(Debug, PartialEq, Clone, Copy)]
pub enum EvaluateError {
    /// A tagged node carries a tag outside the DSL.
    UnknownTag,
    /// A tagged node's inner value has the wrong kind for its tag.
    InvalidTagPayload,
    /// A spliced value cannot merge into the surrounding collection.
    InvalidMerge,
    /// The shell command could not be run.
    ShellFailed,
}

impl EvaluateError {
    /// A short description of the failure.
    pub fn message(&self) -> String {
        match self {
            EvaluateError::UnknownTag => "Unknown tag".to_owned(),
            EvaluateError::InvalidTagPayload => "Invalid tag payload".to_owned(),
            EvaluateError::InvalidMerge => "Invalid merge".to_owned(),
            EvaluateError::ShellFailed => "Shell command failed".to_owned(),
        }
    }
}

// ----------------------------------------------------------------------
// Escaping of captured shell output.
// ----------------------------------------------------------------------

/// Whether `c` is a control character (the C0 and C1 ranges and DEL).
pub open spec fn is_control_char(c: char) -> bool {
    (c as int) < 0x20 || (0x7f <= c as int && c as int <= 0x9f)
}

/// The lower-case hex digit for `d` (0 to 15).
pub open spec fn hex_digit(d: int) -> char {
    seq!['0', '1', '2', '3', '4', '5', '6', '7', '8', '9', 'a', 'b', 'c', 'd', 'e', 'f'][d]
}

/// Four lower-case hex digits for a code point below 0x10000.
pub open spec fn hex4(n: int) -> Seq<char> {
    seq![
        hex_digit(n / 4096 % 16),
        hex_digit(n / 256 % 16),
        hex_digit(n / 16 % 16),
        hex_digit(n % 16),
    ]
}

/// How one character of captured shell output is written: newlines and
/// printable characters stand as themselves, a tab becomes a literal
/// backslash-t, any other control character becomes backslash-u and four
/// hex digits of its code point.
pub open spec fn escape_char(c: char) -> Seq<char> {
    if c == '\n' {
        seq![c]
    } else if c == '\t' {
        seq!['\\', 't']
    } else if is_control_char(c) {
        seq!['\\', 'u'] + hex4(c as int)
    } else {
        seq![c]
    }
}

/// The escaped form of a whole captured output.
pub open spec fn escape_model(s: Seq<char>) -> Seq<char>
    decreases s,
{
    if s.len() == 0 {
        Seq::empty()
    } else {
        escape_char(s[0]) + escape_model(s.drop_first())
    }
}

proof fn lemma_escape_model_snoc(s: Seq<char>, c: char)
    ensures
        escape_model(s.push(c)) == escape_model(s) + escape_char(c),
    decreases s,
{
    if s.len() == 0 {
        assert(s.push(c)[0] == c);
        assert(s.push(c).drop_first() =~= Seq::<char>::empty());
        assert(escape_model(s.push(c)) =~= escape_char(c) + escape_model(Seq::<char>::empty()));
        assert(escape_char(c) + Seq::<char>::empty() =~= escape_char(c));
        assert(escape_model(s) + escape_char(c) =~= escape_char(c));
    } else {
        assert(s.push(c).drop_first() =~= s.drop_first().push(c));
        lemma_escape_model_snoc(s.drop_first(), c);
        assert(escape_model(s.push(c)) =~= escape_model(s) + escape_char(c));
    }
}

/// Relies on `str::chars`: yields the characters of the string in order.
#[verifier::external_body]
pub(crate) fn str_chars(s: &str) -> (r: Vec<char>)
    ensures
        r@ == s@,
{
    s.chars().collect()
}

/// Relies on `String::push`: appends one character.
#[verifier::external_body]
pub(crate) fn push_char(s: &mut String, c: char)
    ensures
        final(s)@ == old(s)@.push(c),
{
    s.push(c)
}

/// The lower-case hex digit for `d`.
pub(crate) fn hex_digit_char(d: u32) -> (r: char)
    requires
        d < 16,
    ensures
        r == hex_digit(d as int),
{
    if d == 0 { '0' } else if d == 1 { '1' } else if d == 2 { '2' } else if d == 3 { '3' }
    else if d == 4 { '4' } else if d == 5 { '5' } else if d == 6 { '6' } else if d == 7 { '7' }
    else if d == 8 { '8' } else if d == 9 { '9' } else if d == 10 { 'a' } else if d == 11 { 'b' }
    else if d == 12 { 'c' } else if d == 13 { 'd' } else if d == 14 { 'e' } else { 'f' }
}

/// Appends the escaped form of `c` to `out`.
fn push_escaped(out: &mut String, c: char)
    ensures
        final(out)@ == old(out)@ + escape_char(c),
{
    let n = c as u32;
    if c == '\n' {
        push_char(out, c);
        assert(final(out)@ =~= old(out)@ + escape_char(c));
    } else if c == '\t' {
        push_char(out, '\\');
        push_char(out, 't');
        assert(final(out)@ =~= old(out)@ + escape_char(c));
    } else if n < 0x20 || (0x7f <= n && n <= 0x9f) {
        push_char(out, '\\');
        push_char(out, 'u');
        push_char(out, hex_digit_char(n / 4096 % 16));
        push_char(out, hex_digit_char(n / 256 % 16));
        push_char(out, hex_digit_char(n / 16 % 16));
        push_char(out, hex_digit_char(n % 16));
        assert(final(out)@ =~= old(out)@ + escape_char(c));
    } else {
        push_char(out, c);
        assert(final(out)@ =~= old(out)@ + escape_char(c));
    }
}

/// The escaped form of a captured shell output.
#[verifier::loop_isolation(false)]
pub fn escape_output(s: &String) -> (r: String)
    ensures
        r@ == escape_model(s@),
{
    let cs = str_chars(s.as_str());
    let mut out = String::new();
    let mut i: usize = 0;
    while i < cs.len()
        invariant
            i <= cs.len(),
            out@ == escape_model(cs@.take(i as int)),
        decreases cs.len() - i,
    {
        proof {
            assert(cs@.take(i as int).push(cs@[i as int]) =~= cs@.take(i + 1));
            lemma_escape_model_snoc(cs@.take(i as int), cs@[i as int]);
        }
        push_escaped(&mut out, cs[i]);
        i += 1;
    }
    proof {
        assert(cs@.take(cs@.len() as int) =~= cs@);
    }
    out
}

/// Relies on `run_script::run`: executes the command through the system
/// shell and captures its standard output; the exit status is not
/// inspected, so any captured output, success or failure, is returned.
#[verifier::external_body]
fn shell_capture(command: &String) -> (r: Result<String, String>)
{
    let args: Vec<String> = Vec::new();
    match run_script::run(command.as_str(), &args, &run_script::ScriptOptions::new()) {
        Ok((_, output, _)) => Ok(output),
        Err(e) => Err(e.to_string()),
    }
}

// ----------------------------------------------------------------------
// The evaluation model.
// ----------------------------------------------------------------------

/// The outcome of one shell run: the captured output, or nothing where the
/// command could not be run at all.
pub type ShellOut = Option<Seq<char>>;

/// Maps an executable nested-evaluation result onto the model.
pub open spec fn nested_model_of(
    r: Result<EvaluationResult, EvaluateError>,
) -> Result<EvalResultV, EvaluateError> {
    match r {
        Ok(er) => Ok(er.model()),
        Err(e) => Err(e),
    }
}

/// Maps an executable evaluation result onto the model.
pub open spec fn value_model_of(
    r: Result<Value, EvaluateError>,
) -> Result<ValueV, EvaluateError> {
    match r {
        Ok(v) => Ok(v.model()),
        Err(e) => Err(e),
    }
}

/// Inserting `(k, v)` into mapping entries: a present key has its value
/// replaced in place, an absent key is appended at the end.
pub open spec fn mapping_insert_model(
    m: Seq<(ValueV, ValueV)>,
    k: ValueV,
    v: ValueV,
) -> Seq<(ValueV, ValueV)> {
    if mapping_contains_key(m, k) {
        m.update(first_key_index(m, k), (k, v))
    } else {
        m.push((k, v))
    }
}

/// The model of evaluating one node, given the outcomes `outs` of the shell
/// runs it performs, in order. Returns the result and how many outcomes
/// were consumed.
pub open spec fn eval_nested_model(
    v: ValueV,
    outs: Seq<ShellOut>,
) -> (Result<EvalResultV, EvaluateError>, nat)
    decreases v, 0nat,
{
    match v {
        ValueV::Sequence(es) => {
            let (r, n) = eval_elems_model(es, outs);
            match r {
                Ok(s) => (Ok(EvalResultV::Insert(ValueV::Sequence(s))), n),
                Err(e) => (Err(e), n),
            }
        },
        ValueV::Mapping(es) => {
            let (r, n) = eval_entries_model(es, outs, ValueV::Mapping(Seq::empty()));
            match r {
                Ok(m) => (Ok(EvalResultV::Insert(m)), n),
                Err(e) => (Err(e), n),
            }
        },
        ValueV::Tagged(t, inner) => eval_tag_model(t, *inner, outs),
        _ => (Ok(EvalResultV::Insert(v)), 0),
    }
}

/// The model of evaluating the elements of a sequence, left to right:
/// inserted results keep their slot, merged sequences splice their elements
/// into place, and a merged non-sequence cannot splice.
pub open spec fn eval_elems_model(
    es: Seq<ValueV>,
    outs: Seq<ShellOut>,
) -> (Result<Seq<ValueV>, EvaluateError>, nat)
    decreases es, 1nat,
{
    if es.len() == 0 {
        (Ok(Seq::empty()), 0)
    } else {
        let (r0, n0) = eval_nested_model(es[0], outs);
        match r0 {
            Err(e) => (Err(e), n0),
            Ok(EvalResultV::Insert(nv)) => {
                let (r1, n1) = eval_elems_model(es.drop_first(), outs.skip(n0 as int));
                match r1 {
                    Ok(rest) => (Ok(seq![nv] + rest), (n0 + n1) as nat),
                    Err(e) => (Err(e), (n0 + n1) as nat),
                }
            },
            Ok(EvalResultV::Merge(mv)) => match mv {
                ValueV::Sequence(vs) => {
                    let (r1, n1) = eval_elems_model(es.drop_first(), outs.skip(n0 as int));
                    match r1 {
                        Ok(rest) => (Ok(vs + rest), (n0 + n1) as nat),
                        Err(e) => (Err(e), (n0 + n1) as nat),
                    }
                },
                _ => (Err(EvaluateError::InvalidMerge), n0),
            },
        }
    }
}

/// The model of evaluating the entries of a mapping, left to right, into the
/// accumulator `acc`: inserted results are inserted under the entry's key,
/// merged results deep-merge into the accumulator; inserting after a merge
/// has replaced the accumulator with a non-mapping cannot proceed.
pub open spec fn eval_entries_model(
    es: Seq<(ValueV, ValueV)>,
    outs: Seq<ShellOut>,
    acc: ValueV,
) -> (Result<ValueV, EvaluateError>, nat)
    decreases es, 1nat,
{
    if es.len() == 0 {
        (Ok(acc), 0)
    } else {
        let (r0, n0) = eval_nested_model(es[0].1, outs);
        match r0 {
            Err(e) => (Err(e), n0),
            Ok(EvalResultV::Insert(nv)) => match acc {
                ValueV::Mapping(m) => {
                    let acc2 = ValueV::Mapping(mapping_insert_model(m, es[0].0, nv));
                    let (r1, n1) = eval_entries_model(es.drop_first(), outs.skip(n0 as int), acc2);
                    (r1, (n0 + n1) as nat)
                },
                _ => (Err(EvaluateError::InvalidMerge), n0),
            },
            Ok(EvalResultV::Merge(mv)) => {
                let acc2 = merge_model(acc, mv);
                let (r1, n1) = eval_entries_model(es.drop_first(), outs.skip(n0 as int), acc2);
                (r1, (n0 + n1) as nat)
            },
        }
    }
}

/// The model of evaluating one tagged node.
pub open spec fn eval_tag_model(
    t: Seq<char>,
    inner: ValueV,
    outs: Seq<ShellOut>,
) -> (Result<EvalResultV, EvaluateError>, nat) {
    if t == "TransparentSequence"@ {
        match inner {
            ValueV::Sequence(_) => (Ok(EvalResultV::Insert(inner)), 0),
            _ => (Err(EvaluateError::InvalidTagPayload), 0),
        }
    } else if t == "TransparentMapping"@ {
        match inner {
            ValueV::Mapping(_) => (Ok(EvalResultV::Insert(inner)), 0),
            _ => (Err(EvaluateError::InvalidTagPayload), 0),
        }
    } else if t == "MergeSequence"@ {
        match inner {
            ValueV::Sequence(_) => (Ok(EvalResultV::Merge(inner)), 0),
            _ => (Err(EvaluateError::InvalidTagPayload), 0),
        }
    } else if t == "MergeMapping"@ {
        match inner {
            ValueV::Mapping(_) => (Ok(EvalResultV::Merge(inner)), 0),
            _ => (Err(EvaluateError::InvalidTagPayload), 0),
        }
    } else if t == "Shell"@ {
        match inner {
            ValueV::Str(_) => {
                if outs.len() > 0 {
                    match outs[0] {
                        Some(o) => (Ok(EvalResultV::Insert(ValueV::Str(escape_model(o)))), 1),
                        None => (Err(EvaluateError::ShellFailed), 1),
                    }
                } else {
                    (Err(EvaluateError::ShellFailed), 1)
                }
            },
            _ => (Err(EvaluateError::InvalidTagPayload), 0),
        }
    } else {
        (Err(EvaluateError::UnknownTag), 0)
    }
}

/// The model of a whole evaluation: the nested result's value, whether it
/// asked to be inserted or merged.
pub open spec fn eval_model(
    v: ValueV,
    outs: Seq<ShellOut>,
) -> (Result<ValueV, EvaluateError>, nat) {
    let (r, n) = eval_nested_model(v, outs);
    match r {
        Ok(EvalResultV::Insert(x)) => (Ok(x), n),
        Ok(EvalResultV::Merge(x)) => (Ok(x), n),
        Err(e) => (Err(e), n),
    }
}

// ----------------------------------------------------------------------
// Shell outcomes beyond the ones a node consumes do not change its result.
// ----------------------------------------------------------------------

proof fn lemma_eval_nested_extend(v: ValueV, outs: Seq<ShellOut>, ext: Seq<ShellOut>)
    requires
        eval_nested_model(v, outs).1 <= outs.len(),
    ensures
        eval_nested_model(v, outs + ext) == eval_nested_model(v, outs),
    decreases v, 0nat,
{
    lemma_tag_literals();
    match v {
        ValueV::Sequence(es) => {
            lemma_eval_elems_extend(es, outs, ext);
        },
        ValueV::Mapping(es) => {
            lemma_eval_entries_extend(es, outs, ValueV::Mapping(Seq::empty()), ext);
        },
        ValueV::Tagged(t, inner) => {
            if t == "Shell"@ && (*inner) is Str {
                assert(eval_tag_model(t, *inner, outs).1 == 1);
                assert(outs.len() >= 1);
                assert((outs + ext)[0] == outs[0]);
                assert((outs + ext).len() > 0);
            }
        },
        _ => {},
    }
}

proof fn lemma_eval_elems_extend(es: Seq<ValueV>, outs: Seq<ShellOut>, ext: Seq<ShellOut>)
    requires
        eval_elems_model(es, outs).1 <= outs.len(),
    ensures
        eval_elems_model(es, outs + ext) == eval_elems_model(es, outs),
    decreases es, 1nat,
{
    if es.len() != 0 {
        let (r0, n0) = eval_nested_model(es[0], outs);
        lemma_eval_nested_extend(es[0], outs, ext);
        match r0 {
            Err(_) => {},
            Ok(EvalResultV::Insert(_)) => {
                assert((outs + ext).skip(n0 as int) =~= outs.skip(n0 as int) + ext);
                lemma_eval_elems_extend(es.drop_first(), outs.skip(n0 as int), ext);
            },
            Ok(EvalResultV::Merge(mv)) => match mv {
                ValueV::Sequence(_) => {
                    assert((outs + ext).skip(n0 as int) =~= outs.skip(n0 as int) + ext);
                    lemma_eval_elems_extend(es.drop_first(), outs.skip(n0 as int), ext);
                },
                _ => {},
            },
        }
    }
}

proof fn lemma_eval_entries_extend(
    es: Seq<(ValueV, ValueV)>,
    outs: Seq<ShellOut>,
    acc: ValueV,
    ext: Seq<ShellOut>,
)
    requires
        eval_entries_model(es, outs, acc).1 <= outs.len(),
    ensures
        eval_entries_model(es, outs + ext, acc) == eval_entries_model(es, outs, acc),
    decreases es, 1nat,
{
    if es.len() != 0 {
        let (r0, n0) = eval_nested_model(es[0].1, outs);
        lemma_eval_nested_extend(es[0].1, outs, ext);
        match r0 {
            Err(_) => {},
            Ok(EvalResultV::Insert(nv)) => {
                match acc {
                    ValueV::Mapping(m) => {
                        let acc2 = ValueV::Mapping(mapping_insert_model(m, es[0].0, nv));
                        assert((outs + ext).skip(n0 as int) =~= outs.skip(n0 as int) + ext);
                        lemma_eval_entries_extend(es.drop_first(), outs.skip(n0 as int), acc2, ext);
                    },
                    _ => {},
                }
            },
            Ok(EvalResultV::Merge(mv)) => {
                let acc2 = merge_model(acc, mv);
                assert((outs + ext).skip(n0 as int) =~= outs.skip(n0 as int) + ext);
                lemma_eval_entries_extend(es.drop_first(), outs.skip(n0 as int), acc2, ext);
            },
        }
    }
}


/// The five tag names of the DSL are pairwise distinct.
proof fn lemma_tag_literals()
    ensures
        "TransparentSequence"@.len() == 19,
        "TransparentMapping"@.len() == 18,
        "MergeSequence"@.len() == 13,
        "MergeMapping"@.len() == 12,
        "Shell"@.len() == 5,
{
    reveal_strlit("TransparentSequence");
    reveal_strlit("TransparentMapping");
    reveal_strlit("MergeSequence");
    reveal_strlit("MergeMapping");
    reveal_strlit("Shell");
}

// ----------------------------------------------------------------------
// The executable evaluator.
// ----------------------------------------------------------------------

/// The decoded form of a tagged node: the closed set of DSL tags.
#[derive(Debug, PartialEq)]
pub enum CustomTag {
    TransparentSequence(Vec<Value>),
    TransparentMapping(Vec<(Value, Value)>),
    MergeSequence(Vec<Value>),
    MergeMapping(Vec<(Value, Value)>),
    Shell(String),
}

/// Whether `tag` reads as the literal `lit`.
fn tag_is(tag: &String, lit: &str) -> (r: bool)
    ensures
        r == (tag@ == lit@),
{
    tag.eq(&lit.to_owned())
}

/// Decodes a tagged node into the closed tag sum: the tag name selects the
/// variant and the inner value must carry the kind the tag asks for.
pub fn decode_custom(tag: &String, inner: &Value) -> (r: Result<CustomTag, EvaluateError>)
    ensures
        match r {
            Ok(CustomTag::TransparentSequence(vs)) => tag@ == "TransparentSequence"@
                && inner.model() == ValueV::Sequence(model_elems(vs@)),
            Ok(CustomTag::TransparentMapping(es)) => tag@ == "TransparentMapping"@
                && inner.model() == ValueV::Mapping(model_entries(es@)),
            Ok(CustomTag::MergeSequence(vs)) => tag@ == "MergeSequence"@
                && inner.model() == ValueV::Sequence(model_elems(vs@)),
            Ok(CustomTag::MergeMapping(es)) => tag@ == "MergeMapping"@
                && inner.model() == ValueV::Mapping(model_entries(es@)),
            Ok(CustomTag::Shell(cmd)) => tag@ == "Shell"@ && inner.model() == ValueV::Str(cmd@),
            Err(EvaluateError::UnknownTag) => tag@ != "TransparentSequence"@
                && tag@ != "TransparentMapping"@ && tag@ != "MergeSequence"@
                && tag@ != "MergeMapping"@ && tag@ != "Shell"@,
            Err(EvaluateError::InvalidTagPayload) => {
                ||| (tag@ == "TransparentSequence"@ || tag@ == "MergeSequence"@)
                    && !(inner.model() is Sequence)
                ||| (tag@ == "TransparentMapping"@ || tag@ == "MergeMapping"@)
                    && !(inner.model() is Mapping)
                ||| tag@ == "Shell"@ && !(inner.model() is Str)
            },
            Err(_) => false,
        },
{
    if tag_is(tag, "TransparentSequence") {
        match inner.clone() {
            Value::Sequence(vs) => Ok(CustomTag::TransparentSequence(vs)),
            _ => Err(EvaluateError::InvalidTagPayload),
        }
    } else if tag_is(tag, "TransparentMapping") {
        match inner.clone() {
            Value::Mapping(es) => Ok(CustomTag::TransparentMapping(es)),
            _ => Err(EvaluateError::InvalidTagPayload),
        }
    } else if tag_is(tag, "MergeSequence") {
        match inner.clone() {
            Value::Sequence(vs) => Ok(CustomTag::MergeSequence(vs)),
            _ => Err(EvaluateError::InvalidTagPayload),
        }
    } else if tag_is(tag, "MergeMapping") {
        match inner.clone() {
            Value::Mapping(es) => Ok(CustomTag::MergeMapping(es)),
            _ => Err(EvaluateError::InvalidTagPayload),
        }
    } else if tag_is(tag, "Shell") {
        match inner.clone() {
            Value::Str(cmd) => Ok(CustomTag::Shell(cmd)),
            _ => Err(EvaluateError::InvalidTagPayload),
        }
    } else {
        Err(EvaluateError::UnknownTag)
    }
}

/// Runs a shell command and wraps its escaped output for insertion.
fn evaluate_shell(st: &String) -> (r: (Result<EvaluationResult, EvaluateError>, Ghost<Seq<ShellOut>>))
    ensures
        r.1@.len() == 1,
        match r.0 {
            Ok(er) => r.1@[0] is Some && er.model() == EvalResultV::Insert(
                ValueV::Str(escape_model(r.1@[0]->0)),
            ),
            Err(e) => e == EvaluateError::ShellFailed && r.1@[0] is None,
        },
{
    match shell_capture(st) {
        Ok(out) => {
            let ghost o: Seq<ShellOut> = seq![Some(out@)];
            let escaped = escape_output(&out);
            (Ok(EvaluationResult::Insert(Value::Str(escaped))), Ghost(o))
        },
        Err(_) => {
            let ghost o: Seq<ShellOut> = seq![Option::None];
            (Err(EvaluateError::ShellFailed), Ghost(o))
        },
    }
}

/// Evaluates one tagged node: decode the tag, then inject, splice or run.
fn evaluate_custom(tag: &String, inner: &Value) -> (r: (
    Result<EvaluationResult, EvaluateError>,
    Ghost<Seq<ShellOut>>,
))
    ensures
        eval_tag_model(tag@, inner.model(), r.1@) == (nested_model_of(r.0), r.1@.len() as nat),
{
    proof {
        lemma_tag_literals();
    }
    match decode_custom(tag, inner) {
        Err(e) => (Err(e), Ghost(Seq::empty())),
        Ok(CustomTag::TransparentSequence(vs)) => (
            Ok(EvaluationResult::Insert(Value::Sequence(vs))),
            Ghost(Seq::empty()),
        ),
        Ok(CustomTag::TransparentMapping(es)) => (
            Ok(EvaluationResult::Insert(Value::Mapping(es))),
            Ghost(Seq::empty()),
        ),
        Ok(CustomTag::MergeSequence(vs)) => (
            Ok(EvaluationResult::Merge(Value::Sequence(vs))),
            Ghost(Seq::empty()),
        ),
        Ok(CustomTag::MergeMapping(es)) => (
            Ok(EvaluationResult::Merge(Value::Mapping(es))),
            Ghost(Seq::empty()),
        ),
        Ok(CustomTag::Shell(cmd)) => evaluate_shell(&cmd),
    }
}

/// Maps an executable element-list result onto the model.
pub open spec fn elems_model_of(
    r: Result<Vec<Value>, EvaluateError>,
) -> Result<Seq<ValueV>, EvaluateError> {
    match r {
        Ok(v) => Ok(model_elems(v@)),
        Err(e) => Err(e),
    }
}

/// Evaluates the elements of `es` from index `i` on.
fn eval_elems_impl(es: &Vec<Value>, i: usize) -> (r: (
    Result<Vec<Value>, EvaluateError>,
    Ghost<Seq<ShellOut>>,
))
    requires
        i <= es.len(),
    ensures
        eval_elems_model(model_elems(es@).skip(i as int), r.1@) == (
            elems_model_of(r.0),
            r.1@.len() as nat,
        ),
    decreases es@, es@.len() - i,
{
    broadcast use crate::value::group_value_model;

    if i == es.len() {
        proof {
            assert(model_elems(es@).skip(i as int) =~= Seq::<ValueV>::empty());
        }
        (Ok(Vec::new()), Ghost(Seq::empty()))
    } else {
        let ghost tail = model_elems(es@).skip(i as int);
        proof {
            assert(tail[0] == es@[i as int].model());
            assert(tail.drop_first() =~= model_elems(es@).skip(i + 1));
        }
        let (r0, o0) = evaluate_nested_impl(&es[i]);
        match r0 {
            Err(e) => (Err(e), o0),
            Ok(EvaluationResult::Insert(nv)) => {
                let (r1, o1) = eval_elems_impl(es, i + 1);
                proof {
                    lemma_eval_nested_extend(es@[i as int].model(), o0@, o1@);
                    assert((o0@ + o1@).skip(o0@.len() as int) =~= o1@);
                }
                match r1 {
                    Err(e) => (Err(e), Ghost(o0@ + o1@)),
                    Ok(rest) => {
                        let ghost rv = rest@;
                        let mut rest = rest;
                        rest.insert(0, nv);
                        proof {
                            assert(model_elems(rest@) =~= seq![nv.model()] + model_elems(rv));
                        }
                        (Ok(rest), Ghost(o0@ + o1@))
                    },
                }
            },
            Ok(EvaluationResult::Merge(mv)) => match mv {
                Value::Sequence(vs) => {
                    let (r1, o1) = eval_elems_impl(es, i + 1);
                    proof {
                        lemma_eval_nested_extend(es@[i as int].model(), o0@, o1@);
                        assert((o0@ + o1@).skip(o0@.len() as int) =~= o1@);
                    }
                    match r1 {
                        Err(e) => (Err(e), Ghost(o0@ + o1@)),
                        Ok(rest) => {
                            let ghost vv = vs@;
                            let ghost rv = rest@;
                            let mut vs = vs;
                            let mut rest = rest;
                            vs.append(&mut rest);
                            proof {
                                crate::value::lemma_model_elems_append(vv, rv);
                                assert(vs@ =~= vv + rv);
                            }
                            (Ok(vs), Ghost(o0@ + o1@))
                        },
                    }
                },
                _ => (Err(EvaluateError::InvalidMerge), o0),
            },
        }
    }
}

/// Evaluates the entries of `es` from index `i` on, into the accumulator.
fn eval_entries_impl(es: &Vec<(Value, Value)>, i: usize, acc: Value) -> (r: (
    Result<Value, EvaluateError>,
    Ghost<Seq<ShellOut>>,
))
    requires
        i <= es.len(),
    ensures
        eval_entries_model(model_entries(es@).skip(i as int), r.1@, acc.model()) == (
            value_model_of(r.0),
            r.1@.len() as nat,
        ),
    decreases es@, es@.len() - i,
{
    broadcast use crate::value::group_value_model;

    if i == es.len() {
        proof {
            assert(model_entries(es@).skip(i as int) =~= Seq::<(ValueV, ValueV)>::empty());
        }
        (Ok(acc), Ghost(Seq::empty()))
    } else {
        let ghost tail = model_entries(es@).skip(i as int);
        proof {
            assert(tail[0] == (es@[i as int].0.model(), es@[i as int].1.model()));
            assert(tail.drop_first() =~= model_entries(es@).skip(i + 1));
        }
        let (r0, o0) = evaluate_nested_impl(&es[i].1);
        match r0 {
            Err(e) => (Err(e), o0),
            Ok(EvaluationResult::Insert(nv)) => match acc {
                Value::Mapping(m) => {
                    let ghost m0 = m@;
                    let mut m = m;
                    match find_key(&m, &es[i].0) {
                        None => {
                            m.push((es[i].0.clone(), nv));
                            proof {
                                assert(model_entries(m@) =~= mapping_insert_model(
                                    model_entries(m0),
                                    es@[i as int].0.model(),
                                    nv.model(),
                                )) by {
                                    assert(model_entries(m@) =~= model_entries(m0).push(
                                        (es@[i as int].0.model(), nv.model()),
                                    ));
                                }
                            }
                        },
                        Some(j) => {
                            let (k0, _old_v) = m.remove(j);
                            m.insert(j, (k0, nv));
                            proof {
                                assert(model_entries(m@) =~= mapping_insert_model(
                                    model_entries(m0),
                                    es@[i as int].0.model(),
                                    nv.model(),
                                )) by {
                                    assert(model_entries(m0)[j as int].0 == m0[j as int].0.model());
                                    assert(mapping_contains_key(
                                        model_entries(m0),
                                        es@[i as int].0.model(),
                                    ));
                                    assert(m@ =~= m0.update(j as int, (m0[j as int].0, nv)));
                                    assert(model_entries(m@) =~= model_entries(m0).update(
                                        j as int,
                                        (m0[j as int].0.model(), nv.model()),
                                    ));
                                }
                            }
                        },
                    }
                    let acc2 = Value::Mapping(m);
                    let (r1, o1) = eval_entries_impl(es, i + 1, acc2);
                    proof {
                        lemma_eval_nested_extend(es@[i as int].1.model(), o0@, o1@);
                        assert((o0@ + o1@).skip(o0@.len() as int) =~= o1@);
                    }
                    (r1, Ghost(o0@ + o1@))
                },
                _ => (Err(EvaluateError::InvalidMerge), o0),
            },
            Ok(EvaluationResult::Merge(mv)) => {
                let mut acc2 = acc;
                crate::utils::merge_yaml(&mut acc2, mv);
                let (r1, o1) = eval_entries_impl(es, i + 1, acc2);
                proof {
                    lemma_eval_nested_extend(es@[i as int].1.model(), o0@, o1@);
                    assert((o0@ + o1@).skip(o0@.len() as int) =~= o1@);
                }
                (r1, Ghost(o0@ + o1@))
            },
        }
    }
}

/// Evaluates one node, returning the result together with the outcomes of
/// the shell runs it performed.
fn evaluate_nested_impl(value: &Value) -> (r: (
    Result<EvaluationResult, EvaluateError>,
    Ghost<Seq<ShellOut>>,
))
    ensures
        eval_nested_model(value.model(), r.1@) == (nested_model_of(r.0), r.1@.len() as nat),
    decreases value, 0nat,
{
    match value {
        Value::Sequence(vs) => {
            let (r0, o0) = eval_elems_impl(vs, 0);
            proof {
                assert(model_elems(vs@).skip(0) =~= model_elems(vs@));
            }
            match r0 {
                Ok(out_vs) => (Ok(EvaluationResult::Insert(Value::Sequence(out_vs))), o0),
                Err(e) => (Err(e), o0),
            }
        },
        Value::Mapping(es) => {
            let acc: Vec<(Value, Value)> = Vec::new();
            proof {
                assert(model_entries(acc@) =~= Seq::<(ValueV, ValueV)>::empty());
            }
            let (r0, o0) = eval_entries_impl(es, 0, Value::Mapping(acc));
            proof {
                assert(model_entries(es@).skip(0) =~= model_entries(es@));
            }
            match r0 {
                Ok(v) => (Ok(EvaluationResult::Insert(v)), o0),
                Err(e) => (Err(e), o0),
            }
        },
        Value::Tagged(t, inner) => evaluate_custom(t, inner),
        _ => (Ok(EvaluationResult::Insert(value.clone())), Ghost(Seq::empty())),
    }
}

/// Evaluates one node of the value tree bottom-up, returning whether the
/// result replaces its slot or splices into the parent. For some order of
/// shell outcomes the result is exactly the model's; a value without shell
/// nodes at evaluation positions evaluates the same way for every outcome.
pub fn evaluate_nested(value: &Value) -> (r: Result<EvaluationResult, EvaluateError>)
    ensures
        exists|outs: Seq<ShellOut>| #![auto]
            eval_nested_model(value.model(), outs) == (nested_model_of(r), outs.len() as nat),
        tag_free(value.model()) && well_formed(value.model()) ==> nested_model_of(r)
            == Ok::<EvalResultV, EvaluateError>(EvalResultV::Insert(value.model())),
{
    let (r, o) = evaluate_nested_impl(value);
    proof {
        assert(eval_nested_model(value.model(), o@) == (nested_model_of(r), o@.len() as nat));
        if tag_free(value.model()) && well_formed(value.model()) {
            lemma_eval_nested_identity(value.model(), o@);
        }
    }
    r
}

/// Evaluates a value tree: the DSL's single entry point. The result carries
/// the evaluated value whether the root asked to insert or to merge.
pub fn evaluate(value: &Value) -> (r: Result<Value, EvaluateError>)
    ensures
        exists|outs: Seq<ShellOut>| #![auto]
            eval_model(value.model(), outs) == (value_model_of(r), outs.len() as nat),
        tag_free(value.model()) && well_formed(value.model()) ==> value_model_of(r)
            == Ok::<ValueV, EvaluateError>(value.model()),
{
    let (nested, o) = evaluate_nested_impl(value);
    let r = match nested {
        Ok(EvaluationResult::Insert(v)) => Ok(v),
        Ok(EvaluationResult::Merge(v)) => Ok(v),
        Err(e) => Err(e),
    };
    proof {
        assert(eval_model(value.model(), o@) == (value_model_of(r), o@.len() as nat));
        if tag_free(value.model()) && well_formed(value.model()) {
            lemma_evaluate_identity(value.model(), o@);
        }
    }
    r
}

// ----------------------------------------------------------------------
// Laws of evaluation.
// ----------------------------------------------------------------------

/// Whether a value contains no tagged node anywhere.
pub open spec fn tag_free(v: ValueV) -> bool
    decreases v,
{
    match v {
        ValueV::Tagged(_, _) => false,
        ValueV::Sequence(es) => forall|i: int| 0 <= i < es.len() ==> tag_free(#[trigger] es[i]),
        ValueV::Mapping(es) => forall|i: int| #![trigger es[i]] 0 <= i < es.len()
            ==> tag_free(es[i].0) && tag_free(es[i].1),
        _ => true,
    }
}

/// Whether every mapping in the value has pairwise-distinct keys.
pub open spec fn well_formed(v: ValueV) -> bool
    decreases v,
{
    match v {
        ValueV::Sequence(es) => forall|i: int| 0 <= i < es.len()
            ==> well_formed(#[trigger] es[i]),
        ValueV::Mapping(es) => {
            &&& forall|i: int, j: int| #![trigger es[i], es[j]] 0 <= i < j < es.len()
                ==> es[i].0 != es[j].0
            &&& forall|i: int| #![trigger es[i]] 0 <= i < es.len()
                ==> well_formed(es[i].0) && well_formed(es[i].1)
        },
        ValueV::Tagged(_, inner) => well_formed(*inner),
        _ => true,
    }
}

proof fn lemma_eval_nested_identity(v: ValueV, outs: Seq<ShellOut>)
    requires
        tag_free(v),
        well_formed(v),
    ensures
        eval_nested_model(v, outs) == (Ok::<EvalResultV, EvaluateError>(EvalResultV::Insert(v)), 0nat),
    decreases v, 0nat,
{
    match v {
        ValueV::Sequence(es) => {
            lemma_eval_elems_identity(es, outs);
        },
        ValueV::Mapping(es) => {
            lemma_eval_entries_identity(es, outs, Seq::empty());
            assert(Seq::<(ValueV, ValueV)>::empty() + es =~= es);
        },
        _ => {},
    }
}

proof fn lemma_eval_elems_identity(es: Seq<ValueV>, outs: Seq<ShellOut>)
    requires
        forall|i: int| 0 <= i < es.len() ==> tag_free(#[trigger] es[i]),
        forall|i: int| 0 <= i < es.len() ==> well_formed(#[trigger] es[i]),
    ensures
        eval_elems_model(es, outs) == (Ok::<Seq<ValueV>, EvaluateError>(es), 0nat),
    decreases es, 1nat,
{
    if es.len() == 0 {
        assert(es =~= Seq::<ValueV>::empty());
    } else {
        lemma_eval_nested_identity(es[0], outs);
        assert(outs.skip(0) =~= outs);
        assert(forall|i: int| 0 <= i < es.drop_first().len()
            ==> #[trigger] es.drop_first()[i] == es[i + 1]);
        lemma_eval_elems_identity(es.drop_first(), outs);
        assert(seq![es[0]] + es.drop_first() =~= es);
    }
}

proof fn lemma_eval_entries_identity(
    es: Seq<(ValueV, ValueV)>,
    outs: Seq<ShellOut>,
    acc: Seq<(ValueV, ValueV)>,
)
    requires
        forall|i: int| #![trigger es[i]] 0 <= i < es.len() ==> tag_free(es[i].1),
        forall|i: int| #![trigger es[i]] 0 <= i < es.len() ==> well_formed(es[i].1),
        forall|i: int, j: int| #![trigger es[i], es[j]] 0 <= i < j < es.len()
            ==> es[i].0 != es[j].0,
        forall|i: int| #![trigger es[i]] 0 <= i < es.len() ==> !mapping_contains_key(acc, es[i].0),
    ensures
        eval_entries_model(es, outs, ValueV::Mapping(acc)) == (
            Ok::<ValueV, EvaluateError>(ValueV::Mapping(acc + es)),
            0nat,
        ),
    decreases es, 1nat,
{
    if es.len() == 0 {
        assert(acc + es =~= acc);
    } else {
        lemma_eval_nested_identity(es[0].1, outs);
        let acc2 = mapping_insert_model(acc, es[0].0, es[0].1);
        assert(acc2 =~= acc.push(es[0]));
        assert(outs.skip(0) =~= outs);
        assert(forall|i: int| 0 <= i < es.drop_first().len()
            ==> #[trigger] es.drop_first()[i] == es[i + 1]);
        assert(forall|i: int| #![trigger es.drop_first()[i]] 0 <= i < es.drop_first().len()
            ==> !mapping_contains_key(acc2, es.drop_first()[i].0)) by {
            assert(forall|i: int| #![trigger es.drop_first()[i]]
                0 <= i < es.drop_first().len() ==> {
                    &&& !mapping_contains_key(acc, es[i + 1].0)
                    &&& es[i + 1].0 != es[0].0
                });
        }
        lemma_eval_entries_identity(es.drop_first(), outs, acc2);
        assert(acc.push(es[0]) + es.drop_first() =~= acc + es);
    }
}

/// A value with no tagged nodes and distinct mapping keys evaluates to
/// itself, whatever the shell outcomes: evaluation is the identity there.
pub proof fn lemma_evaluate_identity(v: ValueV, outs: Seq<ShellOut>)
    requires
        tag_free(v),
        well_formed(v),
    ensures
        eval_model(v, outs) == (Ok::<ValueV, EvaluateError>(v), 0nat),
{
    lemma_eval_nested_identity(v, outs);
}

} // verus!
