//! Decoding of interpreter failure messages into a source-located form:
//! a message line of the shape `[string "chunk"]:line: details` or
//! `chunk:line: details`, optionally prefixed by an error kind, yields a
//! location, a zero-based line and the details, enabling a source-line
//! pointer display.

use vstd::prelude::*;

verus! {

/// What a recognized failure message decodes to.
pub enum ErrorDescription {
    SourceError(SourceErrorData),
}

/// A source-located failure: where it happened and what it said.
#[derive(Debug)]
pub struct SourceErrorData {
    pub location: String,
    pub line: usize,
    pub details: String,
    pub is_pointed: bool,
}

/// The model of a source-located failure.
pub ghost struct SourceErrorDataV {
    pub location: Seq<char>,
    pub line: nat,
    pub details: Seq<char>,
    pub is_pointed: bool,
}

impl DeepView for SourceErrorData {
    type V = SourceErrorDataV;

    open spec fn deep_view(&self) -> SourceErrorDataV {
        SourceErrorDataV {
            location: self.location@,
            line: self.line as nat,
            details: self.details@,
            is_pointed: self.is_pointed,
        }
    }
}

impl Clone for SourceErrorData {
    /// Cloning keeps the model.
    fn clone(&self) -> (r: Self)
        ensures
            r.deep_view() == self.deep_view(),
    {
        SourceErrorData {
            location: self.location.clone(),
            line: self.line,
            details: self.details.clone(),
            is_pointed: self.is_pointed,
        }
    }
}

impl Default for SourceErrorData {
    /// An empty, unlocated description.
    fn default() -> (r: Self)
        ensures
            r.deep_view() == (SourceErrorDataV {
                location: Seq::empty(),
                line: 0,
                details: Seq::empty(),
                is_pointed: false,
            }),
    {
        SourceErrorData {
            location: String::new(),
            line: 0,
            details: String::new(),
            is_pointed: false,
        }
    }
}

// ----------------------------------------------------------------------
// Lines.
// ----------------------------------------------------------------------

/// The pieces of `s`, split on the separator; always at least one piece.
pub open spec fn split_on(s: Seq<char>, sep: char) -> Seq<Seq<char>>
    decreases s.len(),
{
    if s.len() == 0 {
        seq![Seq::empty()]
    } else {
        let rest = split_on(s.drop_first(), sep);
        if s[0] == sep {
            seq![Seq::<char>::empty()] + rest
        } else {
            seq![seq![s[0]] + rest[0]] + rest.drop_first()
        }
    }
}

/// The lines of `s`, split on newlines; always at least one line.
pub open spec fn line_split(s: Seq<char>) -> Seq<Seq<char>> {
    split_on(s, '\n')
}

pub(crate) proof fn lemma_split_on_nonempty(s: Seq<char>, sep: char)
    ensures
        split_on(s, sep).len() >= 1,
    decreases s.len(),
{
    if s.len() != 0 {
        lemma_split_on_nonempty(s.drop_first(), sep);
    }
}

/// Splits `s` on the separator.
#[verifier::loop_isolation(false)]
pub(crate) fn split_chars(s: &Vec<char>, sep: char) -> (r: Vec<Vec<char>>)
    ensures
        r.deep_view() == split_on(s@, sep),
{
    let mut done: Vec<Vec<char>> = Vec::new();
    let mut cur: Vec<char> = Vec::new();
    let mut i: usize = 0;
    proof {
        assert(s@.skip(0) =~= s@);
    }
    while i < s.len()
        invariant
            i <= s.len(),
            split_on(s@, sep) =~~= done.deep_view() + seq![
                cur@ + split_on(s@.skip(i as int), sep)[0],
            ] + split_on(s@.skip(i as int), sep).drop_first(),
        decreases s.len() - i,
    {
        proof {
            lemma_split_on_nonempty(s@.skip(i + 1), sep);
            assert(s@.skip(i as int)[0] == s@[i as int]);
            assert(s@.skip(i as int).drop_first() =~= s@.skip(i + 1));
        }
        if s[i] == sep {
            proof {
                assert(split_on(s@.skip(i as int), sep) =~~= seq![Seq::<char>::empty()]
                    + split_on(s@.skip(i + 1), sep));
                assert(cur@ + Seq::<char>::empty() =~= cur@);
            }
            let ghost d0 = done.deep_view();
            let ghost c0 = cur@;
            done.push(cur);
            cur = Vec::new();
            proof {
                let gl = split_on(s@.skip(i + 1), sep);
                assert(done.deep_view() =~~= d0.push(c0));
                assert(gl =~~= seq![gl[0]] + gl.drop_first());
                assert(cur@ + gl[0] =~= gl[0]);
                assert(d0 + seq![c0] + gl =~~= d0.push(c0) + seq![cur@ + gl[0]] + gl.drop_first());
                assert(split_on(s@, sep) =~~= done.deep_view() + seq![
                    cur@ + split_on(s@.skip(i + 1), sep)[0],
                ] + split_on(s@.skip(i + 1), sep).drop_first());
            }
        } else {
            let c = s[i];
            proof {
                assert(split_on(s@.skip(i as int), sep) =~~= seq![
                    seq![s@[i as int]] + split_on(s@.skip(i + 1), sep)[0],
                ] + split_on(s@.skip(i + 1), sep).drop_first());
                assert(cur@ + (seq![s@[i as int]] + split_on(s@.skip(i + 1), sep)[0]) =~= cur@.push(
                    s@[i as int],
                ) + split_on(s@.skip(i + 1), sep)[0]);
            }
            cur.push(c);
            proof {
                assert(split_on(s@, sep) =~~= done.deep_view() + seq![
                    cur@ + split_on(s@.skip(i + 1), sep)[0],
                ] + split_on(s@.skip(i + 1), sep).drop_first());
            }
        }
        i += 1;
    }
    proof {
        assert(s@.skip(s@.len() as int) =~= Seq::<char>::empty());
        assert(split_on(Seq::<char>::empty(), sep) =~~= seq![Seq::<char>::empty()]);
        assert(cur@ + Seq::<char>::empty() =~= cur@);
    }
    let ghost d0 = done.deep_view();
    let ghost c0 = cur@;
    done.push(cur);
    proof {
        assert(done.deep_view() =~~= d0.push(c0));
        assert(d0 + seq![c0] =~~= d0.push(c0));
        assert(done.deep_view() =~~= split_on(s@, sep));
    }
    done
}

// ----------------------------------------------------------------------
// The message grammar.
// ----------------------------------------------------------------------

/// The index of the first `c` in `s`, or `s.len()` where there is none.
pub open spec fn first_char_at(s: Seq<char>, c: char) -> int
    decreases s,
{
    if s.len() == 0 {
        0
    } else if s[0] == c {
        0
    } else {
        1 + first_char_at(s.drop_first(), c)
    }
}

proof fn lemma_first_char_at(s: Seq<char>, c: char)
    ensures
        0 <= first_char_at(s, c) <= s.len(),
        first_char_at(s, c) < s.len() ==> s[first_char_at(s, c)] == c,
        forall|j: int| 0 <= j < first_char_at(s, c) ==> s[j] != c,
    decreases s,
{
    if s.len() != 0 && s[0] != c {
        lemma_first_char_at(s.drop_first(), c);
        assert(forall|j: int| 0 <= j < s.drop_first().len()
            ==> #[trigger] s.drop_first()[j] == s[j + 1]);
        let f1 = first_char_at(s.drop_first(), c);
        assert(first_char_at(s, c) == 1 + f1);
        if f1 < s.drop_first().len() {
            assert(s[1 + f1] == s.drop_first()[f1]);
        }
        assert(forall|j: int| 1 <= j < 1 + f1 ==> s[j] == s.drop_first()[j - 1]);
    }
}

/// Whether `s` begins with `p`.
pub open spec fn starts_with_spec(s: Seq<char>, p: Seq<char>) -> bool {
    p.len() <= s.len() && s.take(p.len() as int) == p
}

/// Whether `c` is a decimal digit.
pub open spec fn is_digit_char(c: char) -> bool {
    '0' <= c && c <= '9'
}

/// How many decimal digits `s` begins with.
pub open spec fn digit_run(s: Seq<char>) -> nat
    decreases s,
{
    if s.len() == 0 {
        0
    } else if is_digit_char(s[0]) {
        1 + digit_run(s.drop_first())
    } else {
        0
    }
}

proof fn lemma_digit_run(s: Seq<char>)
    ensures
        digit_run(s) <= s.len(),
        forall|j: int| 0 <= j < digit_run(s) ==> is_digit_char(s[j]),
        digit_run(s) < s.len() ==> !is_digit_char(s[digit_run(s) as int]),
    decreases s,
{
    if s.len() != 0 && is_digit_char(s[0]) {
        lemma_digit_run(s.drop_first());
        assert(forall|j: int| 0 <= j < s.drop_first().len()
            ==> #[trigger] s.drop_first()[j] == s[j + 1]);
        let d1 = digit_run(s.drop_first());
        assert(digit_run(s) == 1 + d1);
        if d1 < s.drop_first().len() {
            assert(s[1 + d1 as int] == s.drop_first()[d1 as int]);
        }
        assert(forall|j: int| 1 <= j < 1 + d1 as int ==> s[j] == s.drop_first()[j - 1]);
    }
}

/// The numeric value of one decimal digit.
pub open spec fn char_digit(c: char) -> nat {
    (c as int - 48) as nat
}

/// The value of a string of decimal digits.
pub open spec fn digits_val(s: Seq<char>) -> nat
    decreases s,
{
    if s.len() == 0 {
        0
    } else {
        digits_val(s.drop_last()) * 10 + char_digit(s.last())
    }
}

/// A parsed location, line number and details.
pub ghost struct ParsedBodyV {
    pub location: Seq<char>,
    pub number: nat,
    pub details: Seq<char>,
}

/// Parses `<digits>: <details>` after a known location: at least one
/// digit, a number no machine word can hold does not match.
pub open spec fn parse_num_details(s: Seq<char>, loc: Seq<char>) -> Option<ParsedBodyV> {
    let d = digit_run(s);
    if d == 0 {
        None
    } else if digits_val(s.take(d as int)) > usize::MAX as nat {
        None
    } else if !starts_with_spec(s.skip(d as int), ": "@) {
        None
    } else {
        Some(
            ParsedBodyV {
                location: loc,
                number: digits_val(s.take(d as int)),
                details: s.skip(d as int + 2),
            },
        )
    }
}

/// Parses `[string "<loc>"]:<line>: <details>`.
pub open spec fn parse_bracket_body(rest: Seq<char>) -> Option<ParsedBodyV> {
    if !starts_with_spec(rest, "[string \""@) {
        None
    } else {
        let r2 = rest.skip(9);
        let q = first_char_at(r2, '"');
        if q >= r2.len() {
            None
        } else if !starts_with_spec(r2.skip(q + 1), "]:"@) {
            None
        } else {
            parse_num_details(r2.skip(q + 3), r2.take(q))
        }
    }
}

/// Parses `<loc>:<line>: <details>` where the location holds no colon.
pub open spec fn parse_plain_body(rest: Seq<char>) -> Option<ParsedBodyV> {
    let q = first_char_at(rest, ':');
    if q >= rest.len() {
        None
    } else {
        parse_num_details(rest.skip(q + 1), rest.take(q))
    }
}

/// Zero-based line: the reported number less one, floored at zero.
pub open spec fn zero_based(n: nat) -> nat {
    if n == 0 {
        0
    } else {
        (n - 1) as nat
    }
}

/// Tries a body parse with an optional `kind: ` prefix first — a prefix is
/// taken when the line's first colon is followed by a space — then without.
pub open spec fn parse_line_with(
    line: Seq<char>,
    bracket: bool,
) -> Option<ParsedBodyV> {
    let p = first_char_at(line, ':');
    let body = if bracket {
        parse_bracket_body(line)
    } else {
        parse_plain_body(line)
    };
    let with_type = if p + 1 < line.len() && line[p + 1] == ' ' {
        if bracket {
            parse_bracket_body(line.skip(p + 2))
        } else {
            parse_plain_body(line.skip(p + 2))
        }
    } else {
        None
    };
    match with_type {
        Some(b) => Some(b),
        None => body,
    }
}

/// What a line of the shape `[string "<loc>"]:<line>: <details>` decodes
/// to.
pub open spec fn parse_bracket_line(line: Seq<char>) -> Option<SourceErrorDataV> {
    match parse_line_with(line, true) {
        Some(b) => Some(
            SourceErrorDataV {
                location: b.location,
                line: zero_based(b.number),
                details: b.details,
                is_pointed: false,
            },
        ),
        None => None,
    }
}

/// What a line of the shape `<loc>:<line>: <details>` decodes to.
pub open spec fn parse_plain_line(line: Seq<char>) -> Option<SourceErrorDataV> {
    match parse_line_with(line, false) {
        Some(b) => Some(
            SourceErrorDataV {
                location: b.location,
                line: zero_based(b.number),
                details: b.details,
                is_pointed: true,
            },
        ),
        None => None,
    }
}

/// The first line that a parser accepts, walking the lines in order.
pub open spec fn first_parsed(
    lines: Seq<Seq<char>>,
    bracket: bool,
) -> Option<SourceErrorDataV>
    decreases lines,
{
    if lines.len() == 0 {
        None
    } else {
        let here = if bracket {
            parse_bracket_line(lines[0])
        } else {
            parse_plain_line(lines[0])
        };
        match here {
            Some(d) => Some(d),
            None => first_parsed(lines.drop_first(), bracket),
        }
    }
}

/// Whether some line reads `C stack overflow`.
pub open spec fn has_overflow_line(lines: Seq<Seq<char>>) -> bool {
    exists|i: int| 0 <= i < lines.len() && lines[i] == "C stack overflow"@
}

/// What a whole failure message decodes to: a stack overflow keeps the
/// message as its details; otherwise the first line in the bracketed
/// shape wins, then the first in the plain shape.
pub open spec fn describe_model(s: Seq<char>) -> Option<SourceErrorDataV> {
    if has_overflow_line(line_split(s)) {
        Some(
            SourceErrorDataV {
                location: Seq::empty(),
                line: 0,
                details: s,
                is_pointed: false,
            },
        )
    } else {
        match first_parsed(line_split(s), true) {
            Some(d) => Some(d),
            None => first_parsed(line_split(s), false),
        }
    }
}

// ----------------------------------------------------------------------
// The executable decoder.
// ----------------------------------------------------------------------

/// The slice of `cs` between `from` and `to`, as a string.
#[verifier::loop_isolation(false)]
pub(crate) fn chars_to_string(cs: &Vec<char>, from: usize, to: usize) -> (r: String)
    requires
        from <= to <= cs@.len(),
    ensures
        r@ == cs@.subrange(from as int, to as int),
{
    let mut r = String::new();
    let mut i: usize = from;
    while i < to
        invariant
            from <= i <= to,
            r@ == cs@.subrange(from as int, i as int),
        decreases to - i,
    {
        proof {
            assert(cs@.subrange(from as int, i as int).push(cs@[i as int]) =~= cs@.subrange(
                from as int,
                i + 1,
            ));
        }
        crate::evaluate::push_char(&mut r, cs[i]);
        i += 1;
    }
    r
}

/// Whether `s` carries `p` starting at `from`.
#[verifier::loop_isolation(false)]
pub(crate) fn vec_starts_with(s: &Vec<char>, from: usize, p: &Vec<char>) -> (r: bool)
    requires
        from <= s@.len(),
    ensures
        r == starts_with_spec(s@.skip(from as int), p@),
{
    if s.len() - from < p.len() {
        return false;
    }
    let mut i: usize = 0;
    while i < p.len()
        invariant
            i <= p.len(),
            p@.len() <= s@.len() - from,
            forall|j: int| 0 <= j < i ==> s@[from + j] == p@[j],
        decreases p.len() - i,
    {
        if s[from + i] != p[i] {
            proof {
                assert(s@.skip(from as int)[i as int] == s@[from + i]);
            }
            return false;
        }
        i += 1;
    }
    proof {
        assert(s@.skip(from as int).take(p@.len() as int) =~= p@);
    }
    true
}

/// The index of the first `c` in `s` at or after `from`.
#[verifier::loop_isolation(false)]
fn find_char_from(s: &Vec<char>, from: usize, c: char) -> (r: usize)
    requires
        from <= s@.len(),
    ensures
        from <= r <= s@.len(),
        r - from == first_char_at(s@.skip(from as int), c),
{
    proof {
        lemma_first_char_at(s@.skip(from as int), c);
    }
    let ghost f = first_char_at(s@.skip(from as int), c);
    let mut i: usize = from;
    while i < s.len()
        invariant
            from <= i <= s@.len(),
            forall|j: int| 0 <= j < i - from ==> s@.skip(from as int)[j] != c,
        decreases s.len() - i,
    {
        if s[i] == c {
            proof {
                assert(s@.skip(from as int)[i - from] == s@[i as int]);
                assert(f == i - from) by {
                    if f < i - from {
                        assert(s@.skip(from as int)[f] != c);
                    }
                    if f > i - from {
                        assert(s@.skip(from as int)[i - from] != c);
                    }
                }
            }
            return i;
        }
        proof {
            assert(s@.skip(from as int)[i - from] == s@[i as int]);
        }
        i += 1;
    }
    proof {
        assert(f == s@.len() - from) by {
            if f < s@.len() - from {
                assert(s@.skip(from as int)[f] == c);
                assert(s@.skip(from as int)[f] != c);
            }
        }
    }
    s.len()
}

/// How many decimal digits `s` carries starting at `from`.
#[verifier::loop_isolation(false)]
fn digit_run_from(s: &Vec<char>, from: usize) -> (r: usize)
    requires
        from <= s@.len(),
    ensures
        r == digit_run(s@.skip(from as int)),
        from + r <= s@.len(),
{
    proof {
        lemma_digit_run(s@.skip(from as int));
    }
    let ghost d = digit_run(s@.skip(from as int));
    let mut i: usize = from;
    while i < s.len() && '0' <= s[i] && s[i] <= '9'
        invariant
            from <= i <= s@.len(),
            i - from <= d,
            forall|j: int| 0 <= j < i - from ==> is_digit_char(s@.skip(from as int)[j]),
        decreases s.len() - i,
    {
        proof {
            assert(s@.skip(from as int)[i - from] == s@[i as int]);
            assert(d > i - from) by {
                if d == i - from {
                    assert(!is_digit_char(s@.skip(from as int)[d as int]));
                }
            }
        }
        i += 1;
    }
    proof {
        assert(d == i - from) by {
            if d > i - from {
                assert(is_digit_char(s@.skip(from as int)[i - from]));
                if i < s@.len() {
                    assert(s@.skip(from as int)[i - from] == s@[i as int]);
                }
            }
        }
    }
    i - from
}

/// A longer digit prefix never has a smaller value.
proof fn lemma_digits_val_monotone(s: Seq<char>, i: int, j: int)
    requires
        0 <= i <= j <= s.len(),
    ensures
        digits_val(s.take(i)) <= digits_val(s.take(j)),
    decreases j - i,
{
    if i < j {
        lemma_digits_val_monotone(s, i, j - 1);
        assert(s.take(j).drop_last() =~= s.take(j - 1));
        assert(digits_val(s.take(j)) == digits_val(s.take(j - 1)) * 10 + char_digit(
            s.take(j).last(),
        ));
    }
}

/// The value of the `d` digits of `s` starting at `from`, or nothing
/// where no machine word can hold it.
#[verifier::loop_isolation(false)]
fn digits_value_from(s: &Vec<char>, from: usize, d: usize) -> (r: Option<usize>)
    requires
        from + d <= s@.len(),
        forall|j: int| 0 <= j < d ==> is_digit_char(s@.skip(from as int)[j]),
    ensures
        match r {
            Some(v) => v == digits_val(s@.skip(from as int).take(d as int)) && digits_val(
                s@.skip(from as int).take(d as int),
            ) <= usize::MAX as nat,
            None => digits_val(s@.skip(from as int).take(d as int)) > usize::MAX as nat,
        },
{
    let n = s.len();
    let ghost run = s@.skip(from as int).take(d as int);
    proof {
        assert(from + d <= n);
    }
    let mut val: usize = 0;
    let mut i: usize = 0;
    while i < d
        invariant
            i <= d,
            val == digits_val(run.take(i as int)),
        decreases d - i,
    {
        proof {
            assert(run.take(i + 1).drop_last() =~= run.take(i as int));
            assert(run.take(i + 1).last() == run[i as int]);
            assert(run[i as int] == s@[from + i]);
            assert(is_digit_char(run[i as int]));
        }
        let c = s[from + i];
        proof {
            assert(('0' as u32) == 48 && ('9' as u32) == 57);
            assert(c as u32 >= 48 && c as u32 <= 57);
        }
        let dig = ((c as u32) - 48) as usize;
        if val > (usize::MAX - dig) / 10 {
            proof {
                assert(val * 10 + dig > usize::MAX) by (nonlinear_arith)
                    requires
                        val > (usize::MAX - dig) / 10,
                        dig <= 9,
                ;
                assert(digits_val(run.take(i + 1)) > usize::MAX as nat);
                lemma_digits_val_monotone(run, i + 1, d as int);
                assert(run.take(d as int) =~= run);
            }
            return None;
        }
        proof {
            assert(val * 10 + dig <= usize::MAX) by (nonlinear_arith)
                requires
                    val <= (usize::MAX - dig) / 10,
                    dig <= usize::MAX,
            ;
        }
        val = val * 10 + dig;
        i += 1;
    }
    proof {
        assert(run.take(d as int) =~= run);
    }
    Some(val)
}

/// Parses the numbered tail `<digits>: <details>` at `from`, carrying an
/// already-parsed location.
fn parse_tail(line: &Vec<char>, from: usize, loc: String) -> (r: Option<(String, usize, String)>)
    requires
        from <= line@.len(),
    ensures
        match r {
            Some(t) => parse_num_details(line@.skip(from as int), loc@) == Some(
                ParsedBodyV { location: t.0@, number: t.1 as nat, details: t.2@ },
            ),
            None => parse_num_details(line@.skip(from as int), loc@) is None,
        },
{
    let n = line.len();
    let ghost s0 = line@.skip(from as int);
    let d = digit_run_from(line, from);
    if d == 0 {
        return None;
    }
    proof {
        assert(line@.skip(from as int).skip(d as int) =~= line@.skip(from + d));
        lemma_digit_run(s0);
    }
    let num = match digits_value_from(line, from, d) {
        Some(num) => num,
        None => {
            return None;
        },
    };
    let pat = crate::evaluate::str_chars(": ");
    let has_sep = vec_starts_with(line, from + d, &pat);
    if !has_sep {
        return None;
    }
    proof {
        reveal_strlit(": ");
        assert(line@.skip(from + d).skip(2) =~= line@.skip(from + d + 2));
        assert(s0.skip(d as int + 2) =~= line@.subrange(from + d + 2, line@.len() as int));
    }
    let details = chars_to_string(line, from + d + 2, n);
    Some((loc, num, details))
}

/// Parses `[string "<loc>"]:<line>: <details>` starting at `start`.
fn parse_bracket_at(line: &Vec<char>, start: usize) -> (r: Option<(String, usize, String)>)
    requires
        start <= line@.len(),
    ensures
        match r {
            Some(t) => parse_bracket_body(line@.skip(start as int)) == Some(
                ParsedBodyV { location: t.0@, number: t.1 as nat, details: t.2@ },
            ),
            None => parse_bracket_body(line@.skip(start as int)) is None,
        },
{
    let n = line.len();
    let pat1 = crate::evaluate::str_chars("[string \"");
    proof {
        reveal_strlit("[string \"");
    }
    if !vec_starts_with(line, start, &pat1) {
        return None;
    }
    proof {
        assert(line@.skip(start as int).skip(9) =~= line@.skip(start + 9));
    }
    let q_abs = find_char_from(line, start + 9, '"');
    if q_abs == n {
        return None;
    }
    let loc = chars_to_string(line, start + 9, q_abs);
    proof {
        assert(line@.skip(start + 9).take(q_abs - (start + 9)) =~= line@.subrange(
            start + 9,
            q_abs as int,
        ));
        assert(line@.skip(start + 9).skip(q_abs - (start + 9) + 1) =~= line@.skip(q_abs + 1));
    }
    let pat2 = crate::evaluate::str_chars("]:");
    proof {
        reveal_strlit("]:");
    }
    if !vec_starts_with(line, q_abs + 1, &pat2) {
        return None;
    }
    proof {
        assert(line@.skip(start + 9).skip(q_abs - (start + 9) + 3) =~= line@.skip(q_abs + 3));
    }
    parse_tail(line, q_abs + 3, loc)
}

/// Parses `<loc>:<line>: <details>` starting at `start`.
fn parse_plain_at(line: &Vec<char>, start: usize) -> (r: Option<(String, usize, String)>)
    requires
        start <= line@.len(),
    ensures
        match r {
            Some(t) => parse_plain_body(line@.skip(start as int)) == Some(
                ParsedBodyV { location: t.0@, number: t.1 as nat, details: t.2@ },
            ),
            None => parse_plain_body(line@.skip(start as int)) is None,
        },
{
    let q_abs = find_char_from(line, start, ':');
    if q_abs == line.len() {
        return None;
    }
    let loc = chars_to_string(line, start, q_abs);
    proof {
        assert(line@.skip(start as int).take(q_abs - start) =~= line@.subrange(
            start as int,
            q_abs as int,
        ));
        assert(line@.skip(start as int).skip(q_abs - start + 1) =~= line@.skip(q_abs + 1));
    }
    parse_tail(line, q_abs + 1, loc)
}

/// Decodes one line in the bracketed or the plain shape, trying an
/// optional `kind: ` prefix first.
fn parse_line(line: &Vec<char>, bracket: bool) -> (r: Option<SourceErrorData>)
    ensures
        r.deep_view() == if bracket {
            parse_bracket_line(line@)
        } else {
            parse_plain_line(line@)
        },
{
    proof {
        assert(line@.skip(0) =~= line@);
    }
    let p = find_char_from(line, 0, ':');
    let n = line.len();
    let with_type: Option<(String, usize, String)> = if p < n && p + 1 < n {
        if line[p + 1] == ' ' {
            if bracket {
                parse_bracket_at(line, p + 2)
            } else {
                parse_plain_at(line, p + 2)
            }
        } else {
            None
        }
    } else {
        None
    };
    let body = match with_type {
        Some(t) => Some(t),
        None => {
            if bracket {
                parse_bracket_at(line, 0)
            } else {
                parse_plain_at(line, 0)
            }
        },
    };
    match body {
        Some((loc, num, details)) => {
            let zline: usize = if num == 0 { 0 } else { num - 1 };
            Some(SourceErrorData { location: loc, line: zline, details, is_pointed: !bracket })
        },
        None => None,
    }
}

/// Maps a decoded description onto the model.
pub open spec fn description_model_of(
    r: Option<ErrorDescription>,
) -> Option<SourceErrorDataV> {
    match r {
        Some(ErrorDescription::SourceError(d)) => Some(d.deep_view()),
        None => None,
    }
}

/// Decodes an interpreter failure message into a source-located form,
/// where the message matches a recognized pattern.
#[verifier::loop_isolation(false)]
pub fn describe_error(message: &String) -> (r: Option<ErrorDescription>)
    ensures
        description_model_of(r) == describe_model(message@),
{
    let cs = crate::evaluate::str_chars(message.as_str());
    let lines = split_chars(&cs, '\n');
    let ghost lv = lines.deep_view();
    let pat = crate::evaluate::str_chars("C stack overflow");
    proof {
        reveal_strlit("C stack overflow");
    }
    let mut i: usize = 0;
    while i < lines.len()
        invariant
            i <= lines.len(),
            forall|j: int| 0 <= j < i ==> lv[j] != "C stack overflow"@,
        decreases lines.len() - i,
    {
        proof {
            assert(lv[i as int] =~= lines@[i as int]@);
        }
        let same_len = lines[i].len() == pat.len();
        let matched = if same_len {
            vec_starts_with(&lines[i], 0, &pat)
        } else {
            false
        };
        if matched {
            proof {
                assert(lines@[i as int]@.skip(0) =~= lines@[i as int]@);
                assert(lines@[i as int]@.take(pat@.len() as int) =~= lines@[i as int]@);
                assert(has_overflow_line(lv));
            }
            return Some(
                ErrorDescription::SourceError(
                    SourceErrorData {
                        location: String::new(),
                        line: 0,
                        details: message.clone(),
                        is_pointed: false,
                    },
                ),
            );
        }
        proof {
            if same_len {
                assert(lines@[i as int]@.skip(0) =~= lines@[i as int]@);
                assert(lines@[i as int]@.take(pat@.len() as int) =~= lines@[i as int]@);
                assert(lv[i as int] != "C stack overflow"@);
            } else {
                assert(lv[i as int].len() != "C stack overflow"@.len());
            }
        }
        i += 1;
    }
    proof {
        assert(!has_overflow_line(lv));
        assert(lv.skip(0) =~~= lv);
    }
    let mut k: usize = 0;
    while k < lines.len()
        invariant
            k <= lines.len(),
            first_parsed(lv.skip(k as int), true) == first_parsed(lv, true),
        decreases lines.len() - k,
    {
        proof {
            assert(lv.skip(k as int)[0] =~= lines@[k as int]@);
            assert(lv.skip(k as int).drop_first() =~~= lv.skip(k + 1));
        }
        match parse_line(&lines[k], true) {
            Some(d) => {
                return Some(ErrorDescription::SourceError(d));
            },
            None => {},
        }
        k += 1;
    }
    proof {
        assert(lv.skip(lv.len() as int) =~~= Seq::<Seq<char>>::empty());
    }
    let mut m: usize = 0;
    while m < lines.len()
        invariant
            m <= lines.len(),
            first_parsed(lv.skip(m as int), false) == first_parsed(lv, false),
            first_parsed(lv, true) is None,
        decreases lines.len() - m,
    {
        proof {
            assert(lv.skip(m as int)[0] =~= lines@[m as int]@);
            assert(lv.skip(m as int).drop_first() =~~= lv.skip(m + 1));
        }
        match parse_line(&lines[m], false) {
            Some(d) => {
                return Some(ErrorDescription::SourceError(d));
            },
            None => {},
        }
        m += 1;
    }
    None
}

} // verus!
