//! Bracket markup to ANSI escapes: `[style:<letters>]` and
//! `[color:<letter>]` markers become escape sequences written as a literal
//! backslash-u and the joined two-digit codes; everything else passes
//! through unchanged.

use vstd::prelude::*;

use crate::errors::{chars_to_string, starts_with_spec, vec_starts_with};

verus! {

/// Whether `c` selects a style: reset, bold, dim, italic, underline or
/// strike.
pub open spec fn is_style_letter(c: char) -> bool {
    c == 'r' || c == 'b' || c == 'd' || c == 'i' || c == 'u' || c == 's'
}

/// Whether `c` selects a color.
pub open spec fn is_color_letter(c: char) -> bool {
    c == '0' || c == 'r' || c == 'g' || c == 'y' || c == 'b' || c == 'm' || c == 'c'
        || c == 'w'
}

/// The two-digit code of a style letter.
pub open spec fn style_code(c: char) -> Seq<char> {
    if c == 'r' {
        "00"@
    } else if c == 'b' {
        "01"@
    } else if c == 'd' {
        "02"@
    } else if c == 'i' {
        "03"@
    } else if c == 'u' {
        "04"@
    } else {
        "09"@
    }
}

/// The two-digit code of a color letter.
pub open spec fn color_code(c: char) -> Seq<char> {
    if c == '0' {
        "30"@
    } else if c == 'r' {
        "31"@
    } else if c == 'g' {
        "32"@
    } else if c == 'y' {
        "33"@
    } else if c == 'b' {
        "34"@
    } else if c == 'm' {
        "35"@
    } else if c == 'c' {
        "36"@
    } else {
        "37"@
    }
}

/// How many letters of the wanted kind `s` begins with.
pub open spec fn letter_run(s: Seq<char>, color: bool) -> nat
    decreases s,
{
    if s.len() == 0 {
        0
    } else if (color && is_color_letter(s[0])) || (!color && is_style_letter(s[0])) {
        1 + letter_run(s.drop_first(), color)
    } else {
        0
    }
}

/// The letters' codes joined with semicolons.
pub open spec fn joined_codes(s: Seq<char>, color: bool) -> Seq<char>
    decreases s,
{
    if s.len() == 0 {
        Seq::empty()
    } else if s.len() == 1 {
        if color {
            color_code(s[0])
        } else {
            style_code(s[0])
        }
    } else {
        (if color {
            color_code(s[0])
        } else {
            style_code(s[0])
        }) + ";"@ + joined_codes(s.drop_first(), color)
    }
}

/// A marker's replacement: a literal backslash-u escape introducer, the
/// joined codes and the terminating `m`.
pub open spec fn marker_replacement(letters: Seq<char>, color: bool) -> Seq<char> {
    "\\u001b["@ + joined_codes(letters, color) + "m"@
}

/// The marker at the head of `s`, as its replacement and its length, if
/// any: `[style:` or `[color:`, at least one letter of the right kind, and
/// a closing bracket.
pub open spec fn try_marker(s: Seq<char>) -> Option<(Seq<char>, int)> {
    if starts_with_spec(s, "[style:"@) {
        let run = letter_run(s.skip(7), false);
        if run >= 1 && 7 + run < s.len() && s[7 + run as int] == ']' {
            Some((marker_replacement(s.subrange(7, 7 + run as int), false), 8 + run as int))
        } else {
            None
        }
    } else if starts_with_spec(s, "[color:"@) {
        let run = letter_run(s.skip(7), true);
        if run >= 1 && 7 + run < s.len() && s[7 + run as int] == ']' {
            Some((marker_replacement(s.subrange(7, 7 + run as int), true), 8 + run as int))
        } else {
            None
        }
    } else {
        None
    }
}

/// The text with every marker replaced and everything else kept.
pub open spec fn ansi_model(s: Seq<char>) -> Seq<char>
    decreases s.len(),
{
    if s.len() == 0 {
        Seq::empty()
    } else {
        match try_marker(s) {
            Some(t) => {
                if 1 <= t.1 <= s.len() {
                    t.0 + ansi_model(s.skip(t.1))
                } else {
                    seq![s[0]] + ansi_model(s.drop_first())
                }
            },
            None => seq![s[0]] + ansi_model(s.drop_first()),
        }
    }
}

/// How many letters of the wanted kind `s` carries starting at `from`.
#[verifier::loop_isolation(false)]
fn letter_run_from(s: &Vec<char>, from: usize, color: bool) -> (r: usize)
    requires
        from <= s@.len(),
    ensures
        r == letter_run(s@.skip(from as int), color),
        from + r <= s@.len(),
{
    let ghost g = s@.skip(from as int);
    let mut i: usize = from;
    loop
        invariant
            from <= i <= s@.len(),
            letter_run(g, color) == i - from + letter_run(s@.skip(i as int), color),
        decreases s@.len() - i,
    {
        proof {
            if i < s@.len() {
                assert(s@.skip(i as int)[0] == s@[i as int]);
                assert(s@.skip(i as int).drop_first() =~= s@.skip(i + 1));
            }
        }
        if i == s.len() {
            proof {
                assert(s@.skip(i as int) =~= Seq::<char>::empty());
            }
            return i - from;
        }
        let c = s[i];
        let ok = if color {
            c == '0' || c == 'r' || c == 'g' || c == 'y' || c == 'b' || c == 'm' || c == 'c'
                || c == 'w'
        } else {
            c == 'r' || c == 'b' || c == 'd' || c == 'i' || c == 'u' || c == 's'
        };
        if !ok {
            return i - from;
        }
        i += 1;
    }
}

/// The letters' codes joined with semicolons, for `s` between `from` and
/// `to`.
fn joined_codes_exec(s: &Vec<char>, from: usize, to: usize, color: bool) -> (r: String)
    requires
        from < to <= s@.len(),
    ensures
        r@ == joined_codes(s@.subrange(from as int, to as int), color),
    decreases to - from,
{
    let ghost sub = s@.subrange(from as int, to as int);
    proof {
        assert(sub[0] == s@[from as int]);
        assert(sub.drop_first() =~= s@.subrange(from + 1, to as int));
    }
    let c = s[from];
    let code: &str = if color {
        if c == '0' { "30" } else if c == 'r' { "31" } else if c == 'g' { "32" }
        else if c == 'y' { "33" } else if c == 'b' { "34" } else if c == 'm' { "35" }
        else if c == 'c' { "36" } else { "37" }
    } else {
        if c == 'r' { "00" } else if c == 'b' { "01" } else if c == 'd' { "02" }
        else if c == 'i' { "03" } else if c == 'u' { "04" } else { "09" }
    };
    let mut out = code.to_owned();
    if from + 1 < to {
        let rest = joined_codes_exec(s, from + 1, to, color);
        out.append(";");
        out.append(rest.as_str());
    }
    out
}

/// Replaces every style and color marker of `value` with its ANSI escape,
/// keeping everything else.
#[verifier::loop_isolation(false)]
pub fn format_ansi(value: &String) -> (r: String)
    ensures
        r@ == ansi_model(value@),
{
    let cs = crate::evaluate::str_chars(value.as_str());
    let n = cs.len();
    let pat_style = crate::evaluate::str_chars("[style:");
    let pat_color = crate::evaluate::str_chars("[color:");
    proof {
        reveal_strlit("[style:");
        reveal_strlit("[color:");
    }
    let mut out = String::new();
    let mut i: usize = 0;
    proof {
        assert(cs@.skip(0) =~= cs@);
    }
    while i < n
        invariant
            i <= n,
            ansi_model(cs@) == out@ + ansi_model(cs@.skip(i as int)),
        decreases n - i,
    {
        let ghost rest = cs@.skip(i as int);
        let is_style = vec_starts_with(&cs, i, &pat_style);
        let is_color = if is_style {
            false
        } else {
            vec_starts_with(&cs, i, &pat_color)
        };
        let mut copied = true;
        if is_style || is_color {
            proof {
                assert(rest.skip(7) =~= cs@.skip(i + 7));
            }
            let run = letter_run_from(&cs, i + 7, is_color);
            if run >= 1 && i + 7 + run < n {
                if cs[i + 7 + run] == ']' {
                    copied = false;
                    proof {
                        assert(rest.subrange(7, 7 + run as int) =~= cs@.subrange(
                            i + 7,
                            i + 7 + run,
                        ));
                        assert(rest.skip(8 + run as int) =~= cs@.skip(i + 8 + run));
                        assert(try_marker(rest) == Some(
                            (
                                marker_replacement(
                                    cs@.subrange(i + 7, i + 7 + run),
                                    is_color,
                                ),
                                8 + run as int,
                            ),
                        ));
                    }
                    out.append("\\u001b[");
                    let codes = joined_codes_exec(&cs, i + 7, i + 7 + run, is_color);
                    out.append(codes.as_str());
                    out.append("m");
                    i = i + 7 + run + 1;
                }
            }
        }
        if copied {
            proof {
                assert(try_marker(rest) is None);
                assert(rest[0] == cs@[i as int]);
                assert(rest.drop_first() =~= cs@.skip(i + 1));
            }
            crate::evaluate::push_char(&mut out, cs[i]);
            i += 1;
        }
    }
    proof {
        assert(cs@.skip(n as int) =~= Seq::<char>::empty());
    }
    out
}

} // verus!
