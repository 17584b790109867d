//! Generation orchestration: observers are notified per template, a
//! template's extension selects its rendering engine, and the computed
//! output name decides whether the file is written, written under a
//! stripped sibling name without collision protection, or skipped.

use vstd::prelude::*;

use crate::value::{model_entries, Value, ValueV};
use crate::ResolvedContext;

verus! {

/// What a generator reports while it works.
pub enum GeneratorEvent {
    Start(String),
    Message(String),
    Finish(String),
}

/// A sink for generator events, implemented by callers.
pub trait GeneratorObserver {
    fn on_notify(&mut self, event: &GeneratorEvent);
}

/// Drives one generation call and notifies its observers.
pub struct DefaultGenerator<O: GeneratorObserver> {
    pub context: ResolvedContext,
    pub observers: Vec<O>,
}

impl<O: GeneratorObserver> DefaultGenerator<O> {
    /// Registers one more observer.
    pub fn add_observer(&mut self, observer: O)
        ensures
            final(self).observers@ == old(self).observers@.push(observer),
            final(self).context == old(self).context,
    {
        self.observers.push(observer);
    }

    /// Hands the event to every observer in registration order.
    pub fn notify(&mut self, event: &GeneratorEvent)
        ensures
            final(self).observers@.len() == old(self).observers@.len(),
            final(self).context == old(self).context,
    {
        let mut i: usize = 0;
        while i < self.observers.len()
            invariant
                i <= self.observers@.len(),
                self.observers@.len() == old(self).observers@.len(),
                self.context == old(self).context,
            decreases self.observers.len() - i,
        {
            let mut observer = self.observers.remove(i);
            observer.on_notify(event);
            self.observers.insert(i, observer);
            i += 1;
        }
    }
}

/// The generation target named on a scripted re-entry into the generator.
#[derive(Debug)]
pub struct GenerationTarget {
    pub target_name: Option<String>,
    pub target_path: Option<String>,
    pub dry_run: Option<bool>,
}

/// The re-entrant engine capability a script receives: its one method in
/// the scripting runtime calls back into the generator.
pub struct LuauEngine<O: GeneratorObserver> {
    pub context: ResolvedContext,
    pub generator: DefaultGenerator<O>,
}

/// The backend that renders one template.
#[derive(Debug, PartialEq, Eq, Structural, Clone, Copy)]
pub enum RenderEngine {
    Structured,
    Scripting,
    PassThrough,
}

// ----------------------------------------------------------------------
// Engine dispatch by extension.
// ----------------------------------------------------------------------

/// The index of the last `c` in `s`, or `-1` where there is none.
pub open spec fn last_index_of(s: Seq<char>, c: char) -> int
    decreases s,
{
    if s.len() == 0 {
        -1
    } else if s.last() == c {
        s.len() - 1
    } else {
        last_index_of(s.drop_last(), c)
    }
}

proof fn lemma_last_index_of(s: Seq<char>, c: char)
    ensures
        -1 <= last_index_of(s, c) < s.len(),
        last_index_of(s, c) >= 0 ==> s[last_index_of(s, c)] == c,
        forall|j: int| last_index_of(s, c) < j < s.len() ==> s[j] != c,
    decreases s,
{
    if s.len() != 0 && s.last() != c {
        lemma_last_index_of(s.drop_last(), c);
        assert(forall|j: int| 0 <= j < s.drop_last().len()
            ==> s.drop_last()[j] == #[trigger] s[j]);
        let l = last_index_of(s.drop_last(), c);
        assert(last_index_of(s, c) == l);
        if l >= 0 {
            assert(s[l] == s.drop_last()[l]);
        }
    }
}

/// Where the path's final component begins.
pub open spec fn base_start(p: Seq<char>) -> int {
    last_index_of(p, '/') + 1
}

/// The index of the final component's extension dot, or `-1` where the
/// component has no extension or begins with its only dot.
pub open spec fn ext_dot_index(p: Seq<char>) -> int {
    let d = last_index_of(p, '.');
    if d > base_start(p) {
        d
    } else {
        -1
    }
}

/// The engine a computed output path selects, and the output path it
/// leaves behind: the structured and scripting extensions are stripped,
/// any other path is kept whole.
pub open spec fn render_dispatch(p: Seq<char>) -> (RenderEngine, Seq<char>) {
    let d = ext_dot_index(p);
    if d >= 0 && p.skip(d + 1) == "tera"@ {
        (RenderEngine::Structured, p.take(d))
    } else if d >= 0 && p.skip(d + 1) == "luau"@ {
        (RenderEngine::Scripting, p.take(d))
    } else {
        (RenderEngine::PassThrough, p)
    }
}

/// The index of the last `c` in `s`, if any.
#[verifier::loop_isolation(false)]
fn last_char_index(s: &Vec<char>, c: char) -> (r: Option<usize>)
    ensures
        match r {
            Some(i) => i < s@.len() && i == last_index_of(s@, c),
            None => last_index_of(s@, c) == -1,
        },
{
    proof {
        lemma_last_index_of(s@, c);
    }
    let mut i: usize = s.len();
    while i > 0
        invariant
            i <= s@.len(),
            forall|j: int| i <= j < s@.len() ==> s@[j] != c,
        decreases i,
    {
        i -= 1;
        if s[i] == c {
            proof {
                assert(last_index_of(s@, c) == i) by {
                    if last_index_of(s@, c) > i {
                        assert(s@[last_index_of(s@, c)] != c);
                    }
                }
            }
            return Some(i);
        }
    }
    proof {
        assert(last_index_of(s@, c) == -1) by {
            if last_index_of(s@, c) >= 0 {
                assert(s@[last_index_of(s@, c)] == c);
                assert(s@[last_index_of(s@, c)] != c);
            }
        }
    }
    None
}

/// Picks the rendering engine for a computed output path and strips a
/// structured or scripting extension from it.
pub fn plan_template(computed_path: &String) -> (r: (RenderEngine, String))
    ensures
        r.0 == render_dispatch(computed_path@).0,
        r.1@ == render_dispatch(computed_path@).1,
{
    let cs = crate::evaluate::str_chars(computed_path.as_str());
    let n = cs.len();
    let slash = last_char_index(&cs, '/');
    let dot = last_char_index(&cs, '.');
    let bstart: usize = match slash {
        Some(i) => i + 1,
        None => 0,
    };
    let d: Option<usize> = match dot {
        Some(i) => if i > bstart {
            Some(i)
        } else {
            None
        },
        None => None,
    };
    match d {
        Some(di) => {
            proof {
                reveal_strlit("tera");
                reveal_strlit("luau");
            }
            let pat_tera = crate::evaluate::str_chars("tera");
            let pat_luau = crate::evaluate::str_chars("luau");
            let is_tera = n - di - 1 == 4 && crate::errors::vec_starts_with(
                &cs,
                di + 1,
                &pat_tera,
            );
            let is_luau = n - di - 1 == 4 && crate::errors::vec_starts_with(
                &cs,
                di + 1,
                &pat_luau,
            );
            proof {
                assert("tera"@.len() == 4 && "luau"@.len() == 4);
                if cs@.len() - di - 1 == 4 {
                    assert(cs@.skip(di + 1).take(4) =~= cs@.skip(di + 1));
                }
                assert(is_tera == (cs@.skip(di + 1) == "tera"@));
                assert(is_luau == (cs@.skip(di + 1) == "luau"@));
            }
            if is_tera {
                let stem = crate::errors::chars_to_string(&cs, 0, di);
                proof {
                    assert(cs@.subrange(0, di as int) =~= cs@.take(di as int));
                }
                (RenderEngine::Structured, stem)
            } else if is_luau {
                let stem = crate::errors::chars_to_string(&cs, 0, di);
                proof {
                    assert(cs@.subrange(0, di as int) =~= cs@.take(di as int));
                }
                (RenderEngine::Scripting, stem)
            } else {
                (RenderEngine::PassThrough, computed_path.clone())
            }
        },
        None => (RenderEngine::PassThrough, computed_path.clone()),
    }
}

// ----------------------------------------------------------------------
// The emit policy.
// ----------------------------------------------------------------------

/// What one rendered template leads to.
#[derive(Debug)]
pub enum EmitAction {
    /// A dry run only reports the computed path.
    Report,
    /// A basename opening with an exclamation mark is skipped entirely.
    Skip,
    /// The file is written: under the stripped sibling name without
    /// collision protection for a basename opening with a plus, else at
    /// its computed path with collision protection.
    Write { path: String, protect: bool },
}

/// The model of an emit decision.
pub ghost enum EmitActionV {
    Report,
    Skip,
    Write { path: Seq<char>, protect: bool },
}

impl DeepView for EmitAction {
    type V = EmitActionV;

    open spec fn deep_view(&self) -> EmitActionV {
        match self {
            EmitAction::Report => EmitActionV::Report,
            EmitAction::Skip => EmitActionV::Skip,
            EmitAction::Write { path, protect } => EmitActionV::Write {
                path: path@,
                protect: *protect,
            },
        }
    }
}

/// The emit decision for a computed target-relative path: a dry run
/// reports; a `!` basename is skipped; a `+` basename is written at the
/// sibling path with the prefix stripped and no collision protection; any
/// other basename is written at its path with collision protection.
pub open spec fn emit_model(p: Seq<char>, dry_run: bool) -> EmitActionV {
    let b = base_start(p);
    if dry_run {
        EmitActionV::Report
    } else if b < p.len() && p[b] == '!' {
        EmitActionV::Skip
    } else if b < p.len() && p[b] == '+' {
        EmitActionV::Write { path: p.take(b) + p.skip(b + 1), protect: false }
    } else {
        EmitActionV::Write { path: p, protect: true }
    }
}

/// Decides what to do with one rendered template.
pub fn emit_action(output_path: &String, dry_run: bool) -> (r: EmitAction)
    ensures
        r.deep_view() == emit_model(output_path@, dry_run),
{
    if dry_run {
        return EmitAction::Report;
    }
    let cs = crate::evaluate::str_chars(output_path.as_str());
    let n = cs.len();
    let bstart: usize = match last_char_index(&cs, '/') {
        Some(i) => i + 1,
        None => 0,
    };
    if bstart < n && cs[bstart] == '!' {
        EmitAction::Skip
    } else if bstart < n && cs[bstart] == '+' {
        let head = crate::errors::chars_to_string(&cs, 0, bstart);
        let tail = crate::errors::chars_to_string(&cs, bstart + 1, n);
        proof {
            assert(cs@.subrange(0, bstart as int) =~= cs@.take(bstart as int));
            assert(cs@.subrange(bstart + 1, cs@.len() as int) =~= cs@.skip(bstart + 1));
        }
        EmitAction::Write { path: head.concat(tail.as_str()), protect: false }
    } else {
        EmitAction::Write { path: output_path.clone(), protect: true }
    }
}

// ----------------------------------------------------------------------
// Laws of planning and emission.
// ----------------------------------------------------------------------

/// The output path of a planned template, as a function of the computed
/// path expression's result and the rendered body.
pub open spec fn planned_output_path(computed_path: Seq<char>, body: Seq<char>) -> Seq<char> {
    render_dispatch(computed_path).1
}

/// Output-path computation is independent of body rendering: two
/// renderings of the same logical name, whatever their bodies, emit under
/// the same output path.
pub proof fn lemma_output_path_independent(
    computed_path: Seq<char>,
    body1: Seq<char>,
    body2: Seq<char>,
)
    ensures
        planned_output_path(computed_path, body1) == planned_output_path(
            computed_path,
            body2,
        ),
{
}

/// Emit-skip: outside a dry run, a computed basename opening with an
/// exclamation mark is never written, and one opening with a plus is
/// written at the sibling path with the prefix stripped and no collision
/// protection.
pub proof fn lemma_emit_skip(p: Seq<char>, dry_run: bool)
    requires
        !dry_run,
        base_start(p) < p.len(),
    ensures
        p[base_start(p)] == '!' ==> emit_model(p, dry_run) is Skip,
        p[base_start(p)] == '+' ==> emit_model(p, dry_run) == (EmitActionV::Write {
            path: p.take(base_start(p)) + p.skip(base_start(p) + 1),
            protect: false,
        }),
{
}

/// Dry-run guarantee: a dry run decides to write nothing, for every
/// computed path; it only reports.
pub proof fn lemma_dry_run_writes_nothing(p: Seq<char>)
    ensures
        emit_model(p, true) == EmitActionV::Report,
{
}

// ----------------------------------------------------------------------
// The variables a generation call hands its renderers.
// ----------------------------------------------------------------------

/// The string-keyed entries of a mapping, in order; an entry under any
/// other key drops out.
pub open spec fn string_entries(es: Seq<(ValueV, ValueV)>) -> Seq<(Seq<char>, ValueV)>
    decreases es,
{
    if es.len() == 0 {
        Seq::empty()
    } else {
        match es[0].0 {
            ValueV::Str(k) => seq![(k, es[0].1)] + string_entries(es.drop_first()),
            _ => string_entries(es.drop_first()),
        }
    }
}

/// The named variables of an evaluated variable tree: the root must be a
/// mapping, whose string-keyed entries become the renderers' globals; an
/// entry under a non-string key drops out. Any other root is the fatal
/// invalid-variables error, carrying the scroll's name.
#[verifier::loop_isolation(false)]
pub fn named_values(scroll_name: &String, variables: Value) -> (r: Result<
    Vec<(String, Value)>,
    String,
>)
    ensures
        match r {
            Ok(vs) => variables.model() is Mapping && vs.deep_view() == string_entries(
                variables.model()->Mapping_0,
            ),
            Err(msg) => !(variables.model() is Mapping) && msg@ == "Cannot generate content using "@
                + scroll_name@ + " scroll. Invalid variables."@,
        },
{
    broadcast use crate::value::group_value_model;

    match variables {
        Value::Mapping(entries) => {
            let ghost full = model_entries(entries@);
            let mut rest = entries;
            let mut out: Vec<(String, Value)> = Vec::new();
            proof {
                assert(out.deep_view() =~= Seq::<(Seq<char>, ValueV)>::empty());
            }
            while rest.len() > 0
                invariant
                    out.deep_view() + string_entries(model_entries(rest@)) =~= string_entries(
                        full,
                    ),
                decreases rest@.len(),
            {
                let ghost rv = rest@;
                let (k, v) = rest.remove(0);
                proof {
                    assert(rest@ =~= rv.drop_first());
                    assert(model_entries(rv)[0] == (k.model(), v.model()));
                    assert(model_entries(rv).drop_first() =~= model_entries(rv.drop_first()));
                }
                match k {
                    Value::Str(name) => {
                        let ghost o0 = out.deep_view();
                        out.push((name, v));
                        proof {
                            assert(out.deep_view() =~= o0.push(
                                (model_entries(rv)[0].0->Str_0, model_entries(rv)[0].1),
                            ));
                            assert(o0.push(
                                (model_entries(rv)[0].0->Str_0, model_entries(rv)[0].1),
                            ) + string_entries(model_entries(rv).drop_first()) =~= o0
                                + string_entries(model_entries(rv)));
                        }
                    },
                    _ => {},
                }
            }
            proof {
                assert(model_entries(rest@) =~= Seq::<(ValueV, ValueV)>::empty());
            }
            Ok(out)
        },
        _ => Err(
            "Cannot generate content using ".to_owned().concat(scroll_name.as_str()).concat(
                " scroll. Invalid variables.",
            ),
        ),
    }
}

} // verus!
