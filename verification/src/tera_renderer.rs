//! The structured-template backend: a text template engine renders each
//! template against the gathered variables. The engine and its rendering
//! context live behind an opaque holder whose registered template names
//! are modelled as a set; whether a source parses, and whether a JSON
//! text parses, are named results of the outside calls. The custom filter
//! and the injected function go through the library's verified formatter
//! and identifier helper.

use vstd::prelude::*;

use crate::renderer::RendererBuilder;
use crate::luau::{json_of, LuauJson};

verus! {

/// Whether the engine's template parser accepts this source; a function
/// of the source text alone. Registration may still fail afterward, on a
/// missing parent of an `extends` or an unloaded macro import, which
/// depends on the engine's other templates.
pub uninterp spec fn tera_parses(src: Seq<char>) -> bool;

/// Whether this text parses as a JSON document; a function of the text
/// alone.
pub uninterp spec fn json_parses(s: Seq<char>) -> bool;

/// The engine and its context; opaque to verification, driven only
/// through the trusted operations below.
#[verifier::external_body]
pub struct TeraEngine {
    tera: tera::Tera,
    context: tera::Context,
}

/// The names of the templates registered with the engine.
pub uninterp spec fn engine_templates(e: TeraEngine) -> Set<Seq<char>>;

/// Relies on `tera::Tera::default` and `tera::Context::new`: an engine
/// with no templates and an empty context.
#[verifier::external_body]
fn engine_new() -> (r: TeraEngine)
    ensures
        engine_templates(r) == Set::<Seq<char>>::empty(),
{
    TeraEngine { tera: tera::Tera::default(), context: tera::Context::new() }
}

/// Relies on `tera::Tera::register_filter`: installs the markup filter,
/// touching no templates. The handed closure only converts and calls the
/// library's verified formatter.
#[verifier::external_body]
fn engine_register_ansi_filter(e: &mut TeraEngine)
    ensures
        engine_templates(*final(e)) == engine_templates(*old(e)),
{
    e.tera.register_filter(
        "format_ansi",
        |value: &tera::Value, _args: &std::collections::HashMap<String, tera::Value>| {
            match value.as_str() {
                Some(s) => Ok(tera::Value::String(crate::ansi::format_ansi(&s.to_string()))),
                None => Err(tera::Error::msg("format_ansi expects a string")),
            }
        },
    );
}

/// Relies on `tera::Tera::register_function`: installs the identifier
/// function, touching no templates. The handed closure only calls the
/// library's verified helper.
#[verifier::external_body]
fn engine_register_uuid_function(e: &mut TeraEngine)
    ensures
        engine_templates(*final(e)) == engine_templates(*old(e)),
{
    e.tera.register_function(
        "uuid_v4",
        |_args: &std::collections::HashMap<String, tera::Value>| {
            Ok(tera::Value::String(crate::luau::LuauUuid::v4()))
        },
    );
}

/// Relies on `tera::Tera::add_raw_template`: on success the source parsed
/// and the name is registered. A failure leaves the set unchanged when the
/// source did not parse; when it parsed, the name was registered before
/// the engine's inheritance and macro checks refused it, and it stays.
#[verifier::external_body]
fn engine_add_raw_template(e: &mut TeraEngine, name: &str, content: &str) -> (r: Result<
    (),
    String,
>)
    ensures
        match r {
            Ok(_) => tera_parses(content@) && engine_templates(*final(e)) == engine_templates(
                *old(e),
            ).insert(name@),
            Err(_) => engine_templates(*final(e)) == engine_templates(*old(e)) || (
            tera_parses(content@) && engine_templates(*final(e)) == engine_templates(
                *old(e),
            ).insert(name@)),
        },
{
    e.tera.add_raw_template(name, content).map_err(|err| err.to_string())
}

/// Relies on `serde_json::from_str` and `tera::Context::insert`: parses
/// the JSON text and binds the parsed value under `key` exactly when the
/// text parses, touching no templates.
#[verifier::external_body]
fn engine_insert_json(e: &mut TeraEngine, key: &str, json: &str) -> (r: Result<(), String>)
    ensures
        engine_templates(*final(e)) == engine_templates(*old(e)),
        match r {
            Ok(_) => json_parses(json@),
            Err(_) => !json_parses(json@),
        },
{
    let parsed: serde_json::Value = serde_json::from_str(json).map_err(|err| err.to_string())?;
    e.context.insert(key, &parsed);
    Ok(())
}

/// Relies on `tera::Tera::render`: renders a registered template against
/// the context, surfacing the engine's diagnostic chain on failure; a
/// name that was never registered always fails.
#[verifier::external_body]
fn engine_render(e: &TeraEngine, name: &str) -> (r: Result<String, String>)
    ensures
        r is Ok ==> engine_templates(*e).contains(name@),
{
    match e.tera.render(name, &e.context) {
        Ok(s) => Ok(s),
        Err(err) => match std::error::Error::source(&err) {
            Some(cause) => Err(format!("{}. {}", err, cause)),
            None => Err(format!("{}", err)),
        },
    }
}

/// Whether every gathered value has a JSON text the engine's context can
/// take.
pub open spec fn values_serializable(vals: Seq<(Seq<char>, crate::value::ValueV)>) -> bool {
    forall|i: int| 0 <= i < vals.len() ==> json_of(#[trigger] vals[i].1) is Some
        && json_parses(json_of(vals[i].1)->0)
}

/// Whether every source of the pairs parses as a template.
pub open spec fn templates_parse(pairs: Seq<(Seq<char>, Seq<char>)>) -> bool {
    forall|i: int| 0 <= i < pairs.len() ==> tera_parses((#[trigger] pairs[i]).1)
}

/// The names of the pairs, folded into `acc` left to right.
pub open spec fn template_names(
    pairs: Seq<(Seq<char>, Seq<char>)>,
    acc: Set<Seq<char>>,
) -> Set<Seq<char>>
    decreases pairs,
{
    if pairs.len() == 0 {
        acc
    } else {
        template_names(pairs.drop_first(), acc.insert(pairs[0].0))
    }
}

/// The structured-template backend, built once per generation call.
pub struct TeraRenderer {
    pub engine: TeraEngine,
}

impl TeraRenderer {
    /// The names of the templates this renderer can render.
    pub open spec fn names(&self) -> Set<Seq<char>> {
        engine_templates(self.engine)
    }

    /// Renders the template registered under `name` against the shared
    /// context; a name that was never registered always fails.
    pub fn render(&self, name: &String) -> (r: Result<String, String>)
        ensures
            !self.names().contains(name@) ==> r is Err,
    {
        engine_render(&self.engine, name.as_str())
    }
}

impl RendererBuilder {
    /// Builds the structured-template backend over the gathered variables,
    /// the inline sources and the already-loaded contents of the file
    /// templates. On success every value had a JSON form the context took,
    /// every source parsed, and the renderer carries exactly the given
    /// template names. A value without a JSON form guarantees failure;
    /// failure alone does not locate a bad source, since the engine also
    /// refuses a parsed template over a missing parent or macro import.
    #[verifier::loop_isolation(false)]
    pub fn build_tera(&self, loaded: &Vec<(String, String)>) -> (r: Result<TeraRenderer, String>)
        ensures
            match r {
                Ok(tr) => {
                    &&& values_serializable(self.values.deep_view())
                    &&& templates_parse(self.raw_templates.deep_view())
                    &&& templates_parse(loaded.deep_view())
                    &&& tr.names() == template_names(
                        loaded.deep_view(),
                        template_names(self.raw_templates.deep_view(), Set::empty()),
                    )
                },
                Err(_) => true,
            },
    {
        let ghost valsv = self.values.deep_view();
        let ghost rawv = self.raw_templates.deep_view();
        let ghost loadedv = loaded.deep_view();
        let ghost target1 = template_names(rawv, Set::<Seq<char>>::empty());
        let ghost target2 = template_names(loadedv, target1);
        let mut engine = engine_new();
        engine_register_ansi_filter(&mut engine);
        let mut i: usize = 0;
        while i < self.values.len()
            invariant
                i <= self.values@.len(),
                engine_templates(engine) == Set::<Seq<char>>::empty(),
                forall|j: int| 0 <= j < i ==> json_of(#[trigger] valsv[j].1) is Some
                    && json_parses(json_of(valsv[j].1)->0),
            decreases self.values.len() - i,
        {
            proof {
                assert(valsv[i as int].1 == self.values@[i as int].1.model());
                assert(valsv[i as int].0 == self.values@[i as int].0@);
            }
            let json = match LuauJson::stringify(&self.values[i].1) {
                Ok(json) => json,
                Err(e) => {
                    return Err(e);
                },
            };
            match engine_insert_json(&mut engine, self.values[i].0.as_str(), json.as_str()) {
                Ok(()) => {},
                Err(e) => {
                    return Err(e);
                },
            }
            i += 1;
        }
        proof {
            assert(rawv.skip(0) =~= rawv);
        }
        let mut k: usize = 0;
        while k < self.raw_templates.len()
            invariant
                k <= self.raw_templates@.len(),
                values_serializable(valsv),
                template_names(rawv.skip(k as int), engine_templates(engine)) == target1,
                forall|j: int| 0 <= j < k ==> tera_parses((#[trigger] rawv[j]).1),
            decreases self.raw_templates.len() - k,
        {
            proof {
                assert(rawv[k as int].0 == self.raw_templates@[k as int].0@);
                assert(rawv[k as int].1 == self.raw_templates@[k as int].1@);
                assert(rawv.skip(k as int)[0] == rawv[k as int]);
                assert(rawv.skip(k as int).drop_first() =~= rawv.skip(k + 1));
            }
            match engine_add_raw_template(
                &mut engine,
                self.raw_templates[k].0.as_str(),
                self.raw_templates[k].1.as_str(),
            ) {
                Ok(()) => {},
                Err(e) => {
                    return Err(e);
                },
            }
            k += 1;
        }
        proof {
            assert(rawv.skip(rawv.len() as int) =~= Seq::<(Seq<char>, Seq<char>)>::empty());
            assert(engine_templates(engine) == target1);
            assert(loadedv.skip(0) =~= loadedv);
        }
        let mut m: usize = 0;
        while m < loaded.len()
            invariant
                m <= loaded@.len(),
                values_serializable(valsv),
                templates_parse(rawv),
                template_names(loadedv.skip(m as int), engine_templates(engine)) == target2,
                forall|j: int| 0 <= j < m ==> tera_parses((#[trigger] loadedv[j]).1),
            decreases loaded.len() - m,
        {
            proof {
                assert(loadedv[m as int].0 == loaded@[m as int].0@);
                assert(loadedv[m as int].1 == loaded@[m as int].1@);
                assert(loadedv.skip(m as int)[0] == loadedv[m as int]);
                assert(loadedv.skip(m as int).drop_first() =~= loadedv.skip(m + 1));
            }
            match engine_add_raw_template(
                &mut engine,
                loaded[m].0.as_str(),
                loaded[m].1.as_str(),
            ) {
                Ok(()) => {},
                Err(e) => {
                    return Err(e);
                },
            }
            m += 1;
        }
        proof {
            assert(loadedv.skip(loadedv.len() as int)
                =~= Seq::<(Seq<char>, Seq<char>)>::empty());
        }
        engine_register_uuid_function(&mut engine);
        Ok(TeraRenderer { engine })
    }
}

} // verus!
