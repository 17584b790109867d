//! Rendering support: the builder that gathers variables and template
//! sources, the pass-through renderer, and the output buffer a scripting
//! template writes into.

use vstd::prelude::*;

use crate::config::{str_contains_key, str_key_index, str_pairs_insert};
use crate::value::{Value, ValueV};

verus! {

/// Whether some pair of `m` has the key `k`.
pub open spec fn val_contains_key(m: Seq<(Seq<char>, ValueV)>, k: Seq<char>) -> bool {
    exists|i: int| 0 <= i < m.len() && m[i].0 == k
}

/// The index of the first pair with key `k` (meaningful only when present).
pub open spec fn val_key_index(m: Seq<(Seq<char>, ValueV)>, k: Seq<char>) -> int
    decreases m,
{
    if m.len() == 0 {
        0
    } else if m[0].0 == k {
        0
    } else {
        1 + val_key_index(m.drop_first(), k)
    }
}

/// Inserting `(k, v)`: a present key has its value replaced in place, an
/// absent key is appended at the end.
pub open spec fn val_pairs_insert(
    m: Seq<(Seq<char>, ValueV)>,
    k: Seq<char>,
    v: ValueV,
) -> Seq<(Seq<char>, ValueV)> {
    if val_contains_key(m, k) {
        m.update(val_key_index(m, k), (k, v))
    } else {
        m.push((k, v))
    }
}

/// The index of the first pair of `v` whose key reads as `k`.
#[verifier::loop_isolation(false)]
fn find_value_key(v: &Vec<(String, Value)>, k: &String) -> (r: Option<usize>)
    ensures
        match r {
            Some(i) => i < v@.len() && v.deep_view()[i as int].0 == k@ && val_key_index(
                v.deep_view(),
                k@,
            ) == i,
            None => !val_contains_key(v.deep_view(), k@),
        },
{
    let mut i: usize = 0;
    while i < v.len()
        invariant
            i <= v.len(),
            forall|j: int| 0 <= j < i ==> v.deep_view()[j].0 != k@,
        decreases v.len() - i,
    {
        proof {
            assert(v.deep_view()[i as int].0 == v@[i as int].0@);
        }
        if v[i].0.eq(k) {
            proof {
                lemma_val_key_index(v.deep_view(), k@, i as int);
            }
            return Some(i);
        }
        i += 1;
    }
    None
}

proof fn lemma_val_key_index(m: Seq<(Seq<char>, ValueV)>, k: Seq<char>, i: int)
    requires
        0 <= i < m.len(),
        m[i].0 == k,
        forall|j: int| 0 <= j < i ==> m[j].0 != k,
    ensures
        val_key_index(m, k) == i,
    decreases m,
{
    if m[0].0 != k {
        assert(m.drop_first()[i - 1] == m[i]);
        assert(forall|j: int| 0 <= j < i - 1 ==> m.drop_first()[j] == m[j + 1]);
        lemma_val_key_index(m.drop_first(), k, i - 1);
    }
}

/// Gathers named variables and template sources for one generation call.
pub struct RendererBuilder {
    pub values: Vec<(String, Value)>,
    pub raw_templates: Vec<(String, String)>,
    pub file_templates: Vec<(String, String)>,
}

impl RendererBuilder {
    /// The model of the gathered variables.
    pub open spec fn values_model(&self) -> Seq<(Seq<char>, ValueV)> {
        self.values.deep_view()
    }

    /// A builder with nothing gathered yet.
    pub fn new() -> (r: RendererBuilder)
        ensures
            r.values.deep_view() == Seq::<(Seq<char>, ValueV)>::empty(),
            r.raw_templates.deep_view() == Seq::<(Seq<char>, Seq<char>)>::empty(),
            r.file_templates.deep_view() == Seq::<(Seq<char>, Seq<char>)>::empty(),
    {
        let r = RendererBuilder {
            values: Vec::new(),
            raw_templates: Vec::new(),
            file_templates: Vec::new(),
        };
        proof {
            assert(r.values.deep_view() =~= Seq::<(Seq<char>, ValueV)>::empty());
            assert(r.raw_templates.deep_view() =~= Seq::<(Seq<char>, Seq<char>)>::empty());
            assert(r.file_templates.deep_view() =~= Seq::<(Seq<char>, Seq<char>)>::empty());
        }
        r
    }

    /// Records a variable under `key`.
    #[verifier::loop_isolation(false)]
    pub fn with_value(self, key: String, value: Value) -> (r: RendererBuilder)
        ensures
            r.values.deep_view() == val_pairs_insert(self.values.deep_view(), key@, value.model()),
            r.raw_templates.deep_view() == self.raw_templates.deep_view(),
            r.file_templates.deep_view() == self.file_templates.deep_view(),
    {
        let mut this = self;
        let ghost m0 = this.values.deep_view();
        let found = find_value_key(&this.values, &key);
        match found {
            Some(fi) => {
                let _removed = this.values.remove(fi);
                this.values.insert(fi, (key, value));
                proof {
                    assert(this.values.deep_view() =~= m0.update(
                        fi as int,
                        (key@, value.model()),
                    ));
                }
            },
            None => {
                this.values.push((key, value));
                proof {
                    assert(this.values.deep_view() =~= m0.push((key@, value.model())));
                }
            },
        }
        this
    }

    /// Records an inline template source under `name`.
    pub fn with_raw_template(self, name: String, raw: String) -> (r: RendererBuilder)
        ensures
            r.raw_templates.deep_view() == str_pairs_insert(
                self.raw_templates.deep_view(),
                name@,
                raw@,
            ),
            r.values.deep_view() == self.values.deep_view(),
            r.file_templates.deep_view() == self.file_templates.deep_view(),
    {
        let mut this = self;
        crate::config::string_map_insert(&mut this.raw_templates, name, raw);
        this
    }

    /// Records a template file path under `name`.
    pub fn with_file_template(self, name: String, path: String) -> (r: RendererBuilder)
        ensures
            r.file_templates.deep_view() == str_pairs_insert(
                self.file_templates.deep_view(),
                name@,
                path@,
            ),
            r.values.deep_view() == self.values.deep_view(),
            r.raw_templates.deep_view() == self.raw_templates.deep_view(),
    {
        let mut this = self;
        crate::config::string_map_insert(&mut this.file_templates, name, path);
        this
    }

    /// Builds the pass-through renderer over the inline sources and the
    /// already-loaded contents of the file templates.
    #[verifier::loop_isolation(false)]
    pub fn build_noop(&self, loaded: Vec<(String, String)>) -> (r: NoopRenderer)
        ensures
            r.templates.deep_view() == loaded_templates_model(
                self.raw_templates.deep_view(),
                loaded.deep_view(),
            ),
    {
        let ghost l0 = loaded.deep_view();
        let mut templates: Vec<(String, String)> = Vec::new();
        let mut i: usize = 0;
        let n = self.raw_templates.len();
        while i < n
            invariant
                i <= n,
                n == self.raw_templates@.len(),
                templates@.len() == i,
                forall|j: int| 0 <= j < i
                    ==> (#[trigger] templates@[j]).0@ == self.raw_templates.deep_view()[j].0
                        && templates@[j].1@ == self.raw_templates.deep_view()[j].1,
            decreases n - i,
        {
            let kv = (self.raw_templates[i].0.clone(), self.raw_templates[i].1.clone());
            templates.push(kv);
            i += 1;
        }
        proof {
            assert(templates.deep_view() =~= self.raw_templates.deep_view());
        }
        let ghost before = templates.deep_view();
        let mut rest = loaded;
        while rest.len() > 0
            invariant
                insert_all_model(templates.deep_view(), rest.deep_view())
                    == insert_all_model(before, l0),
            decreases rest@.len(),
        {
            let ghost rv = rest.deep_view();
            proof {
                assert(rv[0] == (rest@[0].0@, rest@[0].1@));
            }
            let (k, v) = rest.remove(0);
            proof {
                assert(rest.deep_view() =~= rv.drop_first());
            }
            crate::config::string_map_insert(&mut templates, k, v);
        }
        proof {
            assert(rest.deep_view() =~= Seq::<(Seq<char>, Seq<char>)>::empty());
        }
        NoopRenderer { templates }
    }
}

/// Folds every loaded pair into the map, left to right.
pub open spec fn insert_all_model(
    m: Seq<(Seq<char>, Seq<char>)>,
    pairs: Seq<(Seq<char>, Seq<char>)>,
) -> Seq<(Seq<char>, Seq<char>)>
    decreases pairs,
{
    if pairs.len() == 0 {
        m
    } else {
        insert_all_model(str_pairs_insert(m, pairs[0].0, pairs[0].1), pairs.drop_first())
    }
}

/// The template set of the pass-through renderer: the inline sources with
/// the loaded file contents folded over them.
pub open spec fn loaded_templates_model(
    raw: Seq<(Seq<char>, Seq<char>)>,
    loaded: Seq<(Seq<char>, Seq<char>)>,
) -> Seq<(Seq<char>, Seq<char>)> {
    insert_all_model(raw, loaded)
}

/// The fallback rendering backend: a template renders as its own source.
pub struct NoopRenderer {
    pub templates: Vec<(String, String)>,
}

impl NoopRenderer {
    /// Renders `name`: its source, unchanged; an unknown name is an error
    /// that carries the name.
    #[verifier::loop_isolation(false)]
    pub fn render(&self, name: &String) -> (r: Result<String, String>)
        ensures
            match r {
                Ok(s) => str_contains_key(self.templates.deep_view(), name@) && s@
                    == self.templates.deep_view()[str_key_index(
                    self.templates.deep_view(),
                    name@,
                )].1,
                Err(msg) => !str_contains_key(self.templates.deep_view(), name@) && msg@
                    == "No template: "@ + name@,
            },
    {
        let ghost m0 = self.templates.deep_view();
        let mut i: usize = 0;
        let n = self.templates.len();
        while i < n
            invariant
                i <= n,
                n == self.templates@.len(),
                forall|j: int| 0 <= j < i ==> m0[j].0 != name@,
            decreases n - i,
        {
            proof {
                assert(m0[i as int].0 == self.templates@[i as int].0@);
                assert(m0[i as int].1 == self.templates@[i as int].1@);
            }
            if self.templates[i].0.eq(name) {
                proof {
                    crate::config::lemma_str_key_index(m0, name@, i as int);
                }
                return Ok(self.templates[i].1.clone());
            }
            i += 1;
        }
        Err("No template: ".to_owned().concat(name.as_str()))
    }
}

/// The output buffer a scripting template writes into through its
/// injected `print` and `println`.
#[derive(Debug)]
pub struct LuauTemplate {
    pub st: String,
}

impl LuauTemplate {
    /// Appends `value` to the buffer.
    pub fn print(&mut self, value: &str)
        ensures
            final(self).st@ == old(self).st@ + value@,
    {
        self.st.append(value);
    }

    /// Appends `value` and a newline to the buffer.
    pub fn println(&mut self, value: &str)
        ensures
            final(self).st@ == old(self).st@ + value@ + "\n"@,
    {
        self.st.append(value);
        self.st.append("\n");
    }
}

/// The shell capability handed to scripting templates.
#[derive(Debug, Clone, Copy)]
pub struct LuauShell;

} // verus!
