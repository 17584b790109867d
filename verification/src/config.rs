//! The package descriptor: entries for repositories, targets, scrolls and
//! actions, and the builder that gathers raw or file-based descriptors.

use vstd::prelude::*;

verus! {

/// A named git source; an external step resolves it into a module directory.
#[derive(Debug)]
pub struct RepositoryEntry {
    pub name: String,
    pub uri: String,
}

/// The model of a repository entry.
pub ghost struct RepositoryEntryV {
    pub name: Seq<char>,
    pub uri: Seq<char>,
}

impl DeepView for RepositoryEntry {
    type V = RepositoryEntryV;

    open spec fn deep_view(&self) -> RepositoryEntryV {
        RepositoryEntryV { name: self.name@, uri: self.uri@ }
    }
}

impl Clone for RepositoryEntry {
    /// Cloning keeps the model.
    fn clone(&self) -> (r: Self)
        ensures
            r.deep_view() == self.deep_view(),
    {
        RepositoryEntry { name: self.name.clone(), uri: self.uri.clone() }
    }
}

/// A named output directory that generated files are written into.
#[derive(Debug)]
pub struct TargetEntry {
    pub name: String,
    pub path: String,
}

/// The model of a target entry.
pub ghost struct TargetEntryV {
    pub name: Seq<char>,
    pub path: Seq<char>,
}

impl DeepView for TargetEntry {
    type V = TargetEntryV;

    open spec fn deep_view(&self) -> TargetEntryV {
        TargetEntryV { name: self.name@, path: self.path@ }
    }
}

impl Clone for TargetEntry {
    /// Cloning keeps the model.
    fn clone(&self) -> (r: Self)
        ensures
            r.deep_view() == self.deep_view(),
    {
        TargetEntry { name: self.name.clone(), path: self.path.clone() }
    }
}

/// A template package at a path relative to its owning package.
#[derive(Debug)]
pub struct ScrollEntry {
    pub name: String,
    pub path: String,
    pub about: Option<String>,
}

/// The model of a scroll entry.
pub ghost struct ScrollEntryV {
    pub name: Seq<char>,
    pub path: Seq<char>,
    pub about: Option<Seq<char>>,
}

impl DeepView for ScrollEntry {
    type V = ScrollEntryV;

    open spec fn deep_view(&self) -> ScrollEntryV {
        ScrollEntryV { name: self.name@, path: self.path@, about: self.about.deep_view() }
    }
}

impl Clone for ScrollEntry {
    /// Cloning keeps the model.
    fn clone(&self) -> (r: Self)
        ensures
            r.deep_view() == self.deep_view(),
    {
        ScrollEntry {
            name: self.name.clone(),
            path: self.path.clone(),
            about: match &self.about {
                Some(a) => Some(a.clone()),
                None => None,
            },
        }
    }
}

/// The declared kind of an action argument.
#[derive(Debug, Clone, Copy, PartialEq, Eq, Structural)]
pub enum ActionArgKind {
    Text,
    Boolean,
}

/// One declared argument of an action script.
#[derive(Debug)]
pub struct ActionArg {
    pub name: String,
    pub kind: Option<ActionArgKind>,
    pub about: Option<String>,
    pub required: Option<bool>,
}

/// The model of an action argument.
pub ghost struct ActionArgV {
    pub name: Seq<char>,
    pub kind: Option<ActionArgKind>,
    pub about: Option<Seq<char>>,
    pub required: Option<bool>,
}

impl DeepView for ActionArg {
    type V = ActionArgV;

    open spec fn deep_view(&self) -> ActionArgV {
        ActionArgV {
            name: self.name@,
            kind: self.kind,
            about: self.about.deep_view(),
            required: self.required,
        }
    }
}

impl Clone for ActionArg {
    /// Cloning keeps the model.
    fn clone(&self) -> (r: Self)
        ensures
            r.deep_view() == self.deep_view(),
    {
        ActionArg {
            name: self.name.clone(),
            kind: self.kind,
            about: match &self.about {
                Some(a) => Some(a.clone()),
                None => None,
            },
            required: self.required,
        }
    }
}

/// A standalone executable script package.
#[derive(Debug)]
pub struct ActionEntry {
    pub name: String,
    pub path: String,
    pub about: Option<String>,
    pub args: Vec<ActionArg>,
}

/// The model of an action entry.
pub ghost struct ActionEntryV {
    pub name: Seq<char>,
    pub path: Seq<char>,
    pub about: Option<Seq<char>>,
    pub args: Seq<ActionArgV>,
}

impl DeepView for ActionEntry {
    type V = ActionEntryV;

    open spec fn deep_view(&self) -> ActionEntryV {
        ActionEntryV {
            name: self.name@,
            path: self.path@,
            about: self.about.deep_view(),
            args: self.args.deep_view(),
        }
    }
}

impl Clone for ActionEntry {
    /// Cloning keeps the model.
    fn clone(&self) -> (r: Self)
        ensures
            r.deep_view() == self.deep_view(),
    {
        let mut args: Vec<ActionArg> = Vec::new();
        let mut i: usize = 0;
        while i < self.args.len()
            invariant
                i <= self.args.len(),
                args@.len() == i,
                forall|j: int| 0 <= j < i
                    ==> args@[j].deep_view() == self.args@[j].deep_view(),
            decreases self.args.len() - i,
        {
            args.push(self.args[i].clone());
            i += 1;
        }
        proof {
            assert(args.deep_view() =~= self.args.deep_view());
        }
        ActionEntry {
            name: self.name.clone(),
            path: self.path.clone(),
            about: match &self.about {
                Some(a) => Some(a.clone()),
                None => None,
            },
            args,
        }
    }
}

/// The root of a package: its name and its declared entries.
#[derive(Debug)]
pub struct PackageConfig {
    pub name: String,
    pub actions: Vec<ActionEntry>,
    pub scrolls: Vec<ScrollEntry>,
    pub repositories: Vec<RepositoryEntry>,
    pub targets: Vec<TargetEntry>,
}

/// The model of a package descriptor.
pub ghost struct PackageConfigV {
    pub name: Seq<char>,
    pub actions: Seq<ActionEntryV>,
    pub scrolls: Seq<ScrollEntryV>,
    pub repositories: Seq<RepositoryEntryV>,
    pub targets: Seq<TargetEntryV>,
}

impl DeepView for PackageConfig {
    type V = PackageConfigV;

    open spec fn deep_view(&self) -> PackageConfigV {
        PackageConfigV {
            name: self.name@,
            actions: self.actions.deep_view(),
            scrolls: self.scrolls.deep_view(),
            repositories: self.repositories.deep_view(),
            targets: self.targets.deep_view(),
        }
    }
}

impl Clone for PackageConfig {
    /// Cloning keeps the model.
    fn clone(&self) -> (r: Self)
        ensures
            r.deep_view() == self.deep_view(),
    {
        let mut actions: Vec<ActionEntry> = Vec::new();
        let mut i: usize = 0;
        while i < self.actions.len()
            invariant
                i <= self.actions.len(),
                actions@.len() == i,
                forall|j: int| 0 <= j < i
                    ==> actions@[j].deep_view() == self.actions@[j].deep_view(),
            decreases self.actions.len() - i,
        {
            actions.push(self.actions[i].clone());
            i += 1;
        }
        let mut scrolls: Vec<ScrollEntry> = Vec::new();
        let mut k: usize = 0;
        while k < self.scrolls.len()
            invariant
                k <= self.scrolls.len(),
                scrolls@.len() == k,
                forall|j: int| 0 <= j < k
                    ==> scrolls@[j].deep_view() == self.scrolls@[j].deep_view(),
            decreases self.scrolls.len() - k,
        {
            scrolls.push(self.scrolls[k].clone());
            k += 1;
        }
        let mut repositories: Vec<RepositoryEntry> = Vec::new();
        let mut m: usize = 0;
        while m < self.repositories.len()
            invariant
                m <= self.repositories.len(),
                repositories@.len() == m,
                forall|j: int| 0 <= j < m
                    ==> repositories@[j].deep_view() == self.repositories@[j].deep_view(),
            decreases self.repositories.len() - m,
        {
            repositories.push(self.repositories[m].clone());
            m += 1;
        }
        let mut targets: Vec<TargetEntry> = Vec::new();
        let mut t: usize = 0;
        while t < self.targets.len()
            invariant
                t <= self.targets.len(),
                targets@.len() == t,
                forall|j: int| 0 <= j < t
                    ==> targets@[j].deep_view() == self.targets@[j].deep_view(),
            decreases self.targets.len() - t,
        {
            targets.push(self.targets[t].clone());
            t += 1;
        }
        proof {
            assert(actions.deep_view() =~= self.actions.deep_view());
            assert(scrolls.deep_view() =~= self.scrolls.deep_view());
            assert(repositories.deep_view() =~= self.repositories.deep_view());
            assert(targets.deep_view() =~= self.targets.deep_view());
        }
        PackageConfig { name: self.name.clone(), actions, scrolls, repositories, targets }
    }
}

/// A package together with its loaded dependency descriptors, one per
/// declared repository, in declaration order.
pub struct PackageData {
    pub config: PackageConfig,
    pub dependencies: Vec<(String, PackageConfig)>,
}

/// The name/descriptor pairs of the dependencies that loaded, in
/// declaration order; a repository without a loaded descriptor
/// contributes nothing.
pub open spec fn dep_pairs_model(
    repos: Seq<RepositoryEntryV>,
    deps: Seq<Option<PackageConfigV>>,
) -> Seq<(Seq<char>, PackageConfigV)>
    decreases repos,
{
    if repos.len() == 0 {
        Seq::empty()
    } else {
        match deps[0] {
            None => dep_pairs_model(repos.drop_first(), deps.drop_first()),
            Some(c) => seq![(repos[0].name, c)] + dep_pairs_model(
                repos.drop_first(),
                deps.drop_first(),
            ),
        }
    }
}

/// Pairs each declared repository's name with its loaded descriptor; a
/// missing or malformed descriptor is not an error — that dependency
/// simply contributes nothing.
#[verifier::loop_isolation(false)]
pub fn resolve_package(config: &PackageConfig, dep_configs: Vec<Option<PackageConfig>>) -> (r:
    PackageData)
    requires
        dep_configs@.len() == config.repositories@.len(),
    ensures
        r.config.deep_view() == config.deep_view(),
        r.dependencies.deep_view() == dep_pairs_model(
            config.repositories.deep_view(),
            dep_configs.deep_view(),
        ),
{
    let ghost reposv = config.repositories.deep_view();
    let ghost target = dep_pairs_model(reposv, dep_configs.deep_view());
    let mut rest = dep_configs;
    let mut dependencies: Vec<(String, PackageConfig)> = Vec::new();
    proof {
        assert(dependencies.deep_view() =~= Seq::<(Seq<char>, PackageConfigV)>::empty());
        assert(reposv.skip(0) =~= reposv);
    }
    let mut i: usize = 0;
    while i < config.repositories.len()
        invariant
            i <= config.repositories.len(),
            rest@.len() == config.repositories@.len() - i,
            dependencies.deep_view() + dep_pairs_model(reposv.skip(i as int), rest.deep_view())
                =~= target,
        decreases config.repositories.len() - i,
    {
        let ghost rv = rest.deep_view();
        proof {
            assert(rv[0] =~= rest@[0].deep_view());
            assert(reposv.skip(i as int)[0] == reposv[i as int]);
            assert(reposv.skip(i as int).drop_first() =~= reposv.skip(i + 1));
        }
        let cfg = rest.remove(0);
        proof {
            assert(rest.deep_view() =~~= rv.drop_first());
        }
        match cfg {
            None => {},
            Some(loaded) => {
                let ghost d0 = dependencies.deep_view();
                let entry = (config.repositories[i].name.clone(), loaded);
                proof {
                    assert(entry.deep_view() == (reposv[i as int].name, rv[0]->0));
                }
                dependencies.push(entry);
                proof {
                    assert(dependencies.deep_view() =~= d0.push(
                        (reposv[i as int].name, rv[0]->0),
                    ));
                    assert(d0.push((reposv[i as int].name, rv[0]->0)) + dep_pairs_model(
                        reposv.skip(i + 1),
                        rv.drop_first(),
                    ) =~= d0 + dep_pairs_model(reposv.skip(i as int), rv));
                }
            },
        }
        i += 1;
    }
    proof {
        assert(reposv.skip(reposv.len() as int) =~= Seq::<RepositoryEntryV>::empty());
        assert(dep_pairs_model(reposv.skip(reposv.len() as int), rest.deep_view())
            =~= Seq::<(Seq<char>, PackageConfigV)>::empty());
    }
    PackageData { config: config.clone(), dependencies }
}

/// Whether some pair of `m` has the key `k`.
pub open spec fn str_contains_key(m: Seq<(Seq<char>, Seq<char>)>, k: Seq<char>) -> bool {
    exists|i: int| 0 <= i < m.len() && m[i].0 == k
}

/// The index of the first pair with key `k` (meaningful only when present).
pub open spec fn str_key_index(m: Seq<(Seq<char>, Seq<char>)>, k: Seq<char>) -> int
    decreases m,
{
    if m.len() == 0 {
        0
    } else if m[0].0 == k {
        0
    } else {
        1 + str_key_index(m.drop_first(), k)
    }
}

/// Inserting `(k, v)`: a present key has its value replaced in place, an
/// absent key is appended at the end.
pub open spec fn str_pairs_insert(
    m: Seq<(Seq<char>, Seq<char>)>,
    k: Seq<char>,
    v: Seq<char>,
) -> Seq<(Seq<char>, Seq<char>)> {
    if str_contains_key(m, k) {
        m.update(str_key_index(m, k), (k, v))
    } else {
        m.push((k, v))
    }
}

pub(crate) proof fn lemma_str_key_index(m: Seq<(Seq<char>, Seq<char>)>, k: Seq<char>, i: int)
    requires
        0 <= i < m.len(),
        m[i].0 == k,
        forall|j: int| 0 <= j < i ==> m[j].0 != k,
    ensures
        str_key_index(m, k) == i,
    decreases m,
{
    if m[0].0 != k {
        assert(m.drop_first()[i - 1] == m[i]);
        assert(forall|j: int| 0 <= j < i - 1 ==> m.drop_first()[j] == m[j + 1]);
        lemma_str_key_index(m.drop_first(), k, i - 1);
    }
}

/// The index of the first pair of `v` whose key reads as `k`.
pub(crate) fn find_string_key(v: &Vec<(String, String)>, k: &String) -> (r: Option<usize>)
    ensures
        match r {
            Some(i) => i < v@.len() && v.deep_view()[i as int].0 == k@
                && str_key_index(v.deep_view(), k@) == i,
            None => !str_contains_key(v.deep_view(), k@),
        },
{
    let mut i: usize = 0;
    while i < v.len()
        invariant
            i <= v.len(),
            forall|j: int| 0 <= j < i ==> v.deep_view()[j].0 != k@,
        decreases v.len() - i,
    {
        if v[i].0.eq(k) {
            proof {
                lemma_str_key_index(v.deep_view(), k@, i as int);
            }
            return Some(i);
        }
        i += 1;
    }
    None
}

/// Replaces the value under `k`, or appends the pair where `k` is absent.
pub(crate) fn string_map_insert(m: &mut Vec<(String, String)>, k: String, v: String)
    ensures
        final(m).deep_view() == str_pairs_insert(old(m).deep_view(), k@, v@),
{
    let ghost m0 = m.deep_view();
    match find_string_key(m, &k) {
        None => {
            m.push((k, v));
            proof {
                assert(m.deep_view() =~= m0.push((k@, v@)));
            }
        },
        Some(i) => {
            let _removed = m.remove(i);
            m.insert(i, (k, v));
            proof {
                assert(m.deep_view() =~= m0.update(i as int, (k@, v@)));
            }
        },
    }
}

/// Gathers raw descriptor texts and descriptor file paths by name.
#[derive(Debug)]
pub struct ConfigBuilder {
    pub raw_configs: Vec<(String, String)>,
    pub file_configs: Vec<(String, String)>,
}

impl ConfigBuilder {
    /// A builder with nothing gathered yet.
    pub fn new() -> (r: ConfigBuilder)
        ensures
            r.raw_configs.deep_view() == Seq::<(Seq<char>, Seq<char>)>::empty(),
            r.file_configs.deep_view() == Seq::<(Seq<char>, Seq<char>)>::empty(),
    {
        let r = ConfigBuilder { raw_configs: Vec::new(), file_configs: Vec::new() };
        proof {
            assert(r.raw_configs.deep_view() =~= Seq::<(Seq<char>, Seq<char>)>::empty());
            assert(r.file_configs.deep_view() =~= Seq::<(Seq<char>, Seq<char>)>::empty());
        }
        r
    }

    /// Records a raw descriptor text under `name`.
    pub fn with_raw_config(self, name: String, raw: String) -> (r: ConfigBuilder)
        ensures
            r.raw_configs.deep_view() == str_pairs_insert(
                self.raw_configs.deep_view(),
                name@,
                raw@,
            ),
            r.file_configs.deep_view() == self.file_configs.deep_view(),
    {
        let mut this = self;
        string_map_insert(&mut this.raw_configs, name, raw);
        this
    }

    /// Records a descriptor file path under `name`.
    pub fn with_file_config(self, name: String, path: String) -> (r: ConfigBuilder)
        ensures
            r.file_configs.deep_view() == str_pairs_insert(
                self.file_configs.deep_view(),
                name@,
                path@,
            ),
            r.raw_configs.deep_view() == self.raw_configs.deep_view(),
    {
        let mut this = self;
        string_map_insert(&mut this.file_configs, name, path);
        this
    }
}

/// The scrolls already declared by a package, or none without a descriptor.
pub fn setup_scrolls(config: &Option<PackageConfig>) -> (r: Vec<ScrollEntry>)
    ensures
        match config {
            None => r.deep_view() == Seq::<ScrollEntryV>::empty(),
            Some(c) => r.deep_view() == c.scrolls.deep_view(),
        },
{
    match config {
        None => {
            let r: Vec<ScrollEntry> = Vec::new();
            proof {
                assert(r.deep_view() =~= Seq::<ScrollEntryV>::empty());
            }
            r
        },
        Some(c) => {
            let mut scrolls: Vec<ScrollEntry> = Vec::new();
            let mut i: usize = 0;
            while i < c.scrolls.len()
                invariant
                    i <= c.scrolls.len(),
                    scrolls@.len() == i,
                    forall|j: int| 0 <= j < i
                        ==> scrolls@[j].deep_view() == c.scrolls@[j].deep_view(),
                decreases c.scrolls.len() - i,
            {
                scrolls.push(c.scrolls[i].clone());
                i += 1;
            }
            proof {
                assert(scrolls.deep_view() =~= c.scrolls.deep_view());
            }
            scrolls
        },
    }
}

} // verus!
