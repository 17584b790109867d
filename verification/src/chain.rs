//! Chain discovery: every chain of the current package and of its loaded
//! dependencies registers under a qualified key — `@/<path>` for local
//! entries, `<repo>/<path>` for dependency-owned ones, dependencies first.

use vstd::prelude::*;

use crate::ResolvedContext;

verus! {

/// The commands a chain file declares.
#[derive(Debug)]
pub struct ChainConfig {
    pub commands: Vec<ChainCommand>,
}

/// One declared chain command.
#[derive(Debug)]
pub struct ChainCommand {
    pub name: String,
    pub about: Option<String>,
    pub args: Vec<ChainArg>,
}

/// One declared argument of a chain command.
#[derive(Debug)]
pub struct ChainArg {
    pub name: String,
    pub about: Option<String>,
    pub required: Option<bool>,
}

/// The model of a chain argument.
pub ghost struct ChainArgV {
    pub name: Seq<char>,
    pub about: Option<Seq<char>>,
    pub required: Option<bool>,
}

impl DeepView for ChainArg {
    type V = ChainArgV;

    open spec fn deep_view(&self) -> ChainArgV {
        ChainArgV {
            name: self.name@,
            about: self.about.deep_view(),
            required: self.required,
        }
    }
}

/// The model of a chain command.
pub ghost struct ChainCommandV {
    pub name: Seq<char>,
    pub about: Option<Seq<char>>,
    pub args: Seq<ChainArgV>,
}

impl DeepView for ChainCommand {
    type V = ChainCommandV;

    open spec fn deep_view(&self) -> ChainCommandV {
        ChainCommandV {
            name: self.name@,
            about: self.about.deep_view(),
            args: self.args.deep_view(),
        }
    }
}

/// The model of a chain file.
pub ghost struct ChainConfigV {
    pub commands: Seq<ChainCommandV>,
}

impl DeepView for ChainConfig {
    type V = ChainConfigV;

    open spec fn deep_view(&self) -> ChainConfigV {
        ChainConfigV { commands: self.commands.deep_view() }
    }
}

/// A discovered chain: its loaded file, if it loaded, and its path.
#[derive(Debug)]
pub struct ChainRef {
    pub chain: Option<ChainConfig>,
    pub chain_path: String,
}

/// The model of a discovered chain.
pub ghost struct ChainRefV {
    pub chain: Option<ChainConfigV>,
    pub chain_path: Seq<char>,
}

impl DeepView for ChainRef {
    type V = ChainRefV;

    open spec fn deep_view(&self) -> ChainRefV {
        ChainRefV { chain: self.chain.deep_view(), chain_path: self.chain_path@ }
    }
}

/// One discovered chain source: the path its owner declares and the chain
/// file loaded from it, where loading succeeded.
#[derive(Debug)]
pub struct ChainSource {
    pub path: String,
    pub chain: Option<ChainConfig>,
}

/// The model of a chain source.
pub ghost struct ChainSourceV {
    pub path: Seq<char>,
    pub chain: Option<ChainConfigV>,
}

impl DeepView for ChainSource {
    type V = ChainSourceV;

    open spec fn deep_view(&self) -> ChainSourceV {
        ChainSourceV { path: self.path@, chain: self.chain.deep_view() }
    }
}

/// The keyed entry of one dependency-owned chain.
pub open spec fn dep_chain_pair(owner: Seq<char>, s: ChainSourceV) -> (Seq<char>, ChainRefV) {
    (owner + "/"@ + s.path, ChainRefV { chain: s.chain, chain_path: s.path })
}

/// The keyed entry of one local chain.
pub open spec fn local_chain_pair(s: ChainSourceV) -> (Seq<char>, ChainRefV) {
    ("@/"@ + s.path, ChainRefV { chain: s.chain, chain_path: s.path })
}

/// Whether some entry carries the key `k`.
pub open spec fn chains_contain_key(m: Seq<(Seq<char>, ChainRefV)>, k: Seq<char>) -> bool {
    exists|i: int| 0 <= i < m.len() && m[i].0 == k
}

/// The index of the first entry keyed `k` (meaningful only when present).
pub open spec fn chain_key_index(m: Seq<(Seq<char>, ChainRefV)>, k: Seq<char>) -> int
    decreases m,
{
    if m.len() == 0 {
        0
    } else if m[0].0 == k {
        0
    } else {
        1 + chain_key_index(m.drop_first(), k)
    }
}

/// Registers one keyed chain: an entry under a taken key replaces the
/// earlier one in place, a fresh key is appended.
pub open spec fn chains_insert(
    m: Seq<(Seq<char>, ChainRefV)>,
    kv: (Seq<char>, ChainRefV),
) -> Seq<(Seq<char>, ChainRefV)> {
    if chains_contain_key(m, kv.0) {
        m.update(chain_key_index(m, kv.0), kv)
    } else {
        m.push(kv)
    }
}

/// Registers every chain of one dependency under its repository's name.
pub open spec fn repo_chains_pass(
    owner: Seq<char>,
    ss: Seq<ChainSourceV>,
    acc: Seq<(Seq<char>, ChainRefV)>,
) -> Seq<(Seq<char>, ChainRefV)>
    decreases ss,
{
    if ss.len() == 0 {
        acc
    } else {
        repo_chains_pass(owner, ss.drop_first(), chains_insert(acc, dep_chain_pair(owner, ss[0])))
    }
}

/// Registers the chains of every dependency, in declaration order.
pub open spec fn deps_chains_pass(
    deps: Seq<(Seq<char>, Seq<ChainSourceV>)>,
    acc: Seq<(Seq<char>, ChainRefV)>,
) -> Seq<(Seq<char>, ChainRefV)>
    decreases deps,
{
    if deps.len() == 0 {
        acc
    } else {
        deps_chains_pass(deps.drop_first(), repo_chains_pass(deps[0].0, deps[0].1, acc))
    }
}

/// Registers every local chain under `@/<path>`, after the dependencies,
/// so local keys win on collision.
pub open spec fn local_chains_pass(
    ss: Seq<ChainSourceV>,
    acc: Seq<(Seq<char>, ChainRefV)>,
) -> Seq<(Seq<char>, ChainRefV)>
    decreases ss,
{
    if ss.len() == 0 {
        acc
    } else {
        local_chains_pass(ss.drop_first(), chains_insert(acc, local_chain_pair(ss[0])))
    }
}

/// Every discovered chain under its qualified key.
pub open spec fn list_chains_model(
    deps: Seq<(Seq<char>, Seq<ChainSourceV>)>,
    locals: Seq<ChainSourceV>,
) -> Seq<(Seq<char>, ChainRefV)> {
    local_chains_pass(locals, deps_chains_pass(deps, Seq::empty()))
}

proof fn lemma_chain_key_index(m: Seq<(Seq<char>, ChainRefV)>, k: Seq<char>, i: int)
    requires
        0 <= i < m.len(),
        m[i].0 == k,
        forall|j: int| 0 <= j < i ==> m[j].0 != k,
    ensures
        chain_key_index(m, k) == i,
    decreases m,
{
    if m[0].0 != k {
        assert(m.drop_first()[i - 1] == m[i]);
        assert(forall|j: int| 0 <= j < i - 1 ==> m.drop_first()[j] == m[j + 1]);
        lemma_chain_key_index(m.drop_first(), k, i - 1);
    }
}

/// The index of the first entry of `v` keyed `k`.
fn find_chain_key(v: &Vec<(String, ChainRef)>, k: &String) -> (r: Option<usize>)
    ensures
        match r {
            Some(i) => i < v@.len() && v.deep_view()[i as int].0 == k@ && chain_key_index(
                v.deep_view(),
                k@,
            ) == i,
            None => !chains_contain_key(v.deep_view(), k@),
        },
{
    let mut i: usize = 0;
    while i < v.len()
        invariant
            i <= v.len(),
            forall|j: int| 0 <= j < i ==> v.deep_view()[j].0 != k@,
        decreases v.len() - i,
    {
        proof {
            assert(v.deep_view()[i as int].0 == v@[i as int].0@);
        }
        if v[i].0.eq(k) {
            proof {
                lemma_chain_key_index(v.deep_view(), k@, i as int);
            }
            return Some(i);
        }
        i += 1;
    }
    None
}

/// Registers one keyed chain into `v`.
fn push_chain_ref(v: &mut Vec<(String, ChainRef)>, entry: (String, ChainRef))
    ensures
        final(v).deep_view() == chains_insert(old(v).deep_view(), entry.deep_view()),
{
    let ghost v0 = v.deep_view();
    match find_chain_key(v, &entry.0) {
        None => {
            v.push(entry);
            proof {
                assert(v.deep_view() =~= v0.push(entry.deep_view()));
            }
        },
        Some(i) => {
            let _removed = v.remove(i);
            v.insert(i, entry);
            proof {
                assert(v.deep_view() =~= v0.update(i as int, entry.deep_view()));
            }
        },
    }
}

/// Every discovered chain under its qualified key — each dependency's
/// chains under `<repo>/<path>` in declaration order, then the local
/// chains under `@/<path>` — a later entry under a taken key replacing
/// the earlier in place. `dep_chains` carries, per repository, its name
/// and its discovered chain sources.
#[verifier::loop_isolation(false)]
pub fn list_chains(
    _context: &ResolvedContext,
    dep_chains: Vec<(String, Vec<ChainSource>)>,
    local_chains: Vec<ChainSource>,
) -> (r: Vec<(String, ChainRef)>)
    ensures
        r.deep_view() == list_chains_model(dep_chains.deep_view(), local_chains.deep_view()),
{
    let ghost d0 = dep_chains.deep_view();
    let ghost l0 = local_chains.deep_view();
    let ghost mid = deps_chains_pass(d0, Seq::empty());
    let mut out: Vec<(String, ChainRef)> = Vec::new();
    let mut deps = dep_chains;
    proof {
        assert(out.deep_view() =~= Seq::<(Seq<char>, ChainRefV)>::empty());
    }
    while deps.len() > 0
        invariant
            deps_chains_pass(deps.deep_view(), out.deep_view()) == mid,
        decreases deps@.len(),
    {
        let ghost dv = deps.deep_view();
        proof {
            assert(dv[0] == (deps@[0].0@, deps@[0].1.deep_view()));
        }
        let (repo_name, sources) = deps.remove(0);
        proof {
            assert(deps.deep_view() =~~= dv.drop_first());
        }
        let ghost owner = repo_name@;
        let ghost inner = repo_chains_pass(owner, dv[0].1, out.deep_view());
        let mut srcs = sources;
        proof {
            assert(srcs.deep_view() =~= dv[0].1);
        }
        while srcs.len() > 0
            invariant
                repo_chains_pass(owner, srcs.deep_view(), out.deep_view()) == inner,
                owner == repo_name@,
            decreases srcs@.len(),
        {
            let ghost sv = srcs.deep_view();
            proof {
                assert(sv[0] == srcs@[0].deep_view());
            }
            let src = srcs.remove(0);
            proof {
                assert(srcs.deep_view() =~= sv.drop_first());
            }
            let key = repo_name.clone().concat("/").concat(src.path.as_str());
            let entry = (key, ChainRef { chain: src.chain, chain_path: src.path });
            proof {
                assert(entry.deep_view() == dep_chain_pair(owner, sv[0]));
            }
            push_chain_ref(&mut out, entry);
        }
        proof {
            assert(srcs.deep_view() =~= Seq::<ChainSourceV>::empty());
        }
    }
    proof {
        assert(deps.deep_view() =~~= Seq::<(Seq<char>, Seq<ChainSourceV>)>::empty());
        assert(out.deep_view() == mid);
        assert(l0.skip(0) =~= l0);
    }
    let ghost fin = local_chains_pass(l0, mid);
    let mut locals = local_chains;
    while locals.len() > 0
        invariant
            local_chains_pass(locals.deep_view(), out.deep_view()) == fin,
        decreases locals@.len(),
    {
        let ghost lv = locals.deep_view();
        proof {
            assert(lv[0] == locals@[0].deep_view());
        }
        let src = locals.remove(0);
        proof {
            assert(locals.deep_view() =~= lv.drop_first());
        }
        let key = "@/".to_owned().concat(src.path.as_str());
        let entry = (key, ChainRef { chain: src.chain, chain_path: src.path });
        proof {
            assert(entry.deep_view() == local_chain_pair(lv[0]));
        }
        push_chain_ref(&mut out, entry);
    }
    proof {
        assert(locals.deep_view() =~= Seq::<ChainSourceV>::empty());
    }
    out
}

} // verus!
