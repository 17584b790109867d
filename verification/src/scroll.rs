//! Scroll namespace resolution: every scroll of the current package and of
//! its loaded dependencies registers under a qualified name — `@/<name>`
//! for local entries, `<repo>/<name>` for dependency-owned ones — and local
//! names win on collision.

use vstd::prelude::*;

use crate::config::{PackageConfig, PackageConfigV, ScrollEntry, ScrollEntryV, RepositoryEntryV};
use crate::ResolvedContext;

verus! {

/// Extra commands a scroll may declare for the command line.
#[derive(Debug)]
pub struct ScrollConfig {
    pub commands: Vec<ScrollCommand>,
}

/// One declared scroll command.
#[derive(Debug)]
pub struct ScrollCommand {
    pub name: String,
    pub about: Option<String>,
    pub args: Vec<ScrollArg>,
}

/// One declared argument of a scroll command.
#[derive(Debug)]
pub struct ScrollArg {
    pub name: String,
    pub about: Option<String>,
    pub required: Option<bool>,
}

/// A resolved scroll: the entry paired with its owning package and its
/// qualified name.
#[derive(Debug)]
pub struct ScrollRef {
    pub package: PackageConfig,
    pub scroll: ScrollEntry,
    pub full_name: String,
    pub dependency_name: Option<String>,
}

/// The model of a resolved scroll.
pub ghost struct ScrollRefV {
    pub package: PackageConfigV,
    pub scroll: ScrollEntryV,
    pub full_name: Seq<char>,
    pub dependency_name: Option<Seq<char>>,
}

impl DeepView for ScrollRef {
    type V = ScrollRefV;

    open spec fn deep_view(&self) -> ScrollRefV {
        ScrollRefV {
            package: self.package.deep_view(),
            scroll: self.scroll.deep_view(),
            full_name: self.full_name@,
            dependency_name: self.dependency_name.deep_view(),
        }
    }
}

/// The qualified name of a scroll owned by a dependency.
pub open spec fn dep_full_name(repo: Seq<char>, scroll: Seq<char>) -> Seq<char> {
    repo + "/"@ + scroll
}

/// The qualified name of a scroll owned by the current package.
pub open spec fn local_full_name(scroll: Seq<char>) -> Seq<char> {
    "@/"@ + scroll
}

/// The resolved view of one dependency-owned scroll.
pub open spec fn mk_dep_ref(
    repo: RepositoryEntryV,
    pkg: PackageConfigV,
    entry: ScrollEntryV,
) -> ScrollRefV {
    ScrollRefV {
        package: pkg,
        scroll: entry,
        full_name: dep_full_name(repo.name, entry.name),
        dependency_name: Some(repo.name),
    }
}

/// The resolved view of one local scroll.
pub open spec fn mk_local_ref(pkg: PackageConfigV, entry: ScrollEntryV) -> ScrollRefV {
    ScrollRefV {
        package: pkg,
        scroll: entry,
        full_name: local_full_name(entry.name),
        dependency_name: None,
    }
}

/// Whether some resolved scroll carries the qualified name `k`.
pub open spec fn refs_contain_name(m: Seq<ScrollRefV>, k: Seq<char>) -> bool {
    exists|i: int| 0 <= i < m.len() && m[i].full_name == k
}

/// The index of the first resolved scroll named `k` (meaningful only when
/// present).
pub open spec fn ref_name_index(m: Seq<ScrollRefV>, k: Seq<char>) -> int
    decreases m,
{
    if m.len() == 0 {
        0
    } else if m[0].full_name == k {
        0
    } else {
        1 + ref_name_index(m.drop_first(), k)
    }
}

/// Registers a resolved scroll: a ref under a taken name replaces the
/// earlier one in place, a fresh name is appended.
pub open spec fn refs_insert(m: Seq<ScrollRefV>, r: ScrollRefV) -> Seq<ScrollRefV> {
    if refs_contain_name(m, r.full_name) {
        m.update(ref_name_index(m, r.full_name), r)
    } else {
        m.push(r)
    }
}

/// Registers every scroll of one dependency package under its repository's
/// name.
pub open spec fn repo_scrolls_pass(
    repo: RepositoryEntryV,
    pkg: PackageConfigV,
    scrolls: Seq<ScrollEntryV>,
    acc: Seq<ScrollRefV>,
) -> Seq<ScrollRefV>
    decreases scrolls,
{
    if scrolls.len() == 0 {
        acc
    } else {
        repo_scrolls_pass(
            repo,
            pkg,
            scrolls.drop_first(),
            refs_insert(acc, mk_dep_ref(repo, pkg, scrolls[0])),
        )
    }
}

/// Registers the scrolls of every loaded dependency, in declaration order;
/// a dependency without a loaded descriptor contributes nothing.
pub open spec fn deps_pass(
    repos: Seq<RepositoryEntryV>,
    deps: Seq<Option<PackageConfigV>>,
    acc: Seq<ScrollRefV>,
) -> Seq<ScrollRefV>
    decreases repos,
{
    if repos.len() == 0 {
        acc
    } else {
        let acc2 = match deps[0] {
            None => acc,
            Some(pkg) => repo_scrolls_pass(repos[0], pkg, pkg.scrolls, acc),
        };
        deps_pass(repos.drop_first(), deps.drop_first(), acc2)
    }
}

/// Registers every local scroll under `@/<name>`, after the dependencies,
/// so local names win on collision.
pub open spec fn local_scrolls_pass(
    pkg: PackageConfigV,
    scrolls: Seq<ScrollEntryV>,
    acc: Seq<ScrollRefV>,
) -> Seq<ScrollRefV>
    decreases scrolls,
{
    if scrolls.len() == 0 {
        acc
    } else {
        local_scrolls_pass(
            pkg,
            scrolls.drop_first(),
            refs_insert(acc, mk_local_ref(pkg, scrolls[0])),
        )
    }
}

/// The full namespace of a package and its loaded dependencies.
pub open spec fn list_scrolls_model(
    cfg: PackageConfigV,
    deps: Seq<Option<PackageConfigV>>,
) -> Seq<ScrollRefV> {
    local_scrolls_pass(
        cfg,
        cfg.scrolls,
        deps_pass(cfg.repositories, deps, Seq::empty()),
    )
}

proof fn lemma_ref_name_index(m: Seq<ScrollRefV>, k: Seq<char>, i: int)
    requires
        0 <= i < m.len(),
        m[i].full_name == k,
        forall|j: int| 0 <= j < i ==> m[j].full_name != k,
    ensures
        ref_name_index(m, k) == i,
    decreases m,
{
    if m[0].full_name != k {
        assert(m.drop_first()[i - 1] == m[i]);
        assert(forall|j: int| 0 <= j < i - 1 ==> m.drop_first()[j] == m[j + 1]);
        lemma_ref_name_index(m.drop_first(), k, i - 1);
    }
}

/// The index of the first resolved scroll of `v` named `k`.
fn find_ref_index(v: &Vec<ScrollRef>, k: &String) -> (r: Option<usize>)
    ensures
        match r {
            Some(i) => i < v@.len() && v.deep_view()[i as int].full_name == k@
                && ref_name_index(v.deep_view(), k@) == i,
            None => !refs_contain_name(v.deep_view(), k@),
        },
{
    let mut i: usize = 0;
    while i < v.len()
        invariant
            i <= v.len(),
            forall|j: int| 0 <= j < i ==> v.deep_view()[j].full_name != k@,
        decreases v.len() - i,
    {
        if v[i].full_name.eq(k) {
            proof {
                lemma_ref_name_index(v.deep_view(), k@, i as int);
            }
            return Some(i);
        }
        i += 1;
    }
    None
}

/// Registers `r` into `v` under its qualified name.
fn push_ref(v: &mut Vec<ScrollRef>, r: ScrollRef)
    ensures
        final(v).deep_view() == refs_insert(old(v).deep_view(), r.deep_view()),
{
    let ghost v0 = v.deep_view();
    match find_ref_index(v, &r.full_name) {
        None => {
            v.push(r);
            proof {
                assert(v.deep_view() =~= v0.push(r.deep_view()));
            }
        },
        Some(i) => {
            let _removed = v.remove(i);
            v.insert(i, r);
            proof {
                assert(v.deep_view() =~= v0.update(i as int, r.deep_view()));
            }
        },
    }
}

/// Every scroll of the current package and of its loaded dependencies,
/// each under its qualified name; local names win on collision. `deps`
/// carries the loaded descriptor of each declared repository, in order —
/// a missing or malformed one contributes nothing.
#[verifier::loop_isolation(false)]
pub fn list_scrolls(context: &ResolvedContext, deps: &Vec<Option<PackageConfig>>) -> (r: Vec<
    ScrollRef,
>)
    requires
        deps@.len() == context.current_config.repositories@.len(),
    ensures
        r.deep_view() == list_scrolls_model(context.current_config.deep_view(), deps.deep_view()),
{
    let cfg = &context.current_config;
    let ghost cfgv = cfg.deep_view();
    let ghost depsv = deps.deep_view();
    let mut refs: Vec<ScrollRef> = Vec::new();
    proof {
        assert(refs.deep_view() =~= Seq::<ScrollRefV>::empty());
    }
    let ghost target = deps_pass(cfgv.repositories, depsv, Seq::empty());
    proof {
        assert(cfgv.repositories.skip(0) =~= cfgv.repositories);
        assert(depsv.skip(0) =~= depsv);
    }
    let mut i: usize = 0;
    while i < cfg.repositories.len()
        invariant
            i <= cfg.repositories.len(),
            deps_pass(
                cfgv.repositories.skip(i as int),
                depsv.skip(i as int),
                refs.deep_view(),
            ) == target,
        decreases cfg.repositories.len() - i,
    {
        proof {
            assert(cfgv.repositories.skip(i as int)[0] == cfgv.repositories[i as int]);
            assert(depsv.skip(i as int)[0] == depsv[i as int]);
            assert(cfgv.repositories.skip(i as int).drop_first() =~= cfgv.repositories.skip(
                i + 1,
            ));
            assert(depsv.skip(i as int).drop_first() =~= depsv.skip(i + 1));
        }
        match &deps[i] {
            None => {},
            Some(pkg) => {
                let ghost pkgv = pkg.deep_view();
                let ghost inner_target = repo_scrolls_pass(
                    cfgv.repositories[i as int],
                    pkgv,
                    pkgv.scrolls,
                    refs.deep_view(),
                );
                proof {
                    assert(pkgv.scrolls.skip(0) =~= pkgv.scrolls);
                }
                let mut j: usize = 0;
                while j < pkg.scrolls.len()
                    invariant
                        j <= pkg.scrolls.len(),
                        repo_scrolls_pass(
                            cfgv.repositories[i as int],
                            pkgv,
                            pkgv.scrolls.skip(j as int),
                            refs.deep_view(),
                        ) == inner_target,
                    decreases pkg.scrolls.len() - j,
                {
                    proof {
                        assert(pkgv.scrolls.skip(j as int)[0] == pkgv.scrolls[j as int]);
                        assert(pkgv.scrolls.skip(j as int).drop_first() =~= pkgv.scrolls.skip(
                            j + 1,
                        ));
                    }
                    let entry = pkg.scrolls[j].clone();
                    let full_name = context.current_config.repositories[i].name.clone().concat(
                        "/",
                    ).concat(entry.name.as_str());
                    let sref = ScrollRef {
                        package: pkg.clone(),
                        scroll: entry,
                        full_name,
                        dependency_name: Some(
                            context.current_config.repositories[i].name.clone(),
                        ),
                    };
                    proof {
                        assert(sref.deep_view() == mk_dep_ref(
                            cfgv.repositories[i as int],
                            pkgv,
                            pkgv.scrolls[j as int],
                        ));
                    }
                    push_ref(&mut refs, sref);
                    j += 1;
                }
            },
        }
        i += 1;
    }
    let ghost local_target = local_scrolls_pass(cfgv, cfgv.scrolls, refs.deep_view());
    proof {
        assert(cfgv.repositories.skip(cfgv.repositories.len() as int)
            =~= Seq::<RepositoryEntryV>::empty());
        assert(cfgv.scrolls.skip(0) =~= cfgv.scrolls);
    }
    let mut k: usize = 0;
    while k < cfg.scrolls.len()
        invariant
            k <= cfg.scrolls.len(),
            local_scrolls_pass(cfgv, cfgv.scrolls.skip(k as int), refs.deep_view())
                == local_target,
        decreases cfg.scrolls.len() - k,
    {
        proof {
            assert(cfgv.scrolls.skip(k as int)[0] == cfgv.scrolls[k as int]);
            assert(cfgv.scrolls.skip(k as int).drop_first() =~= cfgv.scrolls.skip(k + 1));
        }
        let entry = cfg.scrolls[k].clone();
        let full_name = "@/".to_owned().concat(entry.name.as_str());
        let sref = ScrollRef {
            package: cfg.clone(),
            scroll: entry,
            full_name,
            dependency_name: None,
        };
        proof {
            assert(sref.deep_view() == mk_local_ref(cfgv, cfgv.scrolls[k as int]));
        }
        push_ref(&mut refs, sref);
        k += 1;
    }
    refs
}

/// The first scroll entry of `scrolls` named `name`.
pub open spec fn find_entry_from(
    scrolls: Seq<ScrollEntryV>,
    name: Seq<char>,
) -> Option<ScrollEntryV>
    decreases scrolls,
{
    if scrolls.len() == 0 {
        None
    } else if scrolls[0].name == name {
        Some(scrolls[0])
    } else {
        find_entry_from(scrolls.drop_first(), name)
    }
}

/// The first scroll of `package` named `name`, if any.
#[verifier::loop_isolation(false)]
pub fn find_scroll_by_name(
    _context: &ResolvedContext,
    package: &PackageConfig,
    name: &String,
) -> (r: Option<ScrollEntry>)
    ensures
        r.deep_view() == find_entry_from(package.scrolls.deep_view(), name@),
{
    let ghost sv = package.scrolls.deep_view();
    proof {
        assert(sv.skip(0) =~= sv);
    }
    let mut i: usize = 0;
    while i < package.scrolls.len()
        invariant
            i <= package.scrolls.len(),
            find_entry_from(sv.skip(i as int), name@) == find_entry_from(sv, name@),
        decreases package.scrolls.len() - i,
    {
        proof {
            assert(sv.skip(i as int)[0] == sv[i as int]);
            assert(sv.skip(i as int).drop_first() =~= sv.skip(i + 1));
        }
        if package.scrolls[i].name.eq(name) {
            return Some(package.scrolls[i].clone());
        }
        i += 1;
    }
    proof {
        assert(sv.skip(sv.len() as int) =~= Seq::<ScrollEntryV>::empty());
    }
    None
}

/// The first local scroll whose qualified name is `name`.
pub open spec fn find_local_from(
    pkg: PackageConfigV,
    scrolls: Seq<ScrollEntryV>,
    name: Seq<char>,
) -> Option<ScrollRefV>
    decreases scrolls,
{
    if scrolls.len() == 0 {
        None
    } else if local_full_name(scrolls[0].name) == name {
        Some(mk_local_ref(pkg, scrolls[0]))
    } else {
        find_local_from(pkg, scrolls.drop_first(), name)
    }
}

/// The first scroll of one dependency whose qualified name is `name`,
/// paired with its owning package.
pub open spec fn find_repo_from(
    repo: RepositoryEntryV,
    pkg: PackageConfigV,
    scrolls: Seq<ScrollEntryV>,
    name: Seq<char>,
) -> Option<ScrollRefV>
    decreases scrolls,
{
    if scrolls.len() == 0 {
        None
    } else if dep_full_name(repo.name, scrolls[0].name) == name {
        Some(mk_dep_ref(repo, pkg, scrolls[0]))
    } else {
        find_repo_from(repo, pkg, scrolls.drop_first(), name)
    }
}

/// The first dependency scroll whose qualified name is `name`, walking the
/// declared repositories in order.
pub open spec fn find_deps_from(
    repos: Seq<RepositoryEntryV>,
    deps: Seq<Option<PackageConfigV>>,
    name: Seq<char>,
) -> Option<ScrollRefV>
    decreases repos,
{
    if repos.len() == 0 {
        None
    } else {
        let here = match deps[0] {
            None => None,
            Some(pkg) => find_repo_from(repos[0], pkg, pkg.scrolls, name),
        };
        match here {
            Some(r) => Some(r),
            None => find_deps_from(repos.drop_first(), deps.drop_first(), name),
        }
    }
}

/// The scroll `name` resolves to: local scrolls first, then each declared
/// repository in order.
pub open spec fn find_full_model(
    cfg: PackageConfigV,
    deps: Seq<Option<PackageConfigV>>,
    name: Seq<char>,
) -> Option<ScrollRefV> {
    match find_local_from(cfg, cfg.scrolls, name) {
        Some(r) => Some(r),
        None => find_deps_from(cfg.repositories, deps, name),
    }
}

/// Resolves a qualified scroll name: local entries first, then each
/// declared repository in order; an unknown name is an error that carries
/// the name.
#[verifier::loop_isolation(false)]
pub fn find_scroll_by_full_name(
    context: &ResolvedContext,
    name: &String,
    deps: &Vec<Option<PackageConfig>>,
) -> (r: Result<ScrollRef, String>)
    requires
        deps@.len() == context.current_config.repositories@.len(),
    ensures
        match r {
            Ok(sr) => find_full_model(
                context.current_config.deep_view(),
                deps.deep_view(),
                name@,
            ) == Some(sr.deep_view()),
            Err(msg) => find_full_model(
                context.current_config.deep_view(),
                deps.deep_view(),
                name@,
            ) is None && msg@ == "No scroll with name: "@ + name@,
        },
{
    let cfg = &context.current_config;
    let ghost cfgv = cfg.deep_view();
    let ghost depsv = deps.deep_view();
    proof {
        assert(cfgv.scrolls.skip(0) =~= cfgv.scrolls);
    }
    let mut i: usize = 0;
    while i < cfg.scrolls.len()
        invariant
            i <= cfg.scrolls.len(),
            find_local_from(cfgv, cfgv.scrolls.skip(i as int), name@) == find_local_from(
                cfgv,
                cfgv.scrolls,
                name@,
            ),
        decreases cfg.scrolls.len() - i,
    {
        proof {
            assert(cfgv.scrolls.skip(i as int)[0] == cfgv.scrolls[i as int]);
            assert(cfgv.scrolls.skip(i as int).drop_first() =~= cfgv.scrolls.skip(i + 1));
        }
        let full_name = "@/".to_owned().concat(cfg.scrolls[i].name.as_str());
        if name.eq(&full_name) {
            let sref = ScrollRef {
                package: cfg.clone(),
                scroll: cfg.scrolls[i].clone(),
                full_name,
                dependency_name: None,
            };
            proof {
                assert(sref.deep_view() == mk_local_ref(cfgv, cfgv.scrolls[i as int]));
            }
            return Ok(sref);
        }
        i += 1;
    }
    proof {
        assert(cfgv.scrolls.skip(cfgv.scrolls.len() as int) =~= Seq::<ScrollEntryV>::empty());
        assert(cfgv.repositories.skip(0) =~= cfgv.repositories);
        assert(depsv.skip(0) =~= depsv);
    }
    let mut k: usize = 0;
    while k < cfg.repositories.len()
        invariant
            k <= cfg.repositories.len(),
            find_deps_from(
                cfgv.repositories.skip(k as int),
                depsv.skip(k as int),
                name@,
            ) == find_deps_from(cfgv.repositories, depsv, name@),
        decreases cfg.repositories.len() - k,
    {
        proof {
            assert(cfgv.repositories.skip(k as int)[0] == cfgv.repositories[k as int]);
            assert(depsv.skip(k as int)[0] == depsv[k as int]);
            assert(cfgv.repositories.skip(k as int).drop_first() =~= cfgv.repositories.skip(
                k + 1,
            ));
            assert(depsv.skip(k as int).drop_first() =~= depsv.skip(k + 1));
        }
        match &deps[k] {
            None => {},
            Some(pkg) => {
                let ghost pkgv = pkg.deep_view();
                proof {
                    assert(pkgv.scrolls.skip(0) =~= pkgv.scrolls);
                }
                let mut j: usize = 0;
                while j < pkg.scrolls.len()
                    invariant
                        j <= pkg.scrolls.len(),
                        find_repo_from(
                            cfgv.repositories[k as int],
                            pkgv,
                            pkgv.scrolls.skip(j as int),
                            name@,
                        ) == find_repo_from(
                            cfgv.repositories[k as int],
                            pkgv,
                            pkgv.scrolls,
                            name@,
                        ),
                    decreases pkg.scrolls.len() - j,
                {
                    proof {
                        assert(pkgv.scrolls.skip(j as int)[0] == pkgv.scrolls[j as int]);
                        assert(pkgv.scrolls.skip(j as int).drop_first() =~= pkgv.scrolls.skip(
                            j + 1,
                        ));
                    }
                    let full_name = context.current_config.repositories[k].name.clone().concat(
                        "/",
                    ).concat(pkg.scrolls[j].name.as_str());
                    if name.eq(&full_name) {
                        let sref = ScrollRef {
                            package: pkg.clone(),
                            scroll: pkg.scrolls[j].clone(),
                            full_name,
                            dependency_name: Some(
                                context.current_config.repositories[k].name.clone(),
                            ),
                        };
                        proof {
                            assert(sref.deep_view() == mk_dep_ref(
                                cfgv.repositories[k as int],
                                pkgv,
                                pkgv.scrolls[j as int],
                            ));
                        }
                        return Ok(sref);
                    }
                    j += 1;
                }
                proof {
                    assert(pkgv.scrolls.skip(pkgv.scrolls.len() as int)
                        =~= Seq::<ScrollEntryV>::empty());
                }
            },
        }
        k += 1;
    }
    proof {
        assert(cfgv.repositories.skip(cfgv.repositories.len() as int)
            =~= Seq::<RepositoryEntryV>::empty());
    }
    Err("No scroll with name: ".to_owned().concat(name.as_str()))
}

} // verus!
