//! Action namespace resolution: every action of the current package and of
//! its loaded dependencies registers under a qualified name — `@/<name>`
//! for local entries, `<repo>/<name>` for dependency-owned ones — and local
//! names win on collision.

use vstd::prelude::*;

use crate::config::{ActionEntry, ActionEntryV, PackageConfig, PackageConfigV, RepositoryEntryV};
use crate::ResolvedContext;

verus! {

/// A resolved action: the entry paired with its owning package and its
/// qualified name.
#[derive(Debug)]
pub struct ActionRef {
    pub package: PackageConfig,
    pub action: ActionEntry,
    pub full_name: String,
}

/// The model of a resolved action.
pub ghost struct ActionRefV {
    pub package: PackageConfigV,
    pub action: ActionEntryV,
    pub full_name: Seq<char>,
}

impl DeepView for ActionRef {
    type V = ActionRefV;

    open spec fn deep_view(&self) -> ActionRefV {
        ActionRefV {
            package: self.package.deep_view(),
            action: self.action.deep_view(),
            full_name: self.full_name@,
        }
    }
}

/// The qualified name of a local action.
pub open spec fn action_full_name(name: Seq<char>) -> Seq<char> {
    "@/"@ + name
}

/// The qualified name of an action owned by a dependency.
pub open spec fn dep_action_full_name(repo: Seq<char>, name: Seq<char>) -> Seq<char> {
    repo + "/"@ + name
}

/// The resolved view of one local action.
pub open spec fn mk_action_ref(pkg: PackageConfigV, entry: ActionEntryV) -> ActionRefV {
    ActionRefV { package: pkg, action: entry, full_name: action_full_name(entry.name) }
}

/// The resolved view of one dependency-owned action.
pub open spec fn mk_dep_action_ref(
    repo: RepositoryEntryV,
    pkg: PackageConfigV,
    entry: ActionEntryV,
) -> ActionRefV {
    ActionRefV {
        package: pkg,
        action: entry,
        full_name: dep_action_full_name(repo.name, entry.name),
    }
}

/// Whether some resolved action carries the qualified name `k`.
pub open spec fn action_refs_contain(m: Seq<ActionRefV>, k: Seq<char>) -> bool {
    exists|i: int| 0 <= i < m.len() && m[i].full_name == k
}

/// The index of the first resolved action named `k` (meaningful only when
/// present).
pub open spec fn action_ref_index(m: Seq<ActionRefV>, k: Seq<char>) -> int
    decreases m,
{
    if m.len() == 0 {
        0
    } else if m[0].full_name == k {
        0
    } else {
        1 + action_ref_index(m.drop_first(), k)
    }
}

/// Registers a resolved action: a ref under a taken name replaces the
/// earlier one in place, a fresh name is appended.
pub open spec fn action_refs_insert(m: Seq<ActionRefV>, r: ActionRefV) -> Seq<ActionRefV> {
    if action_refs_contain(m, r.full_name) {
        m.update(action_ref_index(m, r.full_name), r)
    } else {
        m.push(r)
    }
}

/// Registers every action of one dependency package under its repository's
/// name.
pub open spec fn repo_actions_pass(
    repo: RepositoryEntryV,
    pkg: PackageConfigV,
    actions: Seq<ActionEntryV>,
    acc: Seq<ActionRefV>,
) -> Seq<ActionRefV>
    decreases actions,
{
    if actions.len() == 0 {
        acc
    } else {
        repo_actions_pass(
            repo,
            pkg,
            actions.drop_first(),
            action_refs_insert(acc, mk_dep_action_ref(repo, pkg, actions[0])),
        )
    }
}

/// Registers the actions of every loaded dependency, in declaration order;
/// a dependency without a loaded descriptor contributes nothing.
pub open spec fn deps_actions_pass(
    repos: Seq<RepositoryEntryV>,
    deps: Seq<Option<PackageConfigV>>,
    acc: Seq<ActionRefV>,
) -> Seq<ActionRefV>
    decreases repos,
{
    if repos.len() == 0 {
        acc
    } else {
        let acc2 = match deps[0] {
            None => acc,
            Some(pkg) => repo_actions_pass(repos[0], pkg, pkg.actions, acc),
        };
        deps_actions_pass(repos.drop_first(), deps.drop_first(), acc2)
    }
}

/// Registers every local action under `@/<name>`, after the dependencies,
/// so local names win on collision.
pub open spec fn local_actions_pass(
    pkg: PackageConfigV,
    actions: Seq<ActionEntryV>,
    acc: Seq<ActionRefV>,
) -> Seq<ActionRefV>
    decreases actions,
{
    if actions.len() == 0 {
        acc
    } else {
        local_actions_pass(
            pkg,
            actions.drop_first(),
            action_refs_insert(acc, mk_action_ref(pkg, actions[0])),
        )
    }
}

/// The full action namespace of a package and its loaded dependencies.
pub open spec fn list_actions_model(
    cfg: PackageConfigV,
    deps: Seq<Option<PackageConfigV>>,
) -> Seq<ActionRefV> {
    local_actions_pass(
        cfg,
        cfg.actions,
        deps_actions_pass(cfg.repositories, deps, Seq::empty()),
    )
}

proof fn lemma_action_ref_index(m: Seq<ActionRefV>, k: Seq<char>, i: int)
    requires
        0 <= i < m.len(),
        m[i].full_name == k,
        forall|j: int| 0 <= j < i ==> m[j].full_name != k,
    ensures
        action_ref_index(m, k) == i,
    decreases m,
{
    if m[0].full_name != k {
        assert(m.drop_first()[i - 1] == m[i]);
        assert(forall|j: int| 0 <= j < i - 1 ==> m.drop_first()[j] == m[j + 1]);
        lemma_action_ref_index(m.drop_first(), k, i - 1);
    }
}

/// The index of the first resolved action of `v` named `k`.
fn find_action_ref_index(v: &Vec<ActionRef>, k: &String) -> (r: Option<usize>)
    ensures
        match r {
            Some(i) => i < v@.len() && v.deep_view()[i as int].full_name == k@
                && action_ref_index(v.deep_view(), k@) == i,
            None => !action_refs_contain(v.deep_view(), k@),
        },
{
    let mut i: usize = 0;
    while i < v.len()
        invariant
            i <= v.len(),
            forall|j: int| 0 <= j < i ==> v.deep_view()[j].full_name != k@,
        decreases v.len() - i,
    {
        if v[i].full_name.eq(k) {
            proof {
                lemma_action_ref_index(v.deep_view(), k@, i as int);
            }
            return Some(i);
        }
        i += 1;
    }
    None
}

/// Registers `r` into `v` under its qualified name.
fn push_action_ref(v: &mut Vec<ActionRef>, r: ActionRef)
    ensures
        final(v).deep_view() == action_refs_insert(old(v).deep_view(), r.deep_view()),
{
    let ghost v0 = v.deep_view();
    match find_action_ref_index(v, &r.full_name) {
        None => {
            v.push(r);
            proof {
                assert(v.deep_view() =~= v0.push(r.deep_view()));
            }
        },
        Some(i) => {
            let _removed = v.remove(i);
            v.insert(i, r);
            proof {
                assert(v.deep_view() =~= v0.update(i as int, r.deep_view()));
            }
        },
    }
}

/// Every action of the current package and of its loaded dependencies,
/// each under its qualified name; local names win on collision. `deps`
/// carries the loaded descriptor of each declared repository, in order —
/// a missing or malformed one contributes nothing.
#[verifier::loop_isolation(false)]
pub fn list_actions(context: &ResolvedContext, deps: &Vec<Option<PackageConfig>>) -> (r: Vec<
    ActionRef,
>)
    requires
        deps@.len() == context.current_config.repositories@.len(),
    ensures
        r.deep_view() == list_actions_model(context.current_config.deep_view(), deps.deep_view()),
{
    let cfg = &context.current_config;
    let ghost cfgv = cfg.deep_view();
    let ghost depsv = deps.deep_view();
    let mut refs: Vec<ActionRef> = Vec::new();
    proof {
        assert(refs.deep_view() =~= Seq::<ActionRefV>::empty());
    }
    let ghost target = deps_actions_pass(cfgv.repositories, depsv, Seq::empty());
    proof {
        assert(cfgv.repositories.skip(0) =~= cfgv.repositories);
        assert(depsv.skip(0) =~= depsv);
    }
    let mut i: usize = 0;
    while i < cfg.repositories.len()
        invariant
            i <= cfg.repositories.len(),
            deps_actions_pass(
                cfgv.repositories.skip(i as int),
                depsv.skip(i as int),
                refs.deep_view(),
            ) == target,
        decreases cfg.repositories.len() - i,
    {
        proof {
            assert(cfgv.repositories.skip(i as int)[0] == cfgv.repositories[i as int]);
            assert(depsv.skip(i as int)[0] == depsv[i as int]);
            assert(cfgv.repositories.skip(i as int).drop_first() =~= cfgv.repositories.skip(
                i + 1,
            ));
            assert(depsv.skip(i as int).drop_first() =~= depsv.skip(i + 1));
        }
        match &deps[i] {
            None => {},
            Some(pkg) => {
                let ghost pkgv = pkg.deep_view();
                let ghost inner_target = repo_actions_pass(
                    cfgv.repositories[i as int],
                    pkgv,
                    pkgv.actions,
                    refs.deep_view(),
                );
                proof {
                    assert(pkgv.actions.skip(0) =~= pkgv.actions);
                }
                let mut j: usize = 0;
                while j < pkg.actions.len()
                    invariant
                        j <= pkg.actions.len(),
                        repo_actions_pass(
                            cfgv.repositories[i as int],
                            pkgv,
                            pkgv.actions.skip(j as int),
                            refs.deep_view(),
                        ) == inner_target,
                    decreases pkg.actions.len() - j,
                {
                    proof {
                        assert(pkgv.actions.skip(j as int)[0] == pkgv.actions[j as int]);
                        assert(pkgv.actions.skip(j as int).drop_first() =~= pkgv.actions.skip(
                            j + 1,
                        ));
                    }
                    let entry = pkg.actions[j].clone();
                    let full_name = context.current_config.repositories[i].name.clone().concat(
                        "/",
                    ).concat(entry.name.as_str());
                    let aref = ActionRef { package: pkg.clone(), action: entry, full_name };
                    proof {
                        assert(aref.deep_view() == mk_dep_action_ref(
                            cfgv.repositories[i as int],
                            pkgv,
                            pkgv.actions[j as int],
                        ));
                    }
                    push_action_ref(&mut refs, aref);
                    j += 1;
                }
            },
        }
        i += 1;
    }
    let ghost local_target = local_actions_pass(cfgv, cfgv.actions, refs.deep_view());
    proof {
        assert(cfgv.repositories.skip(cfgv.repositories.len() as int)
            =~= Seq::<RepositoryEntryV>::empty());
        assert(cfgv.actions.skip(0) =~= cfgv.actions);
    }
    let mut k: usize = 0;
    while k < cfg.actions.len()
        invariant
            k <= cfg.actions.len(),
            local_actions_pass(cfgv, cfgv.actions.skip(k as int), refs.deep_view())
                == local_target,
        decreases cfg.actions.len() - k,
    {
        proof {
            assert(cfgv.actions.skip(k as int)[0] == cfgv.actions[k as int]);
            assert(cfgv.actions.skip(k as int).drop_first() =~= cfgv.actions.skip(k + 1));
        }
        let entry = cfg.actions[k].clone();
        let full_name = "@/".to_owned().concat(entry.name.as_str());
        let aref = ActionRef { package: cfg.clone(), action: entry, full_name };
        proof {
            assert(aref.deep_view() == mk_action_ref(cfgv, cfgv.actions[k as int]));
        }
        push_action_ref(&mut refs, aref);
        k += 1;
    }
    refs
}

/// The first action entry of `actions` named `name`.
pub open spec fn find_action_entry_from(
    actions: Seq<ActionEntryV>,
    name: Seq<char>,
) -> Option<ActionEntryV>
    decreases actions,
{
    if actions.len() == 0 {
        None
    } else if actions[0].name == name {
        Some(actions[0])
    } else {
        find_action_entry_from(actions.drop_first(), name)
    }
}

/// The first action of `package` named `name`, if any.
#[verifier::loop_isolation(false)]
pub fn find_action_by_name(
    _context: &ResolvedContext,
    package: &PackageConfig,
    name: &String,
) -> (r: Option<ActionEntry>)
    ensures
        r.deep_view() == find_action_entry_from(package.actions.deep_view(), name@),
{
    let ghost av = package.actions.deep_view();
    proof {
        assert(av.skip(0) =~= av);
    }
    let mut i: usize = 0;
    while i < package.actions.len()
        invariant
            i <= package.actions.len(),
            find_action_entry_from(av.skip(i as int), name@) == find_action_entry_from(
                av,
                name@,
            ),
        decreases package.actions.len() - i,
    {
        proof {
            assert(av.skip(i as int)[0] == av[i as int]);
            assert(av.skip(i as int).drop_first() =~= av.skip(i + 1));
        }
        if package.actions[i].name.eq(name) {
            return Some(package.actions[i].clone());
        }
        i += 1;
    }
    proof {
        assert(av.skip(av.len() as int) =~= Seq::<ActionEntryV>::empty());
    }
    None
}

/// The first local action whose qualified name is `name`.
pub open spec fn find_action_full_from(
    pkg: PackageConfigV,
    actions: Seq<ActionEntryV>,
    name: Seq<char>,
) -> Option<ActionRefV>
    decreases actions,
{
    if actions.len() == 0 {
        None
    } else if action_full_name(actions[0].name) == name {
        Some(mk_action_ref(pkg, actions[0]))
    } else {
        find_action_full_from(pkg, actions.drop_first(), name)
    }
}

/// The first action of one dependency whose qualified name is `name`,
/// paired with its owning package.
pub open spec fn find_repo_action_from(
    repo: RepositoryEntryV,
    pkg: PackageConfigV,
    actions: Seq<ActionEntryV>,
    name: Seq<char>,
) -> Option<ActionRefV>
    decreases actions,
{
    if actions.len() == 0 {
        None
    } else if dep_action_full_name(repo.name, actions[0].name) == name {
        Some(mk_dep_action_ref(repo, pkg, actions[0]))
    } else {
        find_repo_action_from(repo, pkg, actions.drop_first(), name)
    }
}

/// The first dependency action whose qualified name is `name`, walking the
/// declared repositories in order.
pub open spec fn find_deps_action_from(
    repos: Seq<RepositoryEntryV>,
    deps: Seq<Option<PackageConfigV>>,
    name: Seq<char>,
) -> Option<ActionRefV>
    decreases repos,
{
    if repos.len() == 0 {
        None
    } else {
        let here = match deps[0] {
            None => None,
            Some(pkg) => find_repo_action_from(repos[0], pkg, pkg.actions, name),
        };
        match here {
            Some(r) => Some(r),
            None => find_deps_action_from(repos.drop_first(), deps.drop_first(), name),
        }
    }
}

/// The action `name` resolves to: local actions first, then each declared
/// repository in order.
pub open spec fn find_action_model(
    cfg: PackageConfigV,
    deps: Seq<Option<PackageConfigV>>,
    name: Seq<char>,
) -> Option<ActionRefV> {
    match find_action_full_from(cfg, cfg.actions, name) {
        Some(r) => Some(r),
        None => find_deps_action_from(cfg.repositories, deps, name),
    }
}

/// Resolves a qualified action name: local entries first, then each
/// declared repository in order; an unknown name is an error that carries
/// the name.
#[verifier::loop_isolation(false)]
pub fn find_action_by_full_name(
    context: &ResolvedContext,
    name: &String,
    deps: &Vec<Option<PackageConfig>>,
) -> (r: Result<ActionRef, String>)
    requires
        deps@.len() == context.current_config.repositories@.len(),
    ensures
        match r {
            Ok(ar) => find_action_model(
                context.current_config.deep_view(),
                deps.deep_view(),
                name@,
            ) == Some(ar.deep_view()),
            Err(msg) => find_action_model(
                context.current_config.deep_view(),
                deps.deep_view(),
                name@,
            ) is None && msg@ == "No action with name: "@ + name@,
        },
{
    let cfg = &context.current_config;
    let ghost cfgv = cfg.deep_view();
    let ghost depsv = deps.deep_view();
    proof {
        assert(cfgv.actions.skip(0) =~= cfgv.actions);
    }
    let mut i: usize = 0;
    while i < cfg.actions.len()
        invariant
            i <= cfg.actions.len(),
            find_action_full_from(cfgv, cfgv.actions.skip(i as int), name@)
                == find_action_full_from(cfgv, cfgv.actions, name@),
        decreases cfg.actions.len() - i,
    {
        proof {
            assert(cfgv.actions.skip(i as int)[0] == cfgv.actions[i as int]);
            assert(cfgv.actions.skip(i as int).drop_first() =~= cfgv.actions.skip(i + 1));
        }
        let full_name = "@/".to_owned().concat(cfg.actions[i].name.as_str());
        if name.eq(&full_name) {
            let aref = ActionRef {
                package: cfg.clone(),
                action: cfg.actions[i].clone(),
                full_name,
            };
            proof {
                assert(aref.deep_view() == mk_action_ref(cfgv, cfgv.actions[i as int]));
            }
            return Ok(aref);
        }
        i += 1;
    }
    proof {
        assert(cfgv.actions.skip(cfgv.actions.len() as int) =~= Seq::<ActionEntryV>::empty());
        assert(cfgv.repositories.skip(0) =~= cfgv.repositories);
        assert(depsv.skip(0) =~= depsv);
    }
    let mut k: usize = 0;
    while k < cfg.repositories.len()
        invariant
            k <= cfg.repositories.len(),
            find_deps_action_from(
                cfgv.repositories.skip(k as int),
                depsv.skip(k as int),
                name@,
            ) == find_deps_action_from(cfgv.repositories, depsv, name@),
        decreases cfg.repositories.len() - k,
    {
        proof {
            assert(cfgv.repositories.skip(k as int)[0] == cfgv.repositories[k as int]);
            assert(depsv.skip(k as int)[0] == depsv[k as int]);
            assert(cfgv.repositories.skip(k as int).drop_first() =~= cfgv.repositories.skip(
                k + 1,
            ));
            assert(depsv.skip(k as int).drop_first() =~= depsv.skip(k + 1));
        }
        match &deps[k] {
            None => {},
            Some(pkg) => {
                let ghost pkgv = pkg.deep_view();
                proof {
                    assert(pkgv.actions.skip(0) =~= pkgv.actions);
                }
                let mut j: usize = 0;
                while j < pkg.actions.len()
                    invariant
                        j <= pkg.actions.len(),
                        find_repo_action_from(
                            cfgv.repositories[k as int],
                            pkgv,
                            pkgv.actions.skip(j as int),
                            name@,
                        ) == find_repo_action_from(
                            cfgv.repositories[k as int],
                            pkgv,
                            pkgv.actions,
                            name@,
                        ),
                    decreases pkg.actions.len() - j,
                {
                    proof {
                        assert(pkgv.actions.skip(j as int)[0] == pkgv.actions[j as int]);
                        assert(pkgv.actions.skip(j as int).drop_first() =~= pkgv.actions.skip(
                            j + 1,
                        ));
                    }
                    let full_name = context.current_config.repositories[k].name.clone().concat(
                        "/",
                    ).concat(pkg.actions[j].name.as_str());
                    if name.eq(&full_name) {
                        let aref = ActionRef {
                            package: pkg.clone(),
                            action: pkg.actions[j].clone(),
                            full_name,
                        };
                        proof {
                            assert(aref.deep_view() == mk_dep_action_ref(
                                cfgv.repositories[k as int],
                                pkgv,
                                pkgv.actions[j as int],
                            ));
                        }
                        return Ok(aref);
                    }
                    j += 1;
                }
                proof {
                    assert(pkgv.actions.skip(pkgv.actions.len() as int)
                        =~= Seq::<ActionEntryV>::empty());
                }
            },
        }
        k += 1;
    }
    proof {
        assert(cfgv.repositories.skip(cfgv.repositories.len() as int)
            =~= Seq::<RepositoryEntryV>::empty());
    }
    Err("No action with name: ".to_owned().concat(name.as_str()))
}

} // verus!
