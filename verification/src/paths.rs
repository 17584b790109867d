//! Path handling for package-relative locations: logical normalization of
//! relative paths, and resolution of inner and package paths against the
//! module layout.

use vstd::prelude::*;

use crate::config::PackageConfig;
use crate::errors::{split_chars, split_on, chars_to_string};

verus! {

/// One normalization step: empty and current-directory components drop
/// out; a parent step pops the last kept component unless nothing is left
/// to pop or only parent steps are; anything else is kept.
pub open spec fn norm_step(acc: Seq<Seq<char>>, c: Seq<char>) -> Seq<Seq<char>> {
    if c == Seq::<char>::empty() || c == "."@ {
        acc
    } else if c == ".."@ {
        if acc.len() > 0 && acc.last() != ".."@ {
            acc.drop_last()
        } else {
            acc.push(c)
        }
    } else {
        acc.push(c)
    }
}

/// Folds the components through normalization, left to right.
pub open spec fn norm_fold(acc: Seq<Seq<char>>, comps: Seq<Seq<char>>) -> Seq<Seq<char>>
    decreases comps,
{
    if comps.len() == 0 {
        acc
    } else {
        norm_fold(norm_step(acc, comps[0]), comps.drop_first())
    }
}

/// The normalized components of a relative path.
pub open spec fn normal_components(s: Seq<char>) -> Seq<Seq<char>> {
    norm_fold(Seq::empty(), split_on(s, '/'))
}

/// Components joined with slashes.
pub open spec fn join_slash(comps: Seq<Seq<char>>) -> Seq<char>
    decreases comps,
{
    if comps.len() == 0 {
        Seq::empty()
    } else if comps.len() == 1 {
        comps[0]
    } else {
        comps[0] + "/"@ + join_slash(comps.drop_first())
    }
}

/// The normalized form of a relative path.
pub open spec fn normalize_model(s: Seq<char>) -> Seq<char> {
    join_slash(normal_components(s))
}

/// Whether an exec component reads as the literal parent step.
fn is_dot_dot(c: &Vec<char>) -> (r: bool)
    ensures
        r == (c@ == ".."@),
{
    proof {
        reveal_strlit("..");
    }
    if c.len() == 2 {
        let r = c[0] == '.' && c[1] == '.';
        proof {
            if r {
                assert(c@ =~= ".."@);
            }
            if c@ == ".."@ {
                assert(c@[0] == '.' && c@[1] == '.');
            }
        }
        r
    } else {
        false
    }
}

/// Whether an exec component reads as the current-directory step.
fn is_dot(c: &Vec<char>) -> (r: bool)
    ensures
        r == (c@ == "."@),
{
    proof {
        reveal_strlit(".");
    }
    if c.len() == 1 {
        let r = c[0] == '.';
        proof {
            if r {
                assert(c@ =~= "."@);
            }
            if c@ == "."@ {
                assert(c@[0] == '.');
            }
        }
        r
    } else {
        false
    }
}

/// The normalized components of `path`.
#[verifier::loop_isolation(false)]
fn normal_segments(path: &String) -> (r: Vec<Vec<char>>)
    ensures
        r.deep_view() == normal_components(path@),
{
    let cs = crate::evaluate::str_chars(path.as_str());
    let comps = split_chars(&cs, '/');
    let ghost c0 = comps.deep_view();
    let mut stack: Vec<Vec<char>> = Vec::new();
    let mut rest = comps;
    proof {
        assert(stack.deep_view() =~~= Seq::<Seq<char>>::empty());
    }
    while rest.len() > 0
        invariant
            norm_fold(stack.deep_view(), rest.deep_view()) == norm_fold(Seq::empty(), c0),
        decreases rest@.len(),
    {
        let ghost rv = rest.deep_view();
        proof {
            assert(rv[0] =~= rest@[0]@);
        }
        let c = rest.remove(0);
        proof {
            assert(rest.deep_view() =~~= rv.drop_first());
        }
        let ghost s0 = stack.deep_view();
        if c.len() == 0 || is_dot(&c) {
            proof {
                assert(c@ == Seq::<char>::empty() || c@ == "."@) by {
                    if c@.len() == 0 {
                        assert(c@ =~= Seq::<char>::empty());
                    }
                }
                assert(norm_step(s0, rv[0]) == s0);
            }
        } else if is_dot_dot(&c) {
            let popped = if stack.len() > 0 {
                !is_dot_dot(&stack[stack.len() - 1])
            } else {
                false
            };
            if popped {
                proof {
                    assert(s0.last() == stack@[stack@.len() - 1]@);
                }
                let _ = stack.pop();
                proof {
                    assert(stack.deep_view() =~~= s0.drop_last());
                    assert(norm_step(s0, rv[0]) == s0.drop_last());
                }
            } else {
                stack.push(c);
                proof {
                    assert(stack.deep_view() =~~= s0.push(".."@));
                    assert(norm_step(s0, rv[0]) == s0.push(".."@));
                }
            }
        } else {
            stack.push(c);
            proof {
                assert(stack.deep_view() =~~= s0.push(rv[0]));
                assert(norm_step(s0, rv[0]) == s0.push(rv[0]));
            }
        }
    }
    proof {
        assert(rest.deep_view() =~~= Seq::<Seq<char>>::empty());
    }
    stack
}

/// Joins segments with slashes, from index `i` on.
fn join_segments(v: &Vec<Vec<char>>, i: usize) -> (r: String)
    requires
        i <= v@.len(),
    ensures
        r@ == join_slash(v.deep_view().skip(i as int)),
    decreases v@.len() - i,
{
    let ghost tail = v.deep_view().skip(i as int);
    if i == v.len() {
        proof {
            assert(tail =~~= Seq::<Seq<char>>::empty());
        }
        String::new()
    } else {
        proof {
            assert(tail[0] =~= v@[i as int]@);
            assert(tail.drop_first() =~~= v.deep_view().skip(i + 1));
        }
        let head = chars_to_string(&v[i], 0, v[i].len());
        proof {
            assert(v@[i as int]@.subrange(0, v@[i as int]@.len() as int) =~= v@[i as int]@);
        }
        if i + 1 == v.len() {
            proof {
                assert(v.deep_view().skip(i + 1) =~~= Seq::<Seq<char>>::empty());
            }
            head
        } else {
            let rest = join_segments(v, i + 1);
            head.concat("/").concat(rest.as_str())
        }
    }
}

/// The normalized form of a relative path: empty and current-directory
/// components drop out and parent steps pop what they can.
pub fn normalize_path(path: &String) -> (r: String)
    ensures
        r@ == normalize_model(path@),
{
    let segs = normal_segments(path);
    proof {
        assert(segs.deep_view().skip(0) =~~= segs.deep_view());
    }
    join_segments(&segs, 0)
}

/// Resolves a path against the package layout: a path under the `@`
/// namespace maps into the package root, anything else lives under the
/// module cache.
pub fn resolve_package_path(path: &String) -> (r: Result<String, String>)
    ensures
        match r {
            Ok(p) => {
                let comps = normal_components(path@);
                if comps.len() > 0 && comps[0] == "@"@ {
                    p@ == join_slash(comps.drop_first())
                } else {
                    p@ == join_slash(seq!["ggcode_modules"@] + comps)
                }
            },
            Err(_) => false,
        },
{
    proof {
        reveal_strlit("@");
    }
    let mut segs = normal_segments(path);
    let ghost c0 = segs.deep_view();
    let is_at = if segs.len() > 0 {
        proof {
            assert(c0[0] =~= segs@[0]@);
        }
        let first = &segs[0];
        if first.len() == 1 {
            let r = first[0] == '@';
            proof {
                if r {
                    assert(segs@[0]@ =~= "@"@);
                }
                if c0[0] == "@"@ {
                    assert(segs@[0]@[0] == '@');
                }
            }
            r
        } else {
            proof {
                if c0[0] == "@"@ {
                    assert(segs@[0]@.len() == 1);
                }
            }
            false
        }
    } else {
        false
    };
    if is_at {
        let _ = segs.remove(0);
        proof {
            assert(segs.deep_view() =~~= c0.drop_first());
            assert(segs.deep_view().skip(0) =~~= segs.deep_view());
        }
        Ok(join_segments(&segs, 0))
    } else {
        let prefix = crate::evaluate::str_chars("ggcode_modules");
        proof {
            reveal_strlit("ggcode_modules");
        }
        segs.insert(0, prefix);
        proof {
            assert(segs.deep_view() =~~= seq!["ggcode_modules"@] + c0);
            assert(segs.deep_view().skip(0) =~~= segs.deep_view());
        }
        Ok(join_segments(&segs, 0))
    }
}

/// Resolves a path that must stay inside the project directory: a
/// normalized path that leaves it, or names the project directory itself,
/// or is empty, is refused.
pub fn resolve_inner_path(path: &String) -> (r: Result<String, String>)
    ensures
        match r {
            Ok(p) => {
                let comps = normal_components(path@);
                &&& p@ == join_slash(comps)
                &&& !(comps.len() > 0 && comps[0] == ".."@)
                &&& p@.len() > 0
            },
            Err(_) => {
                let comps = normal_components(path@);
                (comps.len() > 0 && comps[0] == ".."@) || join_slash(comps).len() == 0
            },
        },
{
    let segs = normal_segments(path);
    let ghost comps = segs.deep_view();
    proof {
        assert(segs.deep_view().skip(0) =~~= segs.deep_view());
        if segs@.len() > 0 {
            assert(comps[0] =~= segs@[0]@);
        }
    }
    let leaves = if segs.len() > 0 {
        is_dot_dot(&segs[0])
    } else {
        false
    };
    if leaves {
        let normalized = join_segments(&segs, 0);
        return Err(
            "Invalid path: ".to_owned().concat(normalized.as_str()).concat(
                ". Could not leave base directory.",
            ),
        );
    }
    let normalized = join_segments(&segs, 0);
    if normalized.as_str().is_empty() {
        return Err("Invalid path. Path should not be empty.".to_owned());
    }
    Ok(normalized)
}

/// The module search locations for the scripting runtime: the local
/// library directory, then each dependency's, in declaration order.
#[verifier::loop_isolation(false)]
pub fn resolve_search_locations(config: &PackageConfig) -> (r: Vec<String>)
    ensures
        r@.len() == 1 + config.repositories@.len(),
        r.deep_view()[0] == "lib/?.luau"@,
        forall|i: int| 0 <= i < config.repositories@.len()
            ==> r.deep_view()[i + 1] == "ggcode_modules/"@
                + config.repositories.deep_view()[i].name + "/lib/?.luau"@,
{
    let mut locations: Vec<String> = Vec::new();
    locations.push("lib/?.luau".to_owned());
    let mut i: usize = 0;
    while i < config.repositories.len()
        invariant
            i <= config.repositories@.len(),
            locations@.len() == 1 + i,
            locations.deep_view()[0] == "lib/?.luau"@,
            forall|j: int| 0 <= j < i
                ==> locations.deep_view()[j + 1] == "ggcode_modules/"@
                    + config.repositories.deep_view()[j].name + "/lib/?.luau"@,
        decreases config.repositories.len() - i,
    {
        let entry = "ggcode_modules/".to_owned().concat(
            config.repositories[i].name.as_str(),
        ).concat("/lib/?.luau");
        locations.push(entry);
        i += 1;
    }
    locations
}

} // verus!
