//! Deep merging of semi-structured values: mappings merge key by key,
//! any other pairing replaces the target outright.

use vstd::prelude::*;

use crate::value::{find_key, first_key_index, mapping_contains_key, model_entries, Value, ValueV};

verus! {

broadcast use vstd::std_specs::vec::axiom_vec_index_decreases;

/// The model of deep-merging `b` into `a`: when both sides are mappings the
/// entries of `b` are folded into `a` in order; any other pairing replaces
/// `a` with `b`.
pub open spec fn merge_model(a: ValueV, b: ValueV) -> ValueV
    decreases b, 0nat,
{
    match (a, b) {
        (ValueV::Mapping(am), ValueV::Mapping(bm)) => ValueV::Mapping(
            merge_entries_model(am, bm),
        ),
        (_, bv) => bv,
    }
}

/// Folds the entries of `bm` into `am`, left to right.
pub open spec fn merge_entries_model(
    am: Seq<(ValueV, ValueV)>,
    bm: Seq<(ValueV, ValueV)>,
) -> Seq<(ValueV, ValueV)>
    decreases bm, 1nat,
{
    if bm.len() == 0 {
        am
    } else {
        merge_entries_model(merge_entry_model(am, bm[0]), bm.drop_first())
    }
}

/// Merges one entry into `am`: an absent key is appended, a present key has
/// the incoming value merged into the first entry that carries it.
pub open spec fn merge_entry_model(
    am: Seq<(ValueV, ValueV)>,
    kv: (ValueV, ValueV),
) -> Seq<(ValueV, ValueV)>
    decreases kv, 0nat,
{
    if mapping_contains_key(am, kv.0) {
        let i = first_key_index(am, kv.0);
        am.update(i, (am[i].0, merge_model(am[i].1, kv.1)))
    } else {
        am.push(kv)
    }
}

/// Deep-merges `b` into `a` in place.
pub fn merge_yaml(a: &mut Value, b: Value)
    ensures
        final(a).model() == merge_model(old(a).model(), b.model()),
{
    let mut tmp = Value::Null;
    core::mem::swap(a, &mut tmp);
    *a = merged(tmp, b);
}

/// Deep-merges `b` into `a`, returning the merged value.
fn merged(a: Value, b: Value) -> (r: Value)
    ensures
        r.model() == merge_model(a.model(), b.model()),
    decreases b, 0nat,
{
    match (a, b) {
        (Value::Mapping(am), Value::Mapping(bm)) => {
            let r = merge_entries(am, bm);
            Value::Mapping(r)
        },
        (_, bv) => bv,
    }
}

/// Folds the entries of `bm` into `am`, left to right.
fn merge_entries(am: Vec<(Value, Value)>, bm: Vec<(Value, Value)>) -> (r: Vec<(Value, Value)>)
    ensures
        model_entries(r@) == merge_entries_model(model_entries(am@), model_entries(bm@)),
    decreases bm@, 1nat,
{
    broadcast use crate::value::group_value_model;

    if bm.len() == 0 {
        assert(model_entries(bm@) =~= Seq::<(ValueV, ValueV)>::empty());
        am
    } else {
        let ghost bm0 = bm@;
        let mut bm = bm;
        let kv = bm.remove(0);
        proof {
            assert(bm@ =~= bm0.drop_first());
            assert(model_entries(bm0).drop_first() =~= model_entries(bm0.drop_first()));
        }
        let am2 = merge_entry(am, kv);
        merge_entries(am2, bm)
    }
}

/// Merges one key/value pair into the mapping entries `am`.
fn merge_entry(am: Vec<(Value, Value)>, kv: (Value, Value)) -> (r: Vec<(Value, Value)>)
    ensures
        model_entries(r@) == merge_entry_model(model_entries(am@), (kv.0.model(), kv.1.model())),
    decreases kv, 0nat,
{
    broadcast use crate::value::group_value_model;

    let (k, v) = kv;
    let mut am = am;
    let ghost am0 = am@;
    match find_key(&am, &k) {
        None => {
            am.push((k, v));
            proof {
                assert(model_entries(am@) =~= model_entries(am0).push((k.model(), v.model())));
            }
            am
        },
        Some(i) => {
            let (k0, v0) = am.remove(i);
            let merged_value = merged(v0, v);
            am.insert(i, (k0, merged_value));
            proof {
                assert(model_entries(am@) =~= model_entries(am0).update(
                    i as int,
                    (model_entries(am0)[i as int].0, merge_model(
                        model_entries(am0)[i as int].1,
                        v.model(),
                    )),
                ));
            }
            am
        },
    }
}

/// The lifted form of one variable file: its value nested under its
/// relative path components and file stem, innermost last.
pub open spec fn lift_model(components: Seq<Seq<char>>, stem: Seq<char>, v: ValueV) -> ValueV
    decreases components,
{
    if components.len() == 0 {
        ValueV::Mapping(seq![(ValueV::Str(stem), v)])
    } else {
        ValueV::Mapping(
            seq![
                (
                    ValueV::Str(components[0]),
                    lift_model(components.drop_first(), stem, v),
                ),
            ],
        )
    }
}

/// Nests a loaded variable file's value under its path components and file
/// stem: a file at `a/b/c.<ext>` holding `v` becomes `{a: {b: {c: v}}}`.
pub fn lift_under(components: &Vec<String>, stem: &String, value: Value) -> (r: Value)
    ensures
        r.model() == lift_model(components.deep_view(), stem@, value.model()),
{
    proof {
        assert(components.deep_view().skip(0) =~~= components.deep_view());
    }
    lift_from(components, 0, stem, value)
}

/// Nests `value` under the components from index `i` on.
fn lift_from(components: &Vec<String>, i: usize, stem: &String, value: Value) -> (r: Value)
    requires
        i <= components@.len(),
    ensures
        r.model() == lift_model(components.deep_view().skip(i as int), stem@, value.model()),
    decreases components@.len() - i,
{
    broadcast use crate::value::group_value_model;

    let ghost tail = components.deep_view().skip(i as int);
    if i == components.len() {
        proof {
            assert(tail =~~= Seq::<Seq<char>>::empty());
        }
        let entries = vec![(Value::Str(stem.clone()), value)];
        let r = Value::Mapping(entries);
        proof {
            assert(model_entries(r->Mapping_0@) =~= seq![
                (ValueV::Str(stem@), value.model()),
            ]);
        }
        r
    } else {
        proof {
            assert(tail[0] =~= components@[i as int]@);
            assert(tail.drop_first() =~~= components.deep_view().skip(i + 1));
        }
        let inner = lift_from(components, i + 1, stem, value);
        let entries = vec![(Value::Str(components[i].clone()), inner)];
        let r = Value::Mapping(entries);
        proof {
            assert(model_entries(r->Mapping_0@) =~= seq![
                (
                    ValueV::Str(components@[i as int]@),
                    lift_model(components.deep_view().skip(i + 1), stem@, value.model()),
                ),
            ]);
        }
        r
    }
}

/// The merged variable tree of a list of loaded files, each given as its
/// relative path components, its file stem and its value: every file is
/// lifted under its components and stem and deep-merged into the
/// accumulator, left to right.
pub open spec fn merge_files_model(
    files: Seq<(Seq<Seq<char>>, Seq<char>, ValueV)>,
    acc: ValueV,
) -> ValueV
    decreases files,
{
    if files.len() == 0 {
        acc
    } else {
        merge_files_model(
            files.drop_first(),
            merge_model(acc, lift_model(files[0].0, files[0].1, files[0].2)),
        )
    }
}

/// Folds a list of loaded variable files into one tree: each is lifted
/// under its path components and stem and deep-merged into an empty
/// mapping, in the order given (the caller hands the files in lexical
/// path order).
#[verifier::loop_isolation(false)]
pub fn merge_variable_files(files: Vec<(Vec<String>, String, Value)>) -> (r: Value)
    ensures
        r.model() == merge_files_model(files.deep_view(), ValueV::Mapping(Seq::empty())),
{
    broadcast use crate::value::group_value_model;

    let ghost f0 = files.deep_view();
    let mut acc = Value::Mapping(Vec::new());
    proof {
        assert(model_entries(acc->Mapping_0@) =~= Seq::<(ValueV, ValueV)>::empty());
    }
    let mut rest = files;
    while rest.len() > 0
        invariant
            merge_files_model(rest.deep_view(), acc.model()) == merge_files_model(
                f0,
                ValueV::Mapping(Seq::empty()),
            ),
        decreases rest@.len(),
    {
        let ghost rv = rest.deep_view();
        proof {
            assert(rv[0] == rest@[0].deep_view());
        }
        let (components, stem, value) = rest.remove(0);
        proof {
            assert(rest.deep_view() =~~= rv.drop_first());
        }
        let lifted = lift_under(&components, &stem, value);
        merge_yaml(&mut acc, lifted);
    }
    proof {
        assert(rest.deep_view() =~~= Seq::<(Seq<Seq<char>>, Seq<char>, ValueV)>::empty());
    }
    acc
}

} // verus!
