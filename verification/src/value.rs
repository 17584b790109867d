//! The universal semi-structured value type that flows through variable
//! files, the evaluator and the scripting boundary.

use vstd::prelude::*;

verus! {

broadcast use vstd::std_specs::vec::axiom_vec_index_decreases;

/// A semi-structured document value. A mapping is a list of key/value pairs;
/// a tagged node carries a tag name and one inner value, and is the
/// evaluation DSL's sole extension point.
#[derive(Debug, PartialEq)]
pub enum Value {
    Null,
    Bool(bool),
    Number(i64),
    Str(String),
    Sequence(Vec<Value>),
    Mapping(Vec<(Value, Value)>),
    Tagged(String, Box<Value>),
}

/// The mathematical model of a `Value`.
#[verifier::ext_equal]
pub enum ValueV {
    Null,
    Bool(bool),
    Number(int),
    Str(Seq<char>),
    Sequence(Seq<ValueV>),
    Mapping(Seq<(ValueV, ValueV)>),
    Tagged(Seq<char>, Box<ValueV>),
}

impl Value {
    /// The model of this value.
    pub open spec fn model(&self) -> ValueV
        decreases self,
    {
        match self {
            Value::Null => ValueV::Null,
            Value::Bool(b) => ValueV::Bool(*b),
            Value::Number(n) => ValueV::Number(*n as int),
            Value::Str(s) => ValueV::Str(s@),
            Value::Sequence(vs) => ValueV::Sequence(model_elems(vs@)),
            Value::Mapping(es) => ValueV::Mapping(model_entries(es@)),
            Value::Tagged(t, v) => ValueV::Tagged(t@, Box::new((**v).model())),
        }
    }
}

impl DeepView for Value {
    type V = ValueV;

    open spec fn deep_view(&self) -> ValueV {
        self.model()
    }
}

/// The models of the elements of a sequence value.
pub open spec fn model_elems(s: Seq<Value>) -> Seq<ValueV>
    decreases s,
{
    if s.len() == 0 {
        Seq::empty()
    } else {
        seq![s[0].model()] + model_elems(s.drop_first())
    }
}

/// The models of the entries of a mapping value.
pub open spec fn model_entries(s: Seq<(Value, Value)>) -> Seq<(ValueV, ValueV)>
    decreases s,
{
    if s.len() == 0 {
        Seq::empty()
    } else {
        seq![(s[0].0.model(), s[0].1.model())] + model_entries(s.drop_first())
    }
}

pub broadcast proof fn model_elems_len(s: Seq<Value>)
    ensures
        (#[trigger] model_elems(s)).len() == s.len(),
    decreases s,
{
    if s.len() != 0 {
        model_elems_len(s.drop_first());
    }
}

pub broadcast proof fn model_elems_index(s: Seq<Value>, i: int)
    requires
        0 <= i < s.len(),
    ensures
        #[trigger] model_elems(s)[i] == s[i].model(),
    decreases s,
{
    model_elems_len(s);
    if i > 0 {
        model_elems_index(s.drop_first(), i - 1);
    }
}

pub broadcast proof fn model_entries_len(s: Seq<(Value, Value)>)
    ensures
        (#[trigger] model_entries(s)).len() == s.len(),
    decreases s,
{
    if s.len() != 0 {
        model_entries_len(s.drop_first());
    }
}

pub broadcast proof fn model_entries_index(s: Seq<(Value, Value)>, i: int)
    requires
        0 <= i < s.len(),
    ensures
        #[trigger] model_entries(s)[i] == (s[i].0.model(), s[i].1.model()),
    decreases s,
{
    model_entries_len(s);
    if i > 0 {
        model_entries_index(s.drop_first(), i - 1);
    }
}

pub broadcast group group_value_model {
    model_elems_len,
    model_elems_index,
    model_entries_len,
    model_entries_index,
}

/// Whether some entry of a mapping model has the key `k`.
pub open spec fn mapping_contains_key(m: Seq<(ValueV, ValueV)>, k: ValueV) -> bool {
    exists|i: int| 0 <= i < m.len() && m[i].0 == k
}

/// The index of the first entry with key `k` (meaningful only when present).
pub open spec fn first_key_index(m: Seq<(ValueV, ValueV)>, k: ValueV) -> int
    decreases m,
{
    if m.len() == 0 {
        0
    } else if m[0].0 == k {
        0
    } else {
        1 + first_key_index(m.drop_first(), k)
    }
}

pub proof fn lemma_first_key_index(m: Seq<(ValueV, ValueV)>, k: ValueV, i: int)
    requires
        0 <= i < m.len(),
        m[i].0 == k,
        forall|j: int| 0 <= j < i ==> m[j].0 != k,
    ensures
        first_key_index(m, k) == i,
    decreases m,
{
    if m[0].0 != k {
        assert(m.drop_first()[i - 1] == m[i]);
        assert(forall|j: int| 0 <= j < i - 1 ==> m.drop_first()[j] == m[j + 1]);
        lemma_first_key_index(m.drop_first(), k, i - 1);
    }
}

impl Clone for Value {
    /// Cloning keeps the model.
    #[verifier::loop_isolation(false)]
    fn clone(&self) -> (r: Self)
        ensures
            r.model() == self.model(),
        decreases self,
    {
        broadcast use group_value_model;

        match self {
            Value::Null => Value::Null,
            Value::Bool(b) => Value::Bool(*b),
            Value::Number(n) => Value::Number(*n),
            Value::Str(s) => Value::Str(s.clone()),
            Value::Sequence(vs) => {
                let mut out: Vec<Value> = Vec::new();
                let mut i: usize = 0;
                while i < vs.len()
                    invariant
                        i <= vs.len(),
                        self == Value::Sequence(*vs),
                        out@.len() == i,
                        forall|j: int| 0 <= j < i ==> out@[j].model() == vs@[j].model(),
                    decreases vs.len() - i,
                {
                    out.push(vs[i].clone());
                    i += 1;
                }
                proof {
                    assert(model_elems(out@) =~= model_elems(vs@));
                }
                Value::Sequence(out)
            },
            Value::Mapping(es) => {
                let mut out: Vec<(Value, Value)> = Vec::new();
                let mut i: usize = 0;
                while i < es.len()
                    invariant
                        i <= es.len(),
                        self == Value::Mapping(*es),
                        out@.len() == i,
                        forall|j: int| 0 <= j < i ==> out@[j].0.model() == es@[j].0.model()
                            && out@[j].1.model() == es@[j].1.model(),
                    decreases es.len() - i,
                {
                    let kv = (es[i].0.clone(), es[i].1.clone());
                    out.push(kv);
                    i += 1;
                }
                proof {
                    assert(model_entries(out@) =~= model_entries(es@));
                }
                Value::Mapping(out)
            },
            Value::Tagged(t, v) => Value::Tagged(t.clone(), Box::new((**v).clone())),
        }
    }
}

/// Deep structural equality of two values, decided by their models.
#[verifier::loop_isolation(false)]
pub fn value_eq(a: &Value, b: &Value) -> (r: bool)
    ensures
        r == (a.model() == b.model()),
    decreases a,
{
    broadcast use group_value_model;

    match (a, b) {
        (Value::Null, Value::Null) => true,
        (Value::Bool(x), Value::Bool(y)) => *x == *y,
        (Value::Number(x), Value::Number(y)) => *x == *y,
        (Value::Str(x), Value::Str(y)) => x.eq(y),
        (Value::Sequence(xs), Value::Sequence(ys)) => {
            if xs.len() != ys.len() {
                proof {
                    assert(model_elems(xs@).len() != model_elems(ys@).len());
                }
                return false;
            }
            let mut i: usize = 0;
            while i < xs.len()
                invariant
                    i <= xs.len(),
                    xs@.len() == ys@.len(),
                    a == Value::Sequence(*xs),
                    b == Value::Sequence(*ys),
                    forall|j: int| 0 <= j < i ==> xs@[j].model() == ys@[j].model(),
                decreases xs.len() - i,
            {
                if !value_eq(&xs[i], &ys[i]) {
                    proof {
                        assert(model_elems(xs@)[i as int] != model_elems(ys@)[i as int]);
                    }
                    return false;
                }
                i += 1;
            }
            proof {
                assert(model_elems(xs@) =~= model_elems(ys@));
            }
            true
        },
        (Value::Mapping(xs), Value::Mapping(ys)) => {
            if xs.len() != ys.len() {
                proof {
                    assert(model_entries(xs@).len() != model_entries(ys@).len());
                }
                return false;
            }
            let mut i: usize = 0;
            while i < xs.len()
                invariant
                    i <= xs.len(),
                    xs@.len() == ys@.len(),
                    a == Value::Mapping(*xs),
                    b == Value::Mapping(*ys),
                    forall|j: int| 0 <= j < i ==> xs@[j].0.model() == ys@[j].0.model()
                        && xs@[j].1.model() == ys@[j].1.model(),
                decreases xs.len() - i,
            {
                if !value_eq(&xs[i].0, &ys[i].0) {
                    proof {
                        assert(model_entries(xs@)[i as int] != model_entries(ys@)[i as int]);
                    }
                    return false;
                }
                if !value_eq(&xs[i].1, &ys[i].1) {
                    proof {
                        assert(model_entries(xs@)[i as int] != model_entries(ys@)[i as int]);
                    }
                    return false;
                }
                i += 1;
            }
            proof {
                assert(model_entries(xs@) =~= model_entries(ys@));
            }
            true
        },
        (Value::Tagged(tx, vx), Value::Tagged(ty, vy)) => {
            if tx.eq(ty) {
                value_eq(vx, vy)
            } else {
                false
            }
        },
        _ => {
            false
        },
    }
}

/// The index of the first entry of `es` whose key's model equals `k`'s.
#[verifier::loop_isolation(false)]
pub fn find_key(es: &Vec<(Value, Value)>, k: &Value) -> (r: Option<usize>)
    ensures
        match r {
            Some(i) => i < es@.len() && es@[i as int].0.model() == k.model()
                && first_key_index(model_entries(es@), k.model()) == i,
            None => !mapping_contains_key(model_entries(es@), k.model()),
        },
{
    broadcast use group_value_model;

    let mut i: usize = 0;
    while i < es.len()
        invariant
            i <= es.len(),
            forall|j: int| 0 <= j < i ==> es@[j].0.model() != k.model(),
        decreases es.len() - i,
    {
        if value_eq(&es[i].0, k) {
            proof {
                assert(forall|j: int| 0 <= j < i ==> model_entries(es@)[j].0 != k.model());
                lemma_first_key_index(model_entries(es@), k.model(), i as int);
            }
            return Some(i);
        }
        i += 1;
    }
    proof {
        assert(forall|j: int| 0 <= j < es@.len() ==> model_entries(es@)[j].0 != k.model());
    }
    None
}

/// Model of concatenated elements is the concatenation of the models.
pub proof fn lemma_model_elems_append(a: Seq<Value>, b: Seq<Value>)
    ensures
        model_elems(a + b) == model_elems(a) + model_elems(b),
{
    broadcast use group_value_model;

    assert(model_elems(a + b) =~= model_elems(a) + model_elems(b));
}

} // verus!
