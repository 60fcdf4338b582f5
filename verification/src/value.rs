use vstd::prelude::*;

verus! {

/// One key/value pair of an object value. Keys are unique within one object;
/// the order of entries is kept but carries no meaning.
#[derive(Debug)]
pub struct Entry {
    pub key: String,
    pub value: PortValue,
}

/// Result value from a port command: a closed sum of every shape a port can
/// return across the dispatch and boundary layers. The tree is owned — no
/// cycles are constructible.
#[derive(Debug)]
pub enum PortValue {
    Str(String),
    Int(i64),
    Bool(bool),
    List(Vec<PortValue>),
    Object(Vec<Entry>),
    Null,
}

/// The mathematical tree that a `PortValue` stands for. Contracts and the
/// wire-format specification speak of this type.
#[verifier::ext_equal]
pub enum ValueModel {
    Str(Seq<char>),
    Int(int),
    Bool(bool),
    List(Seq<ValueModel>),
    Object(Seq<(Seq<char>, ValueModel)>),
    Null,
}

/// The model of an executable value.
pub open spec fn model_of(v: PortValue) -> ValueModel
    decreases v,
{
    match v {
        PortValue::Str(s) => ValueModel::Str(s@),
        PortValue::Int(i) => ValueModel::Int(i as int),
        PortValue::Bool(b) => ValueModel::Bool(b),
        PortValue::List(items) => ValueModel::List(models_of(items@)),
        PortValue::Object(entries) => ValueModel::Object(entry_models_of(entries@)),
        PortValue::Null => ValueModel::Null,
    }
}

/// The models of a sequence of values, elementwise.
pub open spec fn models_of(s: Seq<PortValue>) -> Seq<ValueModel>
    decreases s,
{
    if s.len() == 0 {
        Seq::empty()
    } else {
        seq![model_of(s[0])] + models_of(s.drop_first())
    }
}

/// The models of a sequence of object entries, elementwise.
pub open spec fn entry_models_of(s: Seq<Entry>) -> Seq<(Seq<char>, ValueModel)>
    decreases s,
{
    if s.len() == 0 {
        Seq::empty()
    } else {
        seq![(s[0].key@, model_of(s[0].value))] + entry_models_of(s.drop_first())
    }
}

impl PortValue {
    /// The model of this value.
    pub open spec fn model(self) -> ValueModel {
        model_of(self)
    }
}

/// Pairwise-distinct object keys, at the model level.
pub open spec fn entry_keys_unique(es: Seq<(Seq<char>, ValueModel)>) -> bool {
    forall|i: int, j: int|
        0 <= i < j < es.len() ==> (#[trigger] es[i]).0 != (#[trigger] es[j]).0
}

/// A well-formed value tree: every integer fits a 64-bit signed machine
/// word, and the keys of every object are unique. Models taken from
/// well-formed executable values satisfy this; a tree with duplicate
/// keys is constructible but lies outside this invariant and would
/// encode ambiguously.
pub open spec fn model_wf(m: ValueModel) -> bool
    decreases m,
{
    match m {
        ValueModel::Str(_) => true,
        ValueModel::Int(i) => i64::MIN <= i <= i64::MAX,
        ValueModel::Bool(_) => true,
        ValueModel::List(s) => models_wf(s),
        ValueModel::Object(es) => entries_wf(es) && entry_keys_unique(es),
        ValueModel::Null => true,
    }
}

pub open spec fn models_wf(s: Seq<ValueModel>) -> bool
    decreases s,
{
    s.len() == 0 || (model_wf(s[0]) && models_wf(s.drop_first()))
}

pub open spec fn entries_wf(es: Seq<(Seq<char>, ValueModel)>) -> bool
    decreases es,
{
    es.len() == 0 || (model_wf(es[0].1) && entries_wf(es.drop_first()))
}

pub proof fn lemma_models_of_len(s: Seq<PortValue>)
    ensures
        models_of(s).len() == s.len(),
        forall|k: int| 0 <= k < s.len() ==> models_of(s)[k] == model_of(s[k]),
    decreases s,
{
    if s.len() > 0 {
        lemma_models_of_len(s.drop_first());
    }
}

pub proof fn lemma_entry_models_of_len(s: Seq<Entry>)
    ensures
        entry_models_of(s).len() == s.len(),
        forall|k: int| 0 <= k < s.len() ==> entry_models_of(s)[k] == (s[k].key@, model_of(
            s[k].value,
        )),
    decreases s,
{
    if s.len() > 0 {
        lemma_entry_models_of_len(s.drop_first());
    }
}

/// A well-formed executable value: the keys of every object in the
/// tree are pairwise distinct.
pub open spec fn value_wf(v: PortValue) -> bool
    decreases v,
{
    match v {
        PortValue::Str(_) => true,
        PortValue::Int(_) => true,
        PortValue::Bool(_) => true,
        PortValue::List(items) => values_wf(items@),
        PortValue::Object(entries) => object_keys_unique(entries@) && entry_values_wf(entries@),
        PortValue::Null => true,
    }
}

pub open spec fn values_wf(s: Seq<PortValue>) -> bool
    decreases s,
{
    s.len() == 0 || (value_wf(s[0]) && values_wf(s.drop_first()))
}

pub open spec fn entry_values_wf(s: Seq<Entry>) -> bool
    decreases s,
{
    s.len() == 0 || (value_wf(s[0].value) && entry_values_wf(s.drop_first()))
}

/// Pairwise-distinct object keys, at the value level.
pub open spec fn object_keys_unique(s: Seq<Entry>) -> bool {
    forall|i: int, j: int|
        0 <= i < j < s.len() ==> (#[trigger] s[i]).key@ != (#[trigger] s[j]).key@
}

/// The model of any well-formed executable value is well formed.
pub proof fn lemma_model_of_wf(v: PortValue)
    requires
        value_wf(v),
    ensures
        model_wf(model_of(v)),
    decreases v,
{
    match v {
        PortValue::List(items) => {
            lemma_models_of_wf(items@);
        },
        PortValue::Object(entries) => {
            lemma_entry_models_of_wf(entries@);
            lemma_entry_models_of_len(entries@);
            assert forall|i: int, j: int|
                0 <= i < j < entry_models_of(entries@).len() implies (#[trigger] entry_models_of(
                entries@,
            )[i]).0 != (#[trigger] entry_models_of(entries@)[j]).0 by {
                assert(entry_models_of(entries@)[i] == (entries@[i].key@, model_of(
                    entries@[i].value,
                )));
                assert(entry_models_of(entries@)[j] == (entries@[j].key@, model_of(
                    entries@[j].value,
                )));
                assert(entries@[i].key@ != entries@[j].key@);
            }
        },
        _ => {},
    }
}

pub proof fn lemma_models_of_wf(s: Seq<PortValue>)
    requires
        values_wf(s),
    ensures
        models_wf(models_of(s)),
    decreases s,
{
    if s.len() > 0 {
        lemma_model_of_wf(s[0]);
        lemma_models_of_wf(s.drop_first());
        assert(models_of(s).drop_first() =~= models_of(s.drop_first()));
    }
}

pub proof fn lemma_entry_models_of_wf(s: Seq<Entry>)
    requires
        entry_values_wf(s),
    ensures
        entries_wf(entry_models_of(s)),
    decreases s,
{
    if s.len() > 0 {
        lemma_model_of_wf(s[0].value);
        lemma_entry_models_of_wf(s.drop_first());
        assert(entry_models_of(s).drop_first() =~= entry_models_of(s.drop_first()));
    }
}

impl PortValue {
    /// A structural copy: a fresh tree with the same model.
    pub fn dup(&self) -> (r: PortValue)
        ensures
            r.model() == self.model(),
        decreases self,
    {
        broadcast use vstd::std_specs::vec::group_vec_axioms;

        match self {
            PortValue::Str(s) => PortValue::Str(s.clone()),
            PortValue::Int(i) => PortValue::Int(*i),
            PortValue::Bool(b) => PortValue::Bool(*b),
            PortValue::Null => PortValue::Null,
            PortValue::List(items) => {
                let n = items.len();
                let mut out: Vec<PortValue> = Vec::new();
                let mut j: usize = 0;
                while j < n
                    invariant
                        j <= n,
                        n == items@.len(),
                        *self == PortValue::List(*items),
                        out@.len() == j,
                        forall|k: int| 0 <= k < j ==> (#[trigger] out@[k]).model() == items@[
                            k].model(),
                    decreases n - j,
                {
                    proof {
                        assert(decreases_to!(*self => self->List_0));
                        assert(decreases_to!(*items => items@));
                        assert(decreases_to!(items@ => items@[j as int]));
                        assert(decreases_to!(*self => items@[j as int]));
                    }
                    out.push(items[j].dup());
                    j += 1;
                }
                proof {
                    lemma_models_of_len(out@);
                    lemma_models_of_len(items@);
                    assert(models_of(out@) =~= models_of(items@));
                }
                PortValue::List(out)
            },
            PortValue::Object(entries) => {
                let n = entries.len();
                let mut out: Vec<Entry> = Vec::new();
                let mut j: usize = 0;
                while j < n
                    invariant
                        j <= n,
                        n == entries@.len(),
                        *self == PortValue::Object(*entries),
                        out@.len() == j,
                        forall|k: int| 0 <= k < j ==> (#[trigger] out@[k]).key@ == entries@[k].key@
                            && out@[k].value.model() == entries@[k].value.model(),
                    decreases n - j,
                {
                    proof {
                        assert(decreases_to!(*self => self->Object_0));
                        assert(decreases_to!(*entries => entries@));
                        assert(decreases_to!(entries@ => entries@[j as int]));
                        assert(decreases_to!(entries@[j as int] => entries@[j as int].value));
                        assert(decreases_to!(*self => entries@[j as int].value));
                    }
                    let e = &entries[j];
                    out.push(Entry { key: e.key.clone(), value: e.value.dup() });
                    j += 1;
                }
                proof {
                    lemma_entry_models_of_len(out@);
                    lemma_entry_models_of_len(entries@);
                    assert(entry_models_of(out@) =~= entry_models_of(entries@));
                }
                PortValue::Object(out)
            },
        }
    }
}

} // verus!
