//! The configuration value tree and its mathematical model.

use vstd::prelude::*;

verus! {

/// The mathematical model of a configuration value: a tagged tree over
/// sequences and integers.  Tables keep their entries in insertion order;
/// a key may bind at most one value in a well-formed table, but the model
/// itself does not insist on it.
#[verifier::ext_equal]
pub enum ValueModel {
    Str(Seq<char>),
    Int(int),
    Float(Seq<char>),
    Bool(bool),
    DateTime(Seq<char>),
    Array(Seq<ValueModel>),
    Table(Seq<(Seq<char>, ValueModel)>),
}

/// A configuration value: one node of the tree a TOML document parses to.
///
/// Floats and datetimes are carried as their textual rendering: the library
/// only ever shows them, and holding the text keeps the tree free of
/// floating point.
#[derive(Debug, PartialEq, Eq)]
pub enum ConfigValue {
    Str(String),
    Int(i64),
    Float(String),
    Bool(bool),
    DateTime(String),
    Array(Vec<ConfigValue>),
    Table(Vec<(String, ConfigValue)>),
}

/// The model of one value.
pub open spec fn value_model(v: ConfigValue) -> ValueModel
    decreases v,
{
    match v {
        ConfigValue::Str(s) => ValueModel::Str(s@),
        ConfigValue::Int(i) => ValueModel::Int(i as int),
        ConfigValue::Float(s) => ValueModel::Float(s@),
        ConfigValue::Bool(b) => ValueModel::Bool(b),
        ConfigValue::DateTime(s) => ValueModel::DateTime(s@),
        ConfigValue::Array(vs) => ValueModel::Array(models_of(vs@)),
        ConfigValue::Table(es) => ValueModel::Table(entry_models_of(es@)),
    }
}

/// The models of the elements of an array, in order.
pub open spec fn models_of(vs: Seq<ConfigValue>) -> Seq<ValueModel>
    decreases vs,
{
    if vs.len() == 0 {
        Seq::empty()
    } else {
        seq![value_model(vs[0])] + models_of(vs.drop_first())
    }
}

/// The models of the entries of a table, in order.
pub open spec fn entry_models_of(es: Seq<(String, ConfigValue)>) -> Seq<(Seq<char>, ValueModel)>
    decreases es,
{
    if es.len() == 0 {
        Seq::empty()
    } else {
        seq![(es[0].0@, value_model(es[0].1))] + entry_models_of(es.drop_first())
    }
}

impl View for ConfigValue {
    type V = ValueModel;

    open spec fn view(&self) -> ValueModel {
        value_model(*self)
    }
}

pub proof fn lemma_models_of(vs: Seq<ConfigValue>)
    ensures
        models_of(vs).len() == vs.len(),
        forall|i: int| 0 <= i < vs.len() ==> #[trigger] models_of(vs)[i] == value_model(vs[i]),
    decreases vs.len(),
{
    if vs.len() > 0 {
        lemma_models_of(vs.drop_first());
    }
}

pub proof fn lemma_entry_models_of(es: Seq<(String, ConfigValue)>)
    ensures
        entry_models_of(es).len() == es.len(),
        forall|i: int| 0 <= i < es.len() ==> #[trigger] entry_models_of(es)[i] == (
        es[i].0@,
        value_model(es[i].1),
        ),
    decreases es.len(),
{
    if es.len() > 0 {
        lemma_entry_models_of(es.drop_first());
    }
}

/// The first binding of `key` among `entries`, if any.
pub open spec fn find_key(entries: Seq<(Seq<char>, ValueModel)>, key: Seq<char>) -> Option<
    ValueModel,
>
    decreases entries.len(),
{
    if entries.len() == 0 {
        None
    } else if entries[0].0 == key {
        Some(entries[0].1)
    } else {
        find_key(entries.drop_first(), key)
    }
}

/// What looking `key` up in a value yields: the first binding of `key` when
/// the value is a table that holds one, nothing otherwise.
pub open spec fn lookup(m: ValueModel, key: Seq<char>) -> Option<ValueModel> {
    match m {
        ValueModel::Table(es) => find_key(es, key),
        _ => None,
    }
}

proof fn lemma_find_key_step(entries: Seq<(Seq<char>, ValueModel)>, key: Seq<char>, i: int)
    requires
        0 <= i < entries.len(),
        forall|j: int| 0 <= j < i ==> #[trigger] entries[j].0 != key,
    ensures
        find_key(entries, key) == if entries[i].0 == key {
            Some(entries[i].1)
        } else {
            find_key(entries.subrange(i + 1, entries.len() as int), key)
        },
    decreases i,
{
    if i == 0 {
        assert(entries.drop_first() =~= entries.subrange(1, entries.len() as int));
    } else {
        lemma_find_key_step(entries.drop_first(), key, i - 1);
        assert(entries.drop_first()[i - 1] == entries[i]);
        assert(entries.drop_first().subrange(i, entries.len() - 1) =~= entries.subrange(
            i + 1,
            entries.len() as int,
        ));
    }
}

impl ConfigValue {
    /// Whether this value is a table.
    pub fn is_table(&self) -> (r: bool)
        ensures
            r == (self@ is Table),
    {
        match self {
            ConfigValue::Table(_) => true,
            _ => false,
        }
    }

    /// The value bound to `key` when this value is a table that binds it.
    pub fn get<'a>(&'a self, key: &str) -> (r: Option<&'a ConfigValue>)
        ensures
            match r {
                Some(v) => lookup(self@, key@) == Some(v@),
                None => lookup(self@, key@) is None,
            },
    {
        let owned: String = key.to_owned();
        match self {
            ConfigValue::Table(entries) => {
                proof {
                    lemma_entry_models_of(entries@);
                }
                let ghost ems = entry_models_of(entries@);
                let n = entries.len();
                let mut i: usize = 0;
                while i < n
                    invariant
                        n == entries.len(),
                        i <= n,
                        owned@ == key@,
                        ems == entry_models_of(entries@),
                        ems.len() == n,
                        forall|j: int| 0 <= j < n ==> #[trigger] ems[j] == (
                        entries@[j].0@,
                        value_model(entries@[j].1),
                        ),
                        self@ == ValueModel::Table(ems),
                        forall|j: int| 0 <= j < i ==> #[trigger] ems[j].0 != key@,
                    decreases n - i,
                {
                    if entries[i].0 == owned {
                        proof {
                            lemma_find_key_step(ems, key@, i as int);
                        }
                        return Some(&entries[i].1);
                    }
                    i += 1;
                }
                proof {
                    if n > 0 {
                        lemma_find_key_step(ems, key@, n - 1);
                        assert(ems.subrange(n as int, n as int) =~= Seq::empty());
                    }
                }
                None
            },
            _ => None,
        }
    }
}

} // verus!
