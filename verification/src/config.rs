//! Finalized configuration values: the immutable result of a successful
//! build, with no missing fields.

use vstd::prelude::*;
use crate::value::{Value, ValueModel, opt_value_model};

verus! {

/// The finalized value of one field.
#[derive(Debug, PartialEq)]
pub enum EntryValue {
    Scalar(Value),
    Optional(Option<Value>),
    Nested(Box<Config>),
    OptionalNested(Option<Box<Config>>),
}

/// A named finalized field.
#[derive(Debug, PartialEq)]
pub struct Entry {
    pub name: String,
    pub value: EntryValue,
}

/// A finalized configuration: a record of fields, or a tagged choice.
#[derive(Debug, PartialEq)]
pub enum Config {
    Record { entries: Vec<Entry> },
    Tagged { selector: String, value: Box<Config> },
}

#[verifier::ext_equal]
pub enum EntryValueModel {
    Scalar(ValueModel),
    Optional(Option<ValueModel>),
    Nested(Box<ConfigModel>),
    OptionalNested(Option<Box<ConfigModel>>),
}

#[verifier::ext_equal]
pub struct EntryModel {
    pub name: Seq<char>,
    pub value: EntryValueModel,
}

#[verifier::ext_equal]
pub enum ConfigModel {
    Record { entries: Seq<EntryModel> },
    Tagged { selector: Seq<char>, value: Box<ConfigModel> },
}

pub open spec fn entry_value_model(v: EntryValue) -> EntryValueModel
    decreases v,
{
    match v {
        EntryValue::Scalar(x) => EntryValueModel::Scalar(x@),
        EntryValue::Optional(o) => EntryValueModel::Optional(opt_value_model(o)),
        EntryValue::Nested(c) => EntryValueModel::Nested(Box::new(config_model(*c))),
        EntryValue::OptionalNested(o) => EntryValueModel::OptionalNested(
            match o {
                Option::Some(c) => Option::Some(Box::new(config_model(*c))),
                Option::None => Option::None,
            },
        ),
    }
}

pub open spec fn entry_model(e: Entry) -> EntryModel
    decreases e,
{
    EntryModel { name: e.name@, value: entry_value_model(e.value) }
}

pub open spec fn entries_model(es: Seq<Entry>) -> Seq<EntryModel>
    decreases es,
{
    if es.len() == 0 {
        Seq::empty()
    } else {
        seq![entry_model(es[0])] + entries_model(es.drop_first())
    }
}

pub open spec fn config_model(c: Config) -> ConfigModel
    decreases c,
{
    match c {
        Config::Record { entries } => ConfigModel::Record { entries: entries_model(entries@) },
        Config::Tagged { selector, value } => ConfigModel::Tagged {
            selector: selector@,
            value: Box::new(config_model(*value)),
        },
    }
}

impl View for EntryValue {
    type V = EntryValueModel;

    open spec fn view(&self) -> EntryValueModel {
        entry_value_model(*self)
    }
}

impl View for Entry {
    type V = EntryModel;

    open spec fn view(&self) -> EntryModel {
        entry_model(*self)
    }
}

impl View for Config {
    type V = ConfigModel;

    open spec fn view(&self) -> ConfigModel {
        config_model(*self)
    }
}

pub broadcast proof fn lemma_entries_model_len(es: Seq<Entry>)
    ensures
        (#[trigger] entries_model(es)).len() == es.len(),
    decreases es,
{
    if es.len() > 0 {
        lemma_entries_model_len(es.drop_first());
    }
}

pub broadcast proof fn lemma_entries_model_index(es: Seq<Entry>, i: int)
    requires
        0 <= i < es.len(),
    ensures
        #[trigger] entries_model(es)[i] == entry_model(es[i]),
    decreases es,
{
    lemma_entries_model_len(es);
    if i > 0 {
        lemma_entries_model_index(es.drop_first(), i - 1);
    }
}

pub proof fn lemma_entries_model_push(es: Seq<Entry>, e: Entry)
    ensures
        entries_model(es.push(e)) =~= entries_model(es).push(entry_model(e)),
    decreases es,
{
    assert(es.push(e).len() == es.len() + 1);
    assert(es.push(e)[0] == if es.len() == 0 { e } else { es[0] });
    if es.len() == 0 {
        assert(es.push(e).drop_first() =~= Seq::<Entry>::empty());
        assert(entries_model(es.push(e)) == seq![entry_model(e)] + entries_model(
            es.push(e).drop_first(),
        ));
        assert(entries_model(Seq::<Entry>::empty()) =~= Seq::<EntryModel>::empty());
    } else {
        assert(es.push(e).drop_first() =~= es.drop_first().push(e));
        lemma_entries_model_push(es.drop_first(), e);
        assert(entries_model(es.push(e)) == seq![entry_model(es[0])] + entries_model(
            es.drop_first().push(e),
        ));
    }
}

/// Index of the first entry with the given name, or -1.
pub open spec fn find_entry(es: Seq<EntryModel>, name: Seq<char>) -> int
    decreases es,
{
    if es.len() == 0 {
        -1
    } else if es[0].name == name {
        0
    } else {
        let r = find_entry(es.drop_first(), name);
        if r < 0 {
            -1
        } else {
            1 + r
        }
    }
}

pub broadcast proof fn lemma_find_entry(es: Seq<EntryModel>, name: Seq<char>)
    ensures
        #[trigger] find_entry(es, name) >= 0 ==> 0 <= find_entry(es, name) < es.len()
            && es[find_entry(es, name)].name == name,
        find_entry(es, name) < 0 ==> forall|j: int| 0 <= j < es.len() ==> es[j].name != name,
    decreases es,
{
    if es.len() > 0 {
        lemma_find_entry(es.drop_first(), name);
        if es[0].name != name && find_entry(es.drop_first(), name) < 0 {
            assert forall|j: int| 0 <= j < es.len() implies es[j].name != name by {
                if j > 0 {
                    assert(es[j] == es.drop_first()[j - 1]);
                }
            }
        }
    }
}

impl Config {
    /// Looks a field up by name in a record configuration.
    pub fn get(&self, name: &str) -> (r: Option<&EntryValue>)
        ensures
            match self@ {
                ConfigModel::Record { entries } => {
                    let k = find_entry(entries, name@);
                    if k >= 0 {
                        r matches Option::Some(v) && v@ == entries[k].value
                    } else {
                        r is None
                    }
                },
                ConfigModel::Tagged { .. } => r is None,
            },
    {
        match self {
            Config::Record { entries } => {
                let ghost es = entries_model(entries@);
                proof {
                    lemma_entries_model_len(entries@);
                }
                let mut i: usize = 0;
                while i < entries.len()
                    invariant
                        i <= es.len() == entries@.len(),
                        forall|j: int| 0 <= j < i ==> es[j].name != name@,
                        es == entries_model(entries@),
                        self@ == (ConfigModel::Record { entries: es }),
                    decreases entries@.len() - i,
                {
                    proof {
                        lemma_entries_model_len(entries@);
                        lemma_entries_model_index(entries@, i as int);
                    }
                    if crate::strings::str_eq(entries[i].name.as_str(), name) {
                        proof {
                            lemma_find_entry_at(es, name@, i as int);
                            assert(self@ == (ConfigModel::Record { entries: es }));
                            assert(es[i as int].value == entry_model(entries@[i as int]).value);
                            assert(entry_model(entries@[i as int]).value == entry_value_model(
                                entries@[i as int].value,
                            ));
                        }
                        return Option::Some(&entries[i].value);
                    }
                    i = i + 1;
                }
                proof {
                    lemma_find_entry(es, name@);
                }
                Option::None
            },
            Config::Tagged { .. } => Option::None,
        }
    }
}

/// If all names before `i` differ and `es[i]` matches, the first match is `i`.
pub proof fn lemma_find_entry_at(es: Seq<EntryModel>, name: Seq<char>, i: int)
    requires
        0 <= i < es.len(),
        es[i].name == name,
        forall|j: int| 0 <= j < i ==> es[j].name != name,
    ensures
        find_entry(es, name) == i,
    decreases es,
{
    if i > 0 {
        assert(forall|j: int| 0 <= j < i - 1 ==> es.drop_first()[j].name != name);
        lemma_find_entry_at(es.drop_first(), name, i - 1);
    }
}

} // verus!
