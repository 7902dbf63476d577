//! YAML documents as values of the library, and their text form.
//!
//! Reading and printing YAML text is the work of `serde_yaml`; what the
//! resolver reads in a document stands here as a `YamlValue`.

use crate::text::opt_text;
use crate::value::{NumericView, TorbFloat, TorbNumeric};
use serde_yaml::Value;
use vstd::prelude::*;

verus! {

/// A YAML value. A mapping holds its entries in document order.
#[derive(Debug, PartialEq)]
pub enum YamlValue {
    Null,
    Bool(bool),
    Number(TorbNumeric),
    String(String),
    Sequence(Vec<YamlValue>),
    Mapping(Vec<(YamlValue, YamlValue)>),
}

/// What a `YamlValue` holds.
pub enum YamlView {
    Null,
    Bool(bool),
    Number(NumericView),
    String(Seq<char>),
    Sequence(Seq<YamlView>),
    Mapping(Seq<(YamlView, YamlView)>),
}

/// The view of a YAML value, through all its levels.
pub open spec fn yaml_view(value: YamlValue) -> YamlView
    decreases value,
{
    match value {
        YamlValue::Null => YamlView::Null,
        YamlValue::Bool(b) => YamlView::Bool(b),
        YamlValue::Number(n) => YamlView::Number(n@),
        YamlValue::String(s) => YamlView::String(s@),
        YamlValue::Sequence(items) => YamlView::Sequence(
            Seq::new(
                items@.len(),
                |i: int|
                    if 0 <= i < items@.len() {
                        yaml_view(items@[i])
                    } else {
                        YamlView::Null
                    },
            ),
        ),
        YamlValue::Mapping(entries) => YamlView::Mapping(
            Seq::new(
                entries@.len(),
                |i: int|
                    if 0 <= i < entries@.len() {
                        (yaml_view(entries@[i].0), yaml_view(entries@[i].1))
                    } else {
                        (YamlView::Null, YamlView::Null)
                    },
            ),
        ),
    }
}

impl View for YamlValue {
    type V = YamlView;

    open spec fn view(&self) -> YamlView {
        yaml_view(*self)
    }
}

/// The views of a list of YAML values.
pub open spec fn yaml_views(items: Seq<YamlValue>) -> Seq<YamlView> {
    Seq::new(items.len(), |i: int| items[i]@)
}

/// The views of a list of mapping entries.
pub open spec fn entry_views(entries: Seq<(YamlValue, YamlValue)>) -> Seq<(YamlView, YamlView)> {
    Seq::new(entries.len(), |i: int| (entries[i].0@, entries[i].1@))
}

/// The view of a sequence is the list of its items' views.
pub proof fn lemma_sequence_view(items: Vec<YamlValue>)
    ensures
        YamlValue::Sequence(items)@ == YamlView::Sequence(yaml_views(items@)),
{
    assert(YamlValue::Sequence(items)@->Sequence_0 =~= yaml_views(items@));
}

/// The view of a mapping is the list of its entries' views.
pub proof fn lemma_mapping_view(entries: Vec<(YamlValue, YamlValue)>)
    ensures
        YamlValue::Mapping(entries)@ == YamlView::Mapping(entry_views(entries@)),
{
    assert(YamlValue::Mapping(entries)@->Mapping_0 =~= entry_views(entries@));
}

/// The value of the first entry, from position `from` on, whose key is the
/// string `key`.
pub open spec fn lookup_from(entries: Seq<(YamlView, YamlView)>, key: Seq<char>, from: int) -> Option<
    YamlView,
>
    decreases entries.len() - from,
{
    if from < 0 || from >= entries.len() {
        None
    } else if entries[from].0 == YamlView::String(key) {
        Some(entries[from].1)
    } else {
        lookup_from(entries, key, from + 1)
    }
}

impl YamlView {
    /// The value under the string key `key`, where this is a mapping that
    /// has such a key.
    pub open spec fn lookup(self, key: Seq<char>) -> Option<YamlView> {
        match self {
            YamlView::Mapping(entries) => lookup_from(entries, key, 0),
            _ => None,
        }
    }

    /// The text, where this is a string.
    pub open spec fn text(self) -> Option<Seq<char>> {
        match self {
            YamlView::String(s) => Some(s),
            _ => None,
        }
    }
}

/// `serde_yaml::Value`, taken as it is.
#[verifier::external_type_specification]
#[verifier::external_body]
pub struct ExYamlValue(Value);

/// What a value of `serde_yaml` holds.
pub uninterp spec fn yaml_content(value: Value) -> YamlView;

/// The document that a YAML text spells, if it spells one.
pub uninterp spec fn yaml_parsed(text: Seq<char>) -> Option<YamlView>;

/// A document as `serde_yaml` holds it: a key that a mapping repeats is
/// held once.
pub uninterp spec fn yaml_settled(content: YamlView) -> YamlView;

/// The YAML text of a document that `serde_yaml` holds, if it has one.
pub uninterp spec fn yaml_printed(content: YamlView) -> Option<Seq<char>>;

/// `serde_yaml::from_str`, read as a `serde_yaml::Value`.
#[verifier::external_body]
fn yaml_from_str(text: &str) -> (parsed: Option<Value>)
    ensures
        parsed is Some == yaml_parsed(text@) is Some,
        parsed is Some ==> yaml_parsed(text@) == Some(yaml_content(parsed->0)),
{
    serde_yaml::from_str::<Value>(text).ok()
}

/// `serde_yaml::to_string` on a `serde_yaml::Value`.
#[verifier::external_body]
fn yaml_to_string(value: &Value) -> (printed: Option<String>)
    ensures
        opt_text(printed) == yaml_printed(yaml_content(*value)),
{
    serde_yaml::to_string(value).ok()
}

/// Copies a `serde_yaml::Value` into a `YamlValue`, variant by variant. A
/// number is what `as_u64` gives where it gives something, else what
/// `as_i64` gives, else the number itself as a floating-point number.
#[verifier::external_body]
fn yaml_value_of(value: &Value) -> (out: YamlValue)
    ensures
        out@ == yaml_content(*value),
{
    match value {
        Value::Null => YamlValue::Null,
        Value::Bool(b) => YamlValue::Bool(*b),
        Value::String(s) => YamlValue::String(s.clone()),
        Value::Sequence(s) => YamlValue::Sequence(s.iter().map(yaml_value_of).collect()),
        Value::Mapping(m) => YamlValue::Mapping(
            m.iter().map(|(k, v)| (yaml_value_of(k), yaml_value_of(v))).collect(),
        ),
        Value::Number(n) => YamlValue::Number(match (n.as_u64(), n.as_i64()) {
            (Some(u), _) => TorbNumeric::Int(u),
            (_, Some(i)) => TorbNumeric::NegInt(i),
            _ => TorbNumeric::Float(TorbFloat { number: n.clone() }),
        }),
    }
}

/// Copies a `YamlValue` into a `serde_yaml::Value`, variant by variant; the
/// entries of a mapping are collected into a `serde_yaml::Mapping`.
#[verifier::external_body]
fn yaml_to_outside(value: &YamlValue) -> (out: Value)
    ensures
        yaml_content(out) == yaml_settled(value@),
{
    match value {
        YamlValue::Null => Value::Null,
        YamlValue::Bool(b) => Value::Bool(*b),
        YamlValue::String(s) => Value::String(s.clone()),
        YamlValue::Number(TorbNumeric::Int(u)) => Value::Number((*u).into()),
        YamlValue::Number(TorbNumeric::NegInt(i)) => Value::Number((*i).into()),
        YamlValue::Number(TorbNumeric::Float(f)) => Value::Number(f.number.clone()),
        YamlValue::Sequence(s) => Value::Sequence(s.iter().map(yaml_to_outside).collect()),
        YamlValue::Mapping(m) => Value::Mapping(
            m.iter().map(|(k, v)| (yaml_to_outside(k), yaml_to_outside(v))).collect(),
        ),
    }
}

impl YamlValue {
    /// Reads a YAML text.
    pub fn parse(text: &str) -> (parsed: Option<YamlValue>)
        ensures
            parsed is Some == yaml_parsed(text@) is Some,
            parsed is Some ==> yaml_parsed(text@) == Some(parsed->0@),
    {
        match yaml_from_str(text) {
            Some(value) => Some(yaml_value_of(&value)),
            None => None,
        }
    }

    /// Prints the value as YAML text.
    pub fn to_text(&self) -> (printed: Option<String>)
        ensures
            opt_text(printed) == yaml_printed(yaml_settled(self@)),
    {
        let value = yaml_to_outside(self);
        yaml_to_string(&value)
    }

    /// The text, where this is a string.
    pub fn as_str(&self) -> (text: Option<&String>)
        ensures
            text is Some == self@.text() is Some,
            text is Some ==> text->0@ == self@.text()->0,
    {
        match self {
            YamlValue::String(s) => Some(s),
            _ => None,
        }
    }

    /// The value under the string key `key`, where this is a mapping that
    /// has such a key.
    pub fn get(&self, key: &str) -> (found: Option<&YamlValue>)
        ensures
            found is Some == self@.lookup(key@) is Some,
            found is Some ==> found->0@ == self@.lookup(key@)->0,
    {
        match self {
            YamlValue::Mapping(entries) => {
                proof {
                    lemma_mapping_view(*entries);
                }
                let mut i: usize = 0;
                while i < entries.len()
                    invariant
                        i <= entries@.len(),
                        self@ == YamlView::Mapping(entry_views(entries@)),
                        self@.lookup(key@) == lookup_from(entry_views(entries@), key@, i as int),
                    decreases entries@.len() - i,
                {
                    let entry = &entries[i];
                    if let YamlValue::String(s) = &entry.0 {
                        if crate::value::str_eq(s.as_str(), key) {
                            return Some(&entry.1);
                        }
                    }
                    i += 1;
                }
                None
            },
            _ => None,
        }
    }

    /// A copy that holds the same value.
    pub fn duplicate(&self) -> (copy: Self)
        ensures
            copy@ == self@,
        decreases self,
    {
        match self {
            YamlValue::Null => YamlValue::Null,
            YamlValue::Bool(b) => YamlValue::Bool(*b),
            YamlValue::Number(n) => YamlValue::Number(n.duplicate()),
            YamlValue::String(s) => YamlValue::String(s.clone()),
            YamlValue::Sequence(items) => {
                let mut out: Vec<YamlValue> = Vec::new();
                let mut i: usize = 0;
                while i < items.len()
                    invariant
                        *self == YamlValue::Sequence(*items),
                        i <= items@.len(),
                        out@.len() == i,
                        forall|j: int| 0 <= j < i ==> out@[j]@ == items@[j]@,
                    decreases items@.len() - i,
                {
                    assert(decreases_to!(self => self->Sequence_0));
                    assert(decreases_to!(self->Sequence_0 => self->Sequence_0[i as int]));
                    out.push(items[i].duplicate());
                    i += 1;
                }
                proof {
                    lemma_sequence_view(out);
                    lemma_sequence_view(*items);
                    assert(yaml_views(out@) =~= yaml_views(items@));
                }
                YamlValue::Sequence(out)
            },
            YamlValue::Mapping(entries) => {
                let mut out: Vec<(YamlValue, YamlValue)> = Vec::new();
                let mut i: usize = 0;
                while i < entries.len()
                    invariant
                        *self == YamlValue::Mapping(*entries),
                        i <= entries@.len(),
                        out@.len() == i,
                        forall|j: int|
                            0 <= j < i ==> out@[j].0@ == entries@[j].0@ && out@[j].1@
                                == entries@[j].1@,
                    decreases entries@.len() - i,
                {
                    assert(decreases_to!(self => self->Mapping_0));
                    assert(decreases_to!(self->Mapping_0 => self->Mapping_0[i as int]));
                    assert(decreases_to!(self->Mapping_0[i as int] => self->Mapping_0[i as int].0));
                    assert(decreases_to!(self->Mapping_0[i as int] => self->Mapping_0[i as int].1));
                    let key = entries[i].0.duplicate();
                    let value = entries[i].1.duplicate();
                    out.push((key, value));
                    i += 1;
                }
                proof {
                    lemma_mapping_view(out);
                    lemma_mapping_view(*entries);
                    assert(entry_views(out@) =~= entry_views(entries@));
                }
                YamlValue::Mapping(out)
            },
        }
    }
}

} // verus!
