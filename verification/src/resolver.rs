//! The component loader and the stack graph resolver: from a stack
//! document and the definitions of its components to the stack graph.

use crate::collections::{entry_keys, stored, OrderedMap};
use crate::discovery::implicit_targets;
use crate::graph::{edges_view, with_dependencies, StackGraph};
use crate::inputs::values_document;
use crate::node::{
    first_problem, fqn_for, fqn_text, inputs_view, mapped_from, nodes_view, validation_message,
    ArtifactNodeRepr, BuildStep, BuildStepView, DependenciesView, NodeDependencies, NodeView,
};
use crate::text::{opt_text, opt_texts, texts};
use crate::utils::{normalize_name, normalized};
use crate::value::{
    input_views, is_kind_name, known_kind_name, lemma_array_view, str_eq, InputSpecView, InputView,
    TorbInput, TorbInputSpec,
};
use crate::watcher::{WatcherConfig, WatcherView};
use crate::yaml::{
    entry_views, lemma_mapping_view, lemma_sequence_view, yaml_parsed, yaml_printed, yaml_settled,
    yaml_views, YamlValue, YamlView,
};
use vstd::prelude::*;

verus! {

/// The input value that a YAML scalar is: a boolean, a string or a number.
pub open spec fn scalar_of_yaml(value: YamlView) -> Option<InputView> {
    match value {
        YamlView::Bool(b) => Some(InputView::Bool(b)),
        YamlView::String(s) => Some(InputView::String(s)),
        YamlView::Number(n) => Some(InputView::Numeric(n)),
        _ => None,
    }
}

/// The input values that the first `n` items of a YAML sequence are, where
/// they all are scalars.
pub open spec fn scalars_of_yaml(items: Seq<YamlView>, n: int) -> Option<Seq<InputView>>
    decreases n,
{
    if n <= 0 {
        Some(Seq::empty())
    } else {
        match (scalars_of_yaml(items, n - 1), scalar_of_yaml(items[n - 1])) {
            (Some(before), Some(item)) => Some(before.push(item)),
            _ => None,
        }
    }
}

/// The input value that a YAML value is: a scalar as itself, a sequence of
/// scalars as an array. Null, mappings and sequences that hold anything
/// but scalars are no input values.
pub open spec fn input_of_yaml(value: YamlView) -> Option<InputView> {
    match value {
        YamlView::Sequence(items) => match scalars_of_yaml(items, items.len() as int) {
            Some(items) => Some(InputView::Array(items)),
            None => None,
        },
        _ => scalar_of_yaml(value),
    }
}

/// The YAML value that an input value is written as; null for an array,
/// which is written through `yaml_of_input`.
pub open spec fn yaml_of_scalar(input: InputView) -> YamlView {
    match input {
        InputView::Bool(b) => YamlView::Bool(b),
        InputView::String(s) => YamlView::String(s),
        InputView::Numeric(n) => YamlView::Number(n),
        InputView::Array(_) => YamlView::Null,
    }
}

/// The YAML value that an input value is written as: a scalar as itself,
/// an array as the sequence of its elements.
pub open spec fn yaml_of_input(input: InputView) -> YamlView {
    match input {
        InputView::Array(items) => YamlView::Sequence(
            Seq::new(items.len(), |i: int| yaml_of_scalar(items[i])),
        ),
        _ => yaml_of_scalar(input),
    }
}

/// The first `n` elements of an array of scalars, written and read back,
/// are the elements.
pub proof fn lemma_scalars_round_trip(items: Seq<InputView>, n: int)
    requires
        0 <= n <= items.len(),
        forall|i: int| 0 <= i < items.len() ==> !(#[trigger] items[i] is Array),
    ensures
        scalars_of_yaml(Seq::new(items.len(), |i: int| yaml_of_scalar(items[i])), n) == Some(
            items.take(n),
        ),
    decreases n,
{
    if n > 0 {
        lemma_scalars_round_trip(items, n - 1);
        assert(!(items[n - 1] is Array));
        assert(items.take(n - 1).push(items[n - 1]) =~= items.take(n));
    } else {
        assert(items.take(0) =~= Seq::<InputView>::empty());
    }
}

/// An input value that holds no array inside an array is read back from
/// what it is written as.
pub proof fn lemma_input_round_trip(input: InputView)
    requires
        input.is_flat(),
    ensures
        input_of_yaml(yaml_of_input(input)) == Some(input),
{
    match input {
        InputView::Array(items) => {
            lemma_scalars_round_trip(items, items.len() as int);
            assert(items.take(items.len() as int) =~= items);
        },
        _ => {},
    }
}

/// The YAML value that a declaration is written as: the sequence of its
/// type, its default and its mapping.
pub open spec fn yaml_of_spec(spec: InputSpecView) -> YamlView {
    YamlView::Sequence(
        seq![
            YamlView::String(spec.typing),
            yaml_of_input(spec.default),
            YamlView::String(spec.mapping),
        ],
    )
}

/// What is wrong with the declaration of an input.
#[derive(Debug, PartialEq, Eq)]
pub enum TorbInputSpecErrors {
    /// The declaration is neither a string nor a sequence of a type, a
    /// default and a mapping.
    WrongShape,
    /// The type is none of `bool`, `array`, `string` and `numeric`.
    UnknownType,
    /// The default is no value of the declared type.
    WrongDefault,
}

/// The default that a YAML value is for an input of type `typing`.
pub open spec fn default_of_yaml(typing: Seq<char>, value: YamlView) -> Option<InputView> {
    if typing == "bool"@ {
        match value {
            YamlView::Bool(b) => Some(InputView::Bool(b)),
            _ => None,
        }
    } else if typing == "string"@ {
        match value {
            YamlView::String(s) => Some(InputView::String(s)),
            _ => None,
        }
    } else if typing == "array"@ {
        match value {
            YamlView::Sequence(_) => input_of_yaml(value),
            _ => None,
        }
    } else if typing == "numeric"@ {
        match value {
            YamlView::Number(n) => Some(InputView::Numeric(n)),
            _ => None,
        }
    } else {
        None
    }
}

/// The declaration that a YAML value spells: a bare string is the mapping
/// of a string input with an empty default; a sequence gives the type, the
/// default and the mapping.
pub open spec fn spec_of_yaml(value: YamlView) -> Result<InputSpecView, TorbInputSpecErrors> {
    match value {
        YamlView::String(mapping) => Ok(
            InputSpecView {
                typing: "string"@,
                default: InputView::String(Seq::empty()),
                mapping,
            },
        ),
        YamlView::Sequence(items) => {
            if items.len() != 3 || !(items[0] is String) {
                Err(TorbInputSpecErrors::WrongShape)
            } else if !is_kind_name(items[0]->String_0) {
                Err(TorbInputSpecErrors::UnknownType)
            } else if default_of_yaml(items[0]->String_0, items[1]) is None {
                Err(TorbInputSpecErrors::WrongDefault)
            } else if !(items[2] is String) {
                Err(TorbInputSpecErrors::WrongShape)
            } else {
                Ok(
                    InputSpecView {
                        typing: items[0]->String_0,
                        default: default_of_yaml(items[0]->String_0, items[1])->0,
                        mapping: items[2]->String_0,
                    },
                )
            }
        },
        _ => Err(TorbInputSpecErrors::WrongShape),
    }
}

/// A declaration whose default is a value of its declared type is read back
/// from what it is written as.
pub proof fn lemma_spec_round_trip(spec: InputSpecView)
    requires
        is_kind_name(spec.typing),
        spec.typing == spec.default.kind_name(),
        spec.default.is_flat(),
    ensures
        spec_of_yaml(yaml_of_spec(spec)) == Ok::<InputSpecView, TorbInputSpecErrors>(spec),
{
    reveal_strlit("bool");
    reveal_strlit("string");
    reveal_strlit("array");
    reveal_strlit("numeric");
    assert("bool"@ != "string"@ && "bool"@ != "array"@ && "bool"@ != "numeric"@) by {
        assert("bool"@[0] != "string"@[0]);
        assert("bool"@[0] != "array"@[0]);
        assert("bool"@[0] != "numeric"@[0]);
    }
    assert("string"@ != "array"@ && "string"@ != "numeric"@ && "array"@ != "numeric"@) by {
        assert("string"@[0] != "array"@[0]);
        assert("string"@[0] != "numeric"@[0]);
        assert("array"@[0] != "numeric"@[0]);
    }
    lemma_input_round_trip(spec.default);
    let items = yaml_of_spec(spec)->Sequence_0;
    assert(items.len() == 3);
    assert(items[0] == YamlView::String(spec.typing));
    assert(items[1] == yaml_of_input(spec.default));
    assert(items[2] == YamlView::String(spec.mapping));
}

/// The strings that the first `n` items of a YAML sequence are, where they
/// all are strings.
pub open spec fn strings_upto(items: Seq<YamlView>, n: int) -> Option<Seq<Seq<char>>>
    decreases n,
{
    if n <= 0 {
        Some(Seq::empty())
    } else {
        match (strings_upto(items, n - 1), items[n - 1]) {
            (Some(before), YamlView::String(s)) => Some(before.push(s)),
            _ => None,
        }
    }
}

/// The list of strings that a YAML value is.
pub open spec fn strings_of_yaml(value: YamlView) -> Option<Seq<Seq<char>>> {
    match value {
        YamlView::Sequence(items) => strings_upto(items, items.len() as int),
        _ => None,
    }
}

/// The optional list of strings under `key`: none where the key is absent
/// or null; `Err` where something else than a list of strings stands
/// there.
pub open spec fn optional_strings(value: YamlView, key: Seq<char>) -> Result<
    Option<Seq<Seq<char>>>,
    (),
> {
    match value.lookup(key) {
        None => Ok(None),
        Some(YamlView::Null) => Ok(None),
        Some(list) => match strings_of_yaml(list) {
            Some(strings) => Ok(Some(strings)),
            None => Err(()),
        },
    }
}

/// The optional string under `key`: none where the key is absent or null,
/// `Err` where something else than a string stands there.
pub open spec fn optional_text(value: YamlView, key: Seq<char>) -> Result<Option<Seq<char>>, ()> {
    match value.lookup(key) {
        None => Ok(None),
        Some(YamlView::Null) => Ok(None),
        Some(YamlView::String(s)) => Ok(Some(s)),
        Some(_) => Err(()),
    }
}

/// The string under `key`, or the empty string where the key is absent or
/// null.
pub open spec fn text_or_empty(value: YamlView, key: Seq<char>) -> Result<Seq<char>, ()> {
    match optional_text(value, key) {
        Ok(Some(s)) => Ok(s),
        Ok(None) => Ok(Seq::empty()),
        Err(_) => Err(()),
    }
}

/// The dependencies that a stack entry declares under `deps`.
pub open spec fn deps_of_yaml(deps: Option<YamlView>) -> Result<DependenciesView, ()> {
    match deps {
        None => Ok(DependenciesView { services: None, projects: None, stacks: None }),
        Some(value) => match (
            value,
            optional_strings(value, "services"@),
            optional_strings(value, "projects"@),
            optional_strings(value, "stacks"@),
        ) {
            (YamlView::Mapping(_), Ok(services), Ok(projects), Ok(stacks)) => Ok(
                DependenciesView { services, projects, stacks },
            ),
            _ => Err(()),
        },
    }
}

/// The build step that a stack entry gives under `build`, every field that
/// is not given being empty.
pub open spec fn build_of_yaml(value: YamlView) -> Result<BuildStepView, ()> {
    match (
        value,
        text_or_empty(value, "script_path"@),
        text_or_empty(value, "dockerfile"@),
        text_or_empty(value, "tag"@),
        text_or_empty(value, "registry"@),
    ) {
        (YamlView::Mapping(_), Ok(script_path), Ok(dockerfile), Ok(tag), Ok(registry)) => Ok(
            BuildStepView { script_path, dockerfile, tag, registry },
        ),
        _ => Err(()),
    }
}

/// Field by field, what the stack gives where it gives something, else
/// what the component has.
pub open spec fn reconciled(own: BuildStepView, given: BuildStepView) -> BuildStepView {
    BuildStepView {
        registry: if given.registry.len() != 0 {
            given.registry
        } else {
            own.registry
        },
        dockerfile: if given.dockerfile.len() != 0 {
            given.dockerfile
        } else {
            own.dockerfile
        },
        script_path: if given.script_path.len() != 0 {
            given.script_path
        } else {
            own.script_path
        },
        tag: if given.tag.len() != 0 {
            given.tag
        } else {
            own.tag
        },
    }
}

/// The provided inputs that the first `n` entries of a mapping spell: every
/// key a string, every value an input value.
pub open spec fn inputs_upto(entries: Seq<(YamlView, YamlView)>, n: int) -> Option<
    Seq<(Seq<char>, InputView)>,
>
    decreases n,
{
    if n <= 0 {
        Some(Seq::empty())
    } else {
        match (inputs_upto(entries, n - 1), entries[n - 1].0, input_of_yaml(entries[n - 1].1)) {
            (Some(before), YamlView::String(key), Some(value)) => Some(stored(before, key, value)),
            _ => None,
        }
    }
}

/// The provided inputs of a stack entry: none where it has no `inputs`.
pub open spec fn inputs_of_yaml(params: Option<YamlView>) -> Option<Seq<(Seq<char>, InputView)>> {
    match params {
        None => Some(Seq::empty()),
        Some(YamlView::Mapping(entries)) => inputs_upto(entries, entries.len() as int),
        Some(_) => None,
    }
}

/// The watcher's settings that a stack gives: the defaults where it gives
/// none, else paths, interval and patch mode, all three.
pub open spec fn watcher_of_yaml(value: Option<YamlView>) -> Result<WatcherView, ()> {
    match value {
        None => Ok(WatcherView { paths: seq!["./"@], interval: 3000, patch: true }),
        Some(YamlView::Null) => Ok(WatcherView { paths: seq!["./"@], interval: 3000, patch: true }),
        Some(settings) => match (
            settings.lookup("paths"@),
            settings.lookup("interval"@),
            settings.lookup("patch"@),
        ) {
            (
                Some(paths),
                Some(YamlView::Number(crate::value::NumericView::Int(interval))),
                Some(YamlView::Bool(patch)),
            ) => match strings_of_yaml(paths) {
                Some(paths) => Ok(WatcherView { paths, interval, patch }),
                None => Err(()),
            },
            _ => Err(()),
        },
    }
}

/// The input value that a YAML scalar is.
fn scalar_from_yaml(value: &YamlValue) -> (input: Option<TorbInput>)
    ensures
        input is Some == scalar_of_yaml(value@) is Some,
        input is Some ==> input->0@ == scalar_of_yaml(value@)->0,
{
    match value {
        YamlValue::Bool(b) => Some(TorbInput::Bool(*b)),
        YamlValue::String(s) => Some(TorbInput::String(s.clone())),
        YamlValue::Number(n) => Some(TorbInput::Numeric(n.duplicate())),
        _ => None,
    }
}

impl TorbInput {
    /// Reads an input value from a YAML value.
    pub fn from_yaml(value: &YamlValue) -> (input: Option<TorbInput>)
        ensures
            input is Some == input_of_yaml(value@) is Some,
            input is Some ==> input->0@ == input_of_yaml(value@)->0,
    {
        match value {
            YamlValue::Sequence(items) => {
                proof {
                    lemma_sequence_view(*items);
                }
                let mut out: Vec<TorbInput> = Vec::new();
                let mut i: usize = 0;
                assert(input_views(out@) =~= Seq::<InputView>::empty());
                while i < items.len()
                    invariant
                        i <= items@.len(),
                        value@ == YamlView::Sequence(yaml_views(items@)),
                        scalars_of_yaml(yaml_views(items@), i as int) == Some(input_views(out@)),
                    decreases items@.len() - i,
                {
                    match scalar_from_yaml(&items[i]) {
                        Some(item) => {
                            let ghost before = input_views(out@);
                            out.push(item);
                            assert(input_views(out@) =~= before.push(item@));
                        },
                        None => {
                            proof {
                                lemma_scalars_stay_none(
                                    yaml_views(items@),
                                    i + 1,
                                    items@.len() as int,
                                );
                            }
                            return None;
                        },
                    }
                    i += 1;
                }
                proof {
                    lemma_array_view(out);
                }
                Some(TorbInput::Array(out))
            },
            _ => scalar_from_yaml(value),
        }
    }
}

impl TorbInput {
    /// The YAML value that the input value is written as.
    pub fn to_yaml(&self) -> (value: YamlValue)
        requires
            self@.is_flat(),
        ensures
            value@ == yaml_of_input(self@),
    {
        match self {
            TorbInput::Bool(b) => YamlValue::Bool(*b),
            TorbInput::String(s) => YamlValue::String(s.clone()),
            TorbInput::Numeric(n) => YamlValue::Number(n.duplicate()),
            TorbInput::Array(items) => {
                proof {
                    lemma_array_view(*items);
                }
                let mut out: Vec<YamlValue> = Vec::new();
                let mut i: usize = 0;
                while i < items.len()
                    invariant
                        i <= items@.len(),
                        self@ == InputView::Array(input_views(items@)),
                        self@.is_flat(),
                        out@.len() == i,
                        forall|j: int|
                            0 <= j < i ==> out@[j]@ == yaml_of_scalar(input_views(items@)[j]),
                    decreases items@.len() - i,
                {
                    assert(!(input_views(items@)[i as int] is Array));
                    let item = match &items[i] {
                        TorbInput::Bool(b) => YamlValue::Bool(*b),
                        TorbInput::String(s) => YamlValue::String(s.clone()),
                        TorbInput::Numeric(n) => YamlValue::Number(n.duplicate()),
                        TorbInput::Array(_) => YamlValue::Null,
                    };
                    out.push(item);
                    i += 1;
                }
                proof {
                    lemma_sequence_view(out);
                    assert(yaml_views(out@) =~= Seq::new(
                        input_views(items@).len(),
                        |i: int| yaml_of_scalar(input_views(items@)[i]),
                    ));
                }
                YamlValue::Sequence(out)
            },
        }
    }
}

/// Once an item is no scalar, the sequence is no list of scalars.
pub proof fn lemma_scalars_stay_none(items: Seq<YamlView>, n: int, m: int)
    requires
        0 <= n <= m,
        scalars_of_yaml(items, n) is None,
    ensures
        scalars_of_yaml(items, m) is None,
    decreases m,
{
    if n < m {
        lemma_scalars_stay_none(items, n, m - 1);
    }
}

/// Once an item is no string, the sequence is no list of strings.
pub proof fn lemma_strings_stay_none(items: Seq<YamlView>, n: int, m: int)
    requires
        0 <= n <= m,
        strings_upto(items, n) is None,
    ensures
        strings_upto(items, m) is None,
    decreases m,
{
    if n < m {
        lemma_strings_stay_none(items, n, m - 1);
    }
}

/// Once an entry is no input, the mapping gives no inputs.
pub proof fn lemma_inputs_stay_none(entries: Seq<(YamlView, YamlView)>, n: int, m: int)
    requires
        0 <= n <= m,
        inputs_upto(entries, n) is None,
    ensures
        inputs_upto(entries, m) is None,
    decreases m,
{
    if n < m {
        lemma_inputs_stay_none(entries, n, m - 1);
    }
}

/// Reads a list of strings from a YAML value.
pub fn strings_from_yaml(value: &YamlValue) -> (list: Option<Vec<String>>)
    ensures
        opt_texts(list) == strings_of_yaml(value@),
{
    match value {
        YamlValue::Sequence(items) => {
            proof {
                lemma_sequence_view(*items);
            }
            let mut out: Vec<String> = Vec::new();
            let mut i: usize = 0;
            assert(texts(out@) =~= Seq::<Seq<char>>::empty());
            while i < items.len()
                invariant
                    i <= items@.len(),
                    value@ == YamlView::Sequence(yaml_views(items@)),
                    strings_upto(yaml_views(items@), i as int) == Some(texts(out@)),
                decreases items@.len() - i,
            {
                match &items[i] {
                    YamlValue::String(s) => {
                        let ghost before = texts(out@);
                        out.push(s.clone());
                        assert(texts(out@) =~= before.push(s@));
                    },
                    _ => {
                        proof {
                            lemma_strings_stay_none(yaml_views(items@), i + 1, items@.len() as int);
                        }
                        return None;
                    },
                }
                i += 1;
            }
            Some(out)
        },
        _ => None,
    }
}

/// Reads the optional list of strings under `key`.
pub fn optional_strings_from(value: &YamlValue, key: &str) -> (list: Result<Option<Vec<String>>, ()>)
    ensures
        list is Ok == optional_strings(value@, key@) is Ok,
        list is Ok ==> opt_texts(list->Ok_0) == optional_strings(value@, key@)->Ok_0,
{
    match value.get(key) {
        None => Ok(None),
        Some(YamlValue::Null) => Ok(None),
        Some(list) => match strings_from_yaml(list) {
            Some(strings) => Ok(Some(strings)),
            None => Err(()),
        },
    }
}

/// Reads the optional string under `key`.
pub fn optional_text_from(value: &YamlValue, key: &str) -> (text: Result<Option<String>, ()>)
    ensures
        text is Ok == optional_text(value@, key@) is Ok,
        text is Ok ==> crate::text::opt_text(text->Ok_0) == optional_text(value@, key@)->Ok_0,
{
    match value.get(key) {
        None => Ok(None),
        Some(YamlValue::Null) => Ok(None),
        Some(YamlValue::String(s)) => Ok(Some(s.clone())),
        Some(_) => Err(()),
    }
}

/// Reads the string under `key`, empty where there is none.
fn text_or_empty_from(value: &YamlValue, key: &str) -> (text: Result<String, ()>)
    ensures
        text is Ok == text_or_empty(value@, key@) is Ok,
        text is Ok ==> text->Ok_0@ == text_or_empty(value@, key@)->Ok_0,
{
    match optional_text_from(value, key) {
        Ok(Some(s)) => Ok(s),
        Ok(None) => Ok(String::new()),
        Err(_) => Err(()),
    }
}

impl NodeDependencies {
    /// Reads what a stack entry declares under `deps`.
    pub fn from_yaml(deps: Option<&YamlValue>) -> (read: Result<NodeDependencies, ()>)
        ensures
            read is Ok == deps_of_yaml(
                match deps {
                    Some(value) => Some(value@),
                    None => None,
                },
            ) is Ok,
            read is Ok ==> read->Ok_0@ == deps_of_yaml(
                match deps {
                    Some(value) => Some(value@),
                    None => None,
                },
            )->Ok_0,
    {
        match deps {
            None => Ok(NodeDependencies { services: None, projects: None, stacks: None }),
            Some(value) => {
                match value {
                    YamlValue::Mapping(_) => {},
                    _ => {
                        return Err(());
                    },
                }
                let services = match optional_strings_from(value, "services") {
                    Ok(list) => list,
                    Err(_) => {
                        return Err(());
                    },
                };
                let projects = match optional_strings_from(value, "projects") {
                    Ok(list) => list,
                    Err(_) => {
                        return Err(());
                    },
                };
                let stacks = match optional_strings_from(value, "stacks") {
                    Ok(list) => list,
                    Err(_) => {
                        return Err(());
                    },
                };
                Ok(NodeDependencies { services, projects, stacks })
            },
        }
    }
}

impl BuildStep {
    /// Reads the build step that a stack entry gives under `build`.
    pub fn from_yaml(value: &YamlValue) -> (read: Result<BuildStep, ()>)
        ensures
            read is Ok == build_of_yaml(value@) is Ok,
            read is Ok ==> read->Ok_0@ == build_of_yaml(value@)->Ok_0,
    {
        match value {
            YamlValue::Mapping(_) => {},
            _ => {
                return Err(());
            },
        }
        let script_path = match text_or_empty_from(value, "script_path") {
            Ok(text) => text,
            Err(_) => {
                return Err(());
            },
        };
        let dockerfile = match text_or_empty_from(value, "dockerfile") {
            Ok(text) => text,
            Err(_) => {
                return Err(());
            },
        };
        let tag = match text_or_empty_from(value, "tag") {
            Ok(text) => text,
            Err(_) => {
                return Err(());
            },
        };
        let registry = match text_or_empty_from(value, "registry") {
            Ok(text) => text,
            Err(_) => {
                return Err(());
            },
        };
        Ok(BuildStep { script_path, dockerfile, tag, registry })
    }
}

impl WatcherConfig {
    /// Reads the watcher's settings that a stack gives.
    pub fn from_yaml(value: Option<&YamlValue>) -> (read: Result<WatcherConfig, ()>)
        ensures
            read is Ok == watcher_of_yaml(
                match value {
                    Some(value) => Some(value@),
                    None => None,
                },
            ) is Ok,
            read is Ok ==> read->Ok_0@ == watcher_of_yaml(
                match value {
                    Some(value) => Some(value@),
                    None => None,
                },
            )->Ok_0,
    {
        match value {
            None => Ok(WatcherConfig::default()),
            Some(YamlValue::Null) => Ok(WatcherConfig::default()),
            Some(settings) => {
                let paths = match settings.get("paths") {
                    Some(paths) => paths,
                    None => {
                        return Err(());
                    },
                };
                let interval = match settings.get("interval") {
                    Some(YamlValue::Number(crate::value::TorbNumeric::Int(interval))) => *interval,
                    _ => {
                        return Err(());
                    },
                };
                let patch = match settings.get("patch") {
                    Some(YamlValue::Bool(patch)) => *patch,
                    _ => {
                        return Err(());
                    },
                };
                match strings_from_yaml(paths) {
                    Some(paths) => Ok(WatcherConfig { paths, interval, patch }),
                    None => Err(()),
                }
            },
        }
    }
}

impl TorbInputSpec {
    /// Reads the declaration of an input from a YAML value.
    pub fn from_yaml(value: &YamlValue) -> (read: Result<TorbInputSpec, TorbInputSpecErrors>)
        ensures
            read is Ok == spec_of_yaml(value@) is Ok,
            read is Ok ==> read->Ok_0@ == spec_of_yaml(value@)->Ok_0,
            read is Err ==> read->Err_0 == spec_of_yaml(value@)->Err_0,
    {
        match value {
            YamlValue::String(mapping) => Ok(
                TorbInputSpec {
                    typing: "string".to_owned(),
                    default: TorbInput::String(String::new()),
                    mapping: mapping.clone(),
                },
            ),
            YamlValue::Sequence(items) => {
                proof {
                    lemma_sequence_view(*items);
                }
                if items.len() != 3 {
                    return Err(TorbInputSpecErrors::WrongShape);
                }
                let typing = match &items[0] {
                    YamlValue::String(typing) => typing,
                    _ => {
                        return Err(TorbInputSpecErrors::WrongShape);
                    },
                };
                if !known_kind_name(typing.as_str()) {
                    return Err(TorbInputSpecErrors::UnknownType);
                }
                let default = match TorbInputSpec::default_from_yaml(typing.as_str(), &items[1]) {
                    Some(default) => default,
                    None => {
                        return Err(TorbInputSpecErrors::WrongDefault);
                    },
                };
                let mapping = match &items[2] {
                    YamlValue::String(mapping) => mapping,
                    _ => {
                        return Err(TorbInputSpecErrors::WrongShape);
                    },
                };
                Ok(TorbInputSpec { typing: typing.clone(), default, mapping: mapping.clone() })
            },
            _ => Err(TorbInputSpecErrors::WrongShape),
        }
    }

    /// The YAML value that the declaration is written as.
    pub fn to_yaml(&self) -> (value: YamlValue)
        requires
            self.default@.is_flat(),
        ensures
            value@ == yaml_of_spec(self@),
    {
        let mut items: Vec<YamlValue> = Vec::new();
        items.push(YamlValue::String(self.typing.clone()));
        items.push(self.default.to_yaml());
        items.push(YamlValue::String(self.mapping.clone()));
        proof {
            lemma_sequence_view(items);
            assert(yaml_views(items@) =~= seq![
                YamlView::String(self.typing@),
                yaml_of_input(self.default@),
                YamlView::String(self.mapping@),
            ]);
        }
        YamlValue::Sequence(items)
    }

    /// Reads the default of an input of type `typing`.
    pub fn default_from_yaml(typing: &str, value: &YamlValue) -> (default: Option<TorbInput>)
        ensures
            default is Some == default_of_yaml(typing@, value@) is Some,
            default is Some ==> default->0@ == default_of_yaml(typing@, value@)->0,
    {
        if str_eq(typing, "bool") {
            match value {
                YamlValue::Bool(b) => Some(TorbInput::Bool(*b)),
                _ => None,
            }
        } else if str_eq(typing, "string") {
            match value {
                YamlValue::String(s) => Some(TorbInput::String(s.clone())),
                _ => None,
            }
        } else if str_eq(typing, "array") {
            match value {
                YamlValue::Sequence(_) => TorbInput::from_yaml(value),
                _ => None,
            }
        } else if str_eq(typing, "numeric") {
            match value {
                YamlValue::Number(n) => Some(TorbInput::Numeric(n.duplicate())),
                _ => None,
            }
        } else {
            None
        }
    }
}

/// What can go wrong while a stack is resolved.
#[derive(Debug, PartialEq)]
pub enum TorbResolverErrors {
    /// The stack document does not have the shape of a stack.
    CannotParseStackManifest,
    /// The inputs of a node hold something that is no input value.
    UnsupportedInputValue,
    /// The inputs of a node do not fit the declarations of its component.
    InvalidInputs { message: String },
    /// The values of a node have no YAML text.
    ValuesNotPrintable,
    /// A component of the stack came without its definition.
    MissingDefinition,
}

/// What stops the resolution of a stack.
pub enum LoadProblem {
    CannotParseStackManifest,
    UnsupportedInputValue,
    InvalidInputs(Seq<char>),
    ValuesNotPrintable,
    MissingDefinition,
}

impl TorbResolverErrors {
    /// The problem that the error reports.
    pub open spec fn problem(self) -> LoadProblem {
        match self {
            TorbResolverErrors::CannotParseStackManifest => LoadProblem::CannotParseStackManifest,
            TorbResolverErrors::UnsupportedInputValue => LoadProblem::UnsupportedInputValue,
            TorbResolverErrors::InvalidInputs { message } => LoadProblem::InvalidInputs(message@),
            TorbResolverErrors::ValuesNotPrintable => LoadProblem::ValuesNotPrintable,
            TorbResolverErrors::MissingDefinition => LoadProblem::MissingDefinition,
        }
    }

    /// The sentence shown for the error.
    pub fn message(&self) -> (text: String)
        ensures
            text@ == match *self {
                TorbResolverErrors::CannotParseStackManifest =>
                    "Unable to parse stack manifest, please check that it is a valid Torb stack manifest."@,
                TorbResolverErrors::UnsupportedInputValue => "Unable to deserialize inputs."@,
                TorbResolverErrors::InvalidInputs { message } => message@,
                TorbResolverErrors::ValuesNotPrintable =>
                    "Unable to convert values yaml to string."@,
                TorbResolverErrors::MissingDefinition =>
                    "A component of the stack has no definition."@,
            },
    {
        match self {
            TorbResolverErrors::CannotParseStackManifest => {
                "Unable to parse stack manifest, please check that it is a valid Torb stack manifest.".to_owned()
            },
            TorbResolverErrors::UnsupportedInputValue => "Unable to deserialize inputs.".to_owned(),
            TorbResolverErrors::InvalidInputs { message } => message.clone(),
            TorbResolverErrors::ValuesNotPrintable => {
                "Unable to convert values yaml to string.".to_owned()
            },
            TorbResolverErrors::MissingDefinition => {
                "A component of the stack has no definition.".to_owned()
            },
        }
    }
}

/// The repository that a stack entry takes its component from.
pub open spec fn source_of(entry: YamlView) -> Result<Seq<char>, ()> {
    match entry.lookup("source"@) {
        None => Ok("torb-artifacts"@),
        Some(YamlView::String(source)) => Ok(source),
        Some(_) => Err(()),
    }
}

/// The name of the component that a stack entry of kind `kind` stands for.
pub open spec fn component_of(kind: Seq<char>, entry: YamlView) -> Result<Seq<char>, ()> {
    if kind == "service"@ || kind == "project"@ {
        match entry.lookup(kind) {
            Some(YamlView::String(name)) => Ok(name),
            _ => Err(()),
        }
    } else {
        Err(())
    }
}

/// The namespace that a stack entry gives, if it gives one.
pub open spec fn namespace_in(entry: YamlView) -> Result<Option<Seq<char>>, ()> {
    match entry.lookup("namespace"@) {
        None => Ok(None),
        Some(YamlView::String(namespace)) => Ok(Some(namespace)),
        Some(_) => Err(()),
    }
}

/// The values of a stack entry; null where it has none.
pub open spec fn values_in(entry: YamlView) -> YamlView {
    match entry.lookup("values"@) {
        Some(values) => values,
        None => YamlView::Null,
    }
}

/// The build step that a stack entry gives; empty in every field where it
/// gives none.
pub open spec fn build_given(entry: YamlView) -> Result<BuildStepView, ()> {
    match entry.lookup("build"@) {
        Some(build) => build_of_yaml(build),
        None => Ok(
            BuildStepView {
                script_path: Seq::empty(),
                dockerfile: Seq::empty(),
                tag: Seq::empty(),
                registry: Seq::empty(),
            },
        ),
    }
}

/// The build step of a component; empty in every field where it has none.
pub open spec fn build_or_empty(own: Option<BuildStepView>) -> BuildStepView {
    match own {
        Some(step) => step,
        None => BuildStepView {
            script_path: Seq::empty(),
            dockerfile: Seq::empty(),
            tag: Seq::empty(),
            registry: Seq::empty(),
        },
    }
}

/// The node that a component becomes in a stack: the definition, with its
/// name in the stack, where it was read from, its repository, namespace and
/// build step, the text of its values, the mapped inputs made from the
/// provided inputs, and the implicit dependencies found in both.
pub open spec fn component_node(
    stack_name: Seq<char>,
    kind: Seq<char>,
    node_name: Seq<char>,
    definition: NodeView,
    file_path: Seq<char>,
    inputs: Seq<(Seq<char>, InputView)>,
    values: YamlView,
    source: Seq<char>,
    namespace: Option<Seq<char>>,
    build_step: Option<BuildStepView>,
) -> Result<NodeView, LoadProblem> {
    if yaml_printed(yaml_settled(values)) is None {
        Err(LoadProblem::ValuesNotPrintable)
    } else if definition.input_spec.len() > 0 && first_problem(inputs, definition.input_spec, 0)
        is Some {
        Err(
            LoadProblem::InvalidInputs(
                validation_message(
                    first_problem(inputs, definition.input_spec, 0)->0,
                    entry_keys(definition.input_spec),
                ),
            ),
        )
    } else {
        let fqn = fqn_text(stack_name, kind, node_name);
        let text = yaml_printed(yaml_settled(values))->0;
        let mapped = mapped_from(inputs, definition.input_spec);
        Ok(
            NodeView {
                fqn,
                file_path,
                source: Some(source),
                namespace,
                build_step,
                values: text,
                mapped_inputs: mapped,
                implicit_dependency_fqns: implicit_targets(
                    stack_name,
                    fqn,
                    mapped,
                    values_document(text),
                ),
                ..definition
            },
        )
    }
}

/// The node that a stack entry and the definition of its component give.
pub open spec fn loaded_node(
    stack_name: Seq<char>,
    kind: Seq<char>,
    node_name: Seq<char>,
    entry: YamlView,
    definition: NodeView,
    file_path: Seq<char>,
) -> Result<NodeView, LoadProblem> {
    if source_of(entry) is Err {
        Err(LoadProblem::CannotParseStackManifest)
    } else if inputs_of_yaml(entry.lookup("inputs"@)) is None {
        Err(LoadProblem::UnsupportedInputValue)
    } else if component_of(kind, entry) is Err || namespace_in(entry) is Err {
        Err(LoadProblem::CannotParseStackManifest)
    } else if kind == "project"@ && build_given(entry) is Err {
        Err(LoadProblem::CannotParseStackManifest)
    } else {
        let build_step = if kind == "project"@ {
            Some(reconciled(build_or_empty(definition.build_step), build_given(entry)->Ok_0))
        } else {
            definition.build_step
        };
        match component_node(
            stack_name,
            kind,
            node_name,
            definition,
            file_path,
            inputs_of_yaml(entry.lookup("inputs"@))->0,
            values_in(entry),
            source_of(entry)->Ok_0,
            namespace_in(entry)->Ok_0,
            build_step,
        ) {
            Err(problem) => Err(problem),
            Ok(node) => match deps_of_yaml(entry.lookup("deps"@)) {
                Err(_) => Err(LoadProblem::CannotParseStackManifest),
                Ok(deps) => Ok(NodeView { dependency_names: deps, ..node }),
            },
        }
    }
}

/// A node that was loaded has exactly the declared inputs of its component
/// as the keys of its mapped inputs, in the order of the declarations.
pub proof fn lemma_loaded_node_maps_declared_inputs(
    stack_name: Seq<char>,
    kind: Seq<char>,
    node_name: Seq<char>,
    entry: YamlView,
    definition: NodeView,
    file_path: Seq<char>,
)
    requires
        loaded_node(stack_name, kind, node_name, entry, definition, file_path) is Ok,
    ensures
        entry_keys(
            loaded_node(stack_name, kind, node_name, entry, definition, file_path)->Ok_0.mapped_inputs,
        ) == entry_keys(definition.input_spec),
        loaded_node(stack_name, kind, node_name, entry, definition, file_path)->Ok_0.input_spec
            == definition.input_spec,
{
    crate::node::lemma_mapped_keys(
        inputs_of_yaml(entry.lookup("inputs"@))->0,
        definition.input_spec,
    );
}

/// A stack entry that provides an input which its component, declaring
/// inputs, does not declare is not loaded.
pub proof fn lemma_undeclared_input_is_not_loaded(
    stack_name: Seq<char>,
    kind: Seq<char>,
    node_name: Seq<char>,
    entry: YamlView,
    definition: NodeView,
    file_path: Seq<char>,
    key: Seq<char>,
)
    requires
        definition.input_spec.len() > 0,
        inputs_of_yaml(entry.lookup("inputs"@)) is Some,
        crate::collections::found(definition.input_spec, key) is None,
        exists|i: int|
            0 <= i < inputs_of_yaml(entry.lookup("inputs"@))->0.len() && inputs_of_yaml(
                entry.lookup("inputs"@),
            )->0[i].0 == key,
    ensures
        loaded_node(stack_name, kind, node_name, entry, definition, file_path) is Err,
{
    crate::node::lemma_unknown_key_is_a_problem(
        inputs_of_yaml(entry.lookup("inputs"@))->0,
        definition.input_spec,
        key,
        0,
    );
}

/// A node as the loader made it, and whether inputs that the stack provides
/// were discarded because the component declares none.
#[derive(Debug, PartialEq)]
pub struct LoadedNode {
    pub node: ArtifactNodeRepr,
    pub inputs_discarded: bool,
}

/// Resolves a stack.
#[derive(Debug, PartialEq)]
pub struct Resolver {
    pub config: ResolverConfig,
    pub stack: YamlValue,
}

/// What a resolver works on: the stack document and the stack's name.
#[derive(Debug, PartialEq)]
pub struct ResolverConfig {
    pub stack_name: String,
    pub stack_contents: YamlValue,
}

impl ResolverConfig {
    pub fn new(stack_name: String, stack_contents: YamlValue) -> (config: ResolverConfig)
        ensures
            config.stack_name == stack_name,
            config.stack_contents == stack_contents,
    {
        ResolverConfig { stack_name, stack_contents }
    }
}

impl Resolver {
    pub fn new(config: &ResolverConfig) -> (resolver: Resolver)
        ensures
            resolver.config.stack_name@ == config.stack_name@,
            resolver.config.stack_contents@ == config.stack_contents@,
            resolver.stack@ == config.stack_contents@,
    {
        Resolver {
            config: ResolverConfig {
                stack_name: config.stack_name.clone(),
                stack_contents: config.stack_contents.duplicate(),
            },
            stack: config.stack_contents.duplicate(),
        }
    }

    /// Field by field, what the stack gives where it gives something, else
    /// what the component has.
    pub fn reconcile_build_step(build_step: BuildStep, new_build_step: BuildStep) -> (merged:
        BuildStep)
        ensures
            merged@ == reconciled(build_step@, new_build_step@),
    {
        let registry = if !new_build_step.registry.as_str().is_empty() {
            new_build_step.registry
        } else {
            build_step.registry
        };
        let dockerfile = if !new_build_step.dockerfile.as_str().is_empty() {
            new_build_step.dockerfile
        } else {
            build_step.dockerfile
        };
        let script_path = if !new_build_step.script_path.as_str().is_empty() {
            new_build_step.script_path
        } else {
            build_step.script_path
        };
        let tag = if !new_build_step.tag.as_str().is_empty() {
            new_build_step.tag
        } else {
            build_step.tag
        };
        BuildStep { registry, tag, dockerfile, script_path }
    }

    /// Reads the inputs that a stack entry provides.
    pub fn deserialize_params(params: Option<&YamlValue>) -> (read: Result<
        OrderedMap<TorbInput>,
        TorbResolverErrors,
    >)
        ensures
            read is Ok == inputs_of_yaml(
                match params {
                    Some(value) => Some(value@),
                    None => None,
                },
            ) is Some,
            read is Ok ==> inputs_view(read->Ok_0) == inputs_of_yaml(
                match params {
                    Some(value) => Some(value@),
                    None => None,
                },
            )->0,
            read is Err ==> read->Err_0 is UnsupportedInputValue,
    {
        let mut inputs: OrderedMap<TorbInput> = OrderedMap::new();
        let ghost view = |v: TorbInput| v@;
        match params {
            None => {
                assert(inputs.entries(view) =~= Seq::<(Seq<char>, InputView)>::empty());
                Ok(inputs)
            },
            Some(YamlValue::Mapping(entries)) => {
                proof {
                    lemma_mapping_view(*entries);
                    assert(inputs.entries(view) =~= Seq::<(Seq<char>, InputView)>::empty());
                }
                let mut i: usize = 0;
                while i < entries.len()
                    invariant
                        i <= entries@.len(),
                        params is Some,
                        params->0@ == YamlView::Mapping(entry_views(entries@)),
                        view == |v: TorbInput| v@,
                        inputs_upto(entry_views(entries@), i as int) == Some(inputs.entries(view)),
                    decreases entries@.len() - i,
                {
                    let key = match &entries[i].0 {
                        YamlValue::String(key) => key,
                        _ => {
                            proof {
                                assert(entry_views(entries@)[i as int].0 == entries@[i as int].0@);
                                assert(inputs_upto(entry_views(entries@), i + 1) is None);
                                lemma_inputs_stay_none(
                                    entry_views(entries@),
                                    i + 1,
                                    entries@.len() as int,
                                );
                            }
                            return Err(TorbResolverErrors::UnsupportedInputValue);
                        },
                    };
                    let value = match TorbInput::from_yaml(&entries[i].1) {
                        Some(value) => value,
                        None => {
                            proof {
                                assert(entry_views(entries@)[i as int].1 == entries@[i as int].1@);
                                assert(inputs_upto(entry_views(entries@), i + 1) is None);
                                lemma_inputs_stay_none(
                                    entry_views(entries@),
                                    i + 1,
                                    entries@.len() as int,
                                );
                            }
                            return Err(TorbResolverErrors::UnsupportedInputValue);
                        },
                    };
                    let ghost before = inputs;
                    inputs.insert(key.clone(), value);
                    proof {
                        inputs.lemma_update_entries(before, key@, view);
                    }
                    i += 1;
                }
                Ok(inputs)
            },
            Some(_) => Err(TorbResolverErrors::UnsupportedInputValue),
        }
    }

    /// Makes the node of a component in a stack.
    pub fn place_component(
        stack_name: &str,
        stack_kind_name: &str,
        node_name: &str,
        definition: ArtifactNodeRepr,
        file_path: String,
        inputs: OrderedMap<TorbInput>,
        values: &YamlValue,
        source: &str,
        namespace: Option<String>,
        build_step: Option<BuildStep>,
    ) -> (placed: Result<LoadedNode, TorbResolverErrors>)
        ensures
            placed is Ok == component_node(
                stack_name@,
                stack_kind_name@,
                node_name@,
                definition@,
                file_path@,
                inputs_view(inputs),
                values@,
                source@,
                opt_text(namespace),
                crate::node::build_view(build_step),
            ) is Ok,
            placed is Ok ==> placed->Ok_0.node@ == component_node(
                stack_name@,
                stack_kind_name@,
                node_name@,
                definition@,
                file_path@,
                inputs_view(inputs),
                values@,
                source@,
                opt_text(namespace),
                crate::node::build_view(build_step),
            )->Ok_0,
            placed is Ok ==> placed->Ok_0.inputs_discarded == (definition@.input_spec.len() == 0
                && inputs_view(inputs).len() > 0),
            placed is Err ==> placed->Err_0.problem() == component_node(
                stack_name@,
                stack_kind_name@,
                node_name@,
                definition@,
                file_path@,
                inputs_view(inputs),
                values@,
                source@,
                opt_text(namespace),
                crate::node::build_view(build_step),
            )->Err_0,
    {
        let text = match values.to_text() {
            Some(text) => text,
            None => {
                return Err(TorbResolverErrors::ValuesNotPrintable);
            },
        };
        let mut node = definition;
        node.input_spec.note_shape();
        inputs.note_shape();
        proof {
            node.input_spec.lemma_entries(|v: TorbInputSpec| v@);
            inputs.lemma_entries(|v: TorbInput| v@);
            crate::node::lemma_dependencies_view(definition);
        }
        node.fqn = fqn_for(stack_name, stack_kind_name, node_name);
        node.file_path = file_path;
        node.source = Some(source.to_owned());
        node.namespace = namespace;
        node.build_step = build_step;
        node.values = text;
        let inputs_discarded = match node.validate_map_and_set_inputs(inputs) {
            Ok(discarded) => discarded,
            Err(message) => {
                return Err(TorbResolverErrors::InvalidInputs { message });
            },
        };
        let graph_name = stack_name.to_owned();
        node.discover_and_set_implicit_dependencies(&graph_name);
        proof {
            crate::node::lemma_dependencies_view(node);
            assert(node@.dependencies =~= definition@.dependencies);
        }
        Ok(LoadedNode { node, inputs_discarded })
    }

    /// Makes the node of a service.
    pub fn resolve_service(
        stack_name: &str,
        stack_kind_name: &str,
        node_name: &str,
        definition: ArtifactNodeRepr,
        file_path: String,
        inputs: OrderedMap<TorbInput>,
        values: &YamlValue,
        source: &str,
        namespace: Option<String>,
    ) -> (placed: Result<LoadedNode, TorbResolverErrors>)
        ensures
            placed is Ok == component_node(
                stack_name@,
                stack_kind_name@,
                node_name@,
                definition@,
                file_path@,
                inputs_view(inputs),
                values@,
                source@,
                opt_text(namespace),
                definition@.build_step,
            ) is Ok,
            placed is Ok ==> placed->Ok_0.node@ == component_node(
                stack_name@,
                stack_kind_name@,
                node_name@,
                definition@,
                file_path@,
                inputs_view(inputs),
                values@,
                source@,
                opt_text(namespace),
                definition@.build_step,
            )->Ok_0,
            placed is Ok ==> placed->Ok_0.inputs_discarded == (definition@.input_spec.len() == 0
                && inputs_view(inputs).len() > 0),
            placed is Err ==> placed->Err_0.problem() == component_node(
                stack_name@,
                stack_kind_name@,
                node_name@,
                definition@,
                file_path@,
                inputs_view(inputs),
                values@,
                source@,
                opt_text(namespace),
                definition@.build_step,
            )->Err_0,
    {
        let build_step = match &definition.build_step {
            Some(step) => Some(step.duplicate()),
            None => None,
        };
        Resolver::place_component(
            stack_name,
            stack_kind_name,
            node_name,
            definition,
            file_path,
            inputs,
            values,
            source,
            namespace,
            build_step,
        )
    }

    /// Makes the node of a project: as that of a service, with the build
    /// step reconciled with what the stack gives under `build`.
    pub fn resolve_project(
        stack_name: &str,
        stack_kind_name: &str,
        node_name: &str,
        definition: ArtifactNodeRepr,
        file_path: String,
        inputs: OrderedMap<TorbInput>,
        build_config: BuildStep,
        values: &YamlValue,
        source: &str,
        namespace: Option<String>,
    ) -> (placed: Result<LoadedNode, TorbResolverErrors>)
        ensures
            placed is Ok == component_node(
                stack_name@,
                stack_kind_name@,
                node_name@,
                definition@,
                file_path@,
                inputs_view(inputs),
                values@,
                source@,
                opt_text(namespace),
                Some(reconciled(build_or_empty(definition@.build_step), build_config@)),
            ) is Ok,
            placed is Ok ==> placed->Ok_0.node@ == component_node(
                stack_name@,
                stack_kind_name@,
                node_name@,
                definition@,
                file_path@,
                inputs_view(inputs),
                values@,
                source@,
                opt_text(namespace),
                Some(reconciled(build_or_empty(definition@.build_step), build_config@)),
            )->Ok_0,
            placed is Ok ==> placed->Ok_0.inputs_discarded == (definition@.input_spec.len() == 0
                && inputs_view(inputs).len() > 0),
            placed is Err ==> placed->Err_0.problem() == component_node(
                stack_name@,
                stack_kind_name@,
                node_name@,
                definition@,
                file_path@,
                inputs_view(inputs),
                values@,
                source@,
                opt_text(namespace),
                Some(reconciled(build_or_empty(definition@.build_step), build_config@)),
            )->Err_0,
    {
        let own = match &definition.build_step {
            Some(step) => step.duplicate(),
            None => BuildStep::default(),
        };
        let merged = Resolver::reconcile_build_step(own, build_config);
        Resolver::place_component(
            stack_name,
            stack_kind_name,
            node_name,
            definition,
            file_path,
            inputs,
            values,
            source,
            namespace,
            Some(merged),
        )
    }

    /// Makes the node that a stack entry and the definition of its
    /// component give. `definition` is what the component's definition
    /// file holds, `file_path` is where that file lies.
    pub fn resolve_node(
        stack_name: &str,
        stack_kind_name: &str,
        node_name: &str,
        yaml: &YamlValue,
        definition: ArtifactNodeRepr,
        file_path: String,
    ) -> (loaded: Result<LoadedNode, TorbResolverErrors>)
        ensures
            loaded is Ok == loaded_node(
                stack_name@,
                stack_kind_name@,
                node_name@,
                yaml@,
                definition@,
                file_path@,
            ) is Ok,
            loaded is Ok ==> loaded->Ok_0.node@ == loaded_node(
                stack_name@,
                stack_kind_name@,
                node_name@,
                yaml@,
                definition@,
                file_path@,
            )->Ok_0,
            loaded is Ok ==> loaded->Ok_0.inputs_discarded == (definition@.input_spec.len() == 0
                && inputs_of_yaml(yaml@.lookup("inputs"@))->0.len() > 0),
            loaded is Err ==> loaded->Err_0.problem() == loaded_node(
                stack_name@,
                stack_kind_name@,
                node_name@,
                yaml@,
                definition@,
                file_path@,
            )->Err_0,
    {
        let repo = match yaml.get("source") {
            None => "torb-artifacts".to_owned(),
            Some(YamlValue::String(source)) => source.clone(),
            Some(_) => {
                return Err(TorbResolverErrors::CannotParseStackManifest);
            },
        };
        let inputs = match Resolver::deserialize_params(yaml.get("inputs")) {
            Ok(inputs) => inputs,
            Err(e) => {
                return Err(e);
            },
        };
        let null = YamlValue::Null;
        let config_values = match yaml.get("values") {
            Some(values) => values,
            None => &null,
        };
        let is_service = str_eq(stack_kind_name, "service");
        let is_project = str_eq(stack_kind_name, "project");
        if !is_service && !is_project {
            return Err(TorbResolverErrors::CannotParseStackManifest);
        }
        match yaml.get(stack_kind_name) {
            Some(YamlValue::String(_)) => {},
            _ => {
                return Err(TorbResolverErrors::CannotParseStackManifest);
            },
        }
        let namespace = match yaml.get("namespace") {
            None => None,
            Some(YamlValue::String(namespace)) => Some(namespace.clone()),
            Some(_) => {
                return Err(TorbResolverErrors::CannotParseStackManifest);
            },
        };
        proof {
            reveal_strlit("service");
            reveal_strlit("project");
            assert("service"@ != "project"@) by {
                assert("service"@[0] != "project"@[0]);
            }
        }
        let placed = if is_project {
            let given = match yaml.get("build") {
                Some(build) => match BuildStep::from_yaml(build) {
                    Ok(given) => given,
                    Err(_) => {
                        return Err(TorbResolverErrors::CannotParseStackManifest);
                    },
                },
                None => BuildStep::default(),
            };
            Resolver::resolve_project(
                stack_name,
                stack_kind_name,
                node_name,
                definition,
                file_path,
                inputs,
                given,
                config_values,
                repo.as_str(),
                namespace,
            )
        } else {
            Resolver::resolve_service(
                stack_name,
                stack_kind_name,
                node_name,
                definition,
                file_path,
                inputs,
                config_values,
                repo.as_str(),
                namespace,
            )
        };
        let mut loaded = match placed {
            Ok(loaded) => loaded,
            Err(e) => {
                return Err(e);
            },
        };
        let deps = match NodeDependencies::from_yaml(yaml.get("deps")) {
            Ok(deps) => deps,
            Err(_) => {
                return Err(TorbResolverErrors::CannotParseStackManifest);
            },
        };
        let ghost before = loaded.node;
        loaded.node.dependency_names = deps;
        proof {
            crate::node::lemma_dependencies_view(before);
            crate::node::lemma_dependencies_view(loaded.node);
            assert(loaded.node@.dependencies =~= before@.dependencies);
        }
        Ok(loaded)
    }
}

/// A component that a stack asks for: its kind, its name in the stack, and
/// the stack's entry for it.
#[derive(Debug, PartialEq)]
pub struct ComponentRequest {
    pub kind: String,
    pub node_name: String,
    pub entry: YamlValue,
}

/// What a `ComponentRequest` holds.
pub struct RequestView {
    pub kind: Seq<char>,
    pub node_name: Seq<char>,
    pub entry: YamlView,
}

impl View for ComponentRequest {
    type V = RequestView;

    open spec fn view(&self) -> RequestView {
        RequestView { kind: self.kind@, node_name: self.node_name@, entry: self.entry@ }
    }
}

/// The views of a list of requests.
pub open spec fn request_views(requests: Seq<ComponentRequest>) -> Seq<RequestView> {
    Seq::new(requests.len(), |i: int| requests[i]@)
}

/// The components of kind `kind` that the first `n` entries of a mapping
/// ask for: every key must be a string.
pub open spec fn named_requests(kind: Seq<char>, entries: Seq<(YamlView, YamlView)>, n: int) -> Result<
    Seq<RequestView>,
    (),
>
    decreases n,
{
    if n <= 0 {
        Ok(Seq::empty())
    } else {
        match (named_requests(kind, entries, n - 1), entries[n - 1].0) {
            (Ok(before), YamlView::String(name)) => Ok(
                before.push(RequestView { kind, node_name: name, entry: entries[n - 1].1 }),
            ),
            _ => Err(()),
        }
    }
}

/// The kind of the components listed under a key of the stack document.
pub open spec fn listed_kind(key: Seq<char>) -> Option<Seq<char>> {
    if key == "services"@ {
        Some("service"@)
    } else if key == "projects"@ {
        Some("project"@)
    } else {
        None
    }
}

/// The components that the first `n` keys of a stack document ask for, in
/// document order: those under `services` and those under `projects`.
/// Every key of the document must be a string.
pub open spec fn requests_upto(top: Seq<(YamlView, YamlView)>, n: int) -> Result<
    Seq<RequestView>,
    (),
>
    decreases n,
{
    if n <= 0 {
        Ok(Seq::empty())
    } else {
        match (requests_upto(top, n - 1), top[n - 1].0) {
            (Ok(before), YamlView::String(key)) => match (listed_kind(key), top[n - 1].1) {
                (Some(kind), YamlView::Mapping(entries)) => match named_requests(
                    kind,
                    entries,
                    entries.len() as int,
                ) {
                    Ok(more) => Ok(before + more),
                    Err(_) => Err(()),
                },
                _ => Ok(before),
            },
            _ => Err(()),
        }
    }
}

/// The components that a stack document asks for.
pub open spec fn components_of(stack: YamlView) -> Result<Seq<RequestView>, ()> {
    match stack {
        YamlView::Mapping(top) => requests_upto(top, top.len() as int),
        _ => Err(()),
    }
}

/// Once a key is no string, the mapping gives no requests.
pub proof fn lemma_named_stay_err(kind: Seq<char>, entries: Seq<(YamlView, YamlView)>, n: int, m: int)
    requires
        0 <= n <= m,
        named_requests(kind, entries, n) is Err,
    ensures
        named_requests(kind, entries, m) is Err,
    decreases m,
{
    if n < m {
        lemma_named_stay_err(kind, entries, n, m - 1);
    }
}

/// Once a part of the document gives no requests, the document gives none.
pub proof fn lemma_requests_stay_err(top: Seq<(YamlView, YamlView)>, n: int, m: int)
    requires
        0 <= n <= m,
        requests_upto(top, n) is Err,
    ensures
        requests_upto(top, m) is Err,
    decreases m,
{
    if n < m {
        lemma_requests_stay_err(top, n, m - 1);
    }
}

/// The nodes of a graph and the edges between them.
pub struct GraphNodes {
    pub services: Seq<(Seq<char>, NodeView)>,
    pub projects: Seq<(Seq<char>, NodeView)>,
    pub edges: Seq<(Seq<char>, Seq<Seq<char>>)>,
}

/// The nodes and edges of a graph.
pub open spec fn nodes_of(graph: StackGraph) -> GraphNodes {
    GraphNodes {
        services: nodes_view(graph.services),
        projects: nodes_view(graph.projects),
        edges: edges_view(graph.incoming_edges),
    }
}

/// The nodes and edges after a node was added: the node stands under its
/// name among the nodes of its kind, and its edges are recorded.
pub open spec fn with_node(
    nodes: GraphNodes,
    stack_name: Seq<char>,
    kind: Seq<char>,
    node: NodeView,
) -> GraphNodes {
    let edges = with_dependencies(nodes.edges, stack_name, node.dependency_names, node.fqn);
    if kind == "service"@ {
        GraphNodes { services: stored(nodes.services, node.fqn, node), edges, ..nodes }
    } else {
        GraphNodes { projects: stored(nodes.projects, node.fqn, node), edges, ..nodes }
    }
}

/// The nodes and edges after the first `n` requests were resolved, each
/// with the definition, and the path of the definition, at its position
/// in `definitions`.
pub open spec fn resolved_upto(
    nodes: GraphNodes,
    stack_name: Seq<char>,
    requests: Seq<RequestView>,
    definitions: Seq<(NodeView, Seq<char>)>,
    n: int,
) -> Result<GraphNodes, LoadProblem>
    decreases n,
{
    if n <= 0 {
        Ok(nodes)
    } else {
        match resolved_upto(nodes, stack_name, requests, definitions, n - 1) {
            Err(problem) => Err(problem),
            Ok(before) => if n - 1 >= definitions.len() {
                Err(LoadProblem::MissingDefinition)
            } else {
                match loaded_node(
                    stack_name,
                    requests[n - 1].kind,
                    requests[n - 1].node_name,
                    requests[n - 1].entry,
                    definitions[n - 1].0,
                    definitions[n - 1].1,
                ) {
                    Err(problem) => Err(problem),
                    Ok(node) => Ok(with_node(before, stack_name, requests[n - 1].kind, node)),
                }
            },
        }
    }
}

/// A problem with one of the first requests is the problem of them all.
pub proof fn lemma_resolved_stays_err(
    nodes: GraphNodes,
    stack_name: Seq<char>,
    requests: Seq<RequestView>,
    definitions: Seq<(NodeView, Seq<char>)>,
    n: int,
    m: int,
)
    requires
        0 <= n <= m,
        resolved_upto(nodes, stack_name, requests, definitions, n) is Err,
    ensures
        resolved_upto(nodes, stack_name, requests, definitions, m) == resolved_upto(
            nodes,
            stack_name,
            requests,
            definitions,
            n,
        ),
    decreases m,
{
    if n < m {
        lemma_resolved_stays_err(nodes, stack_name, requests, definitions, n, m - 1);
    }
}

/// What was read of a component before the stack is resolved: its
/// definition and where the definition lies.
#[derive(Debug, PartialEq)]
pub struct LoadedDefinition {
    pub definition: ArtifactNodeRepr,
    pub file_path: String,
}

/// The views of a list of loaded definitions.
pub open spec fn definition_views(definitions: Seq<LoadedDefinition>) -> Seq<
    (NodeView, Seq<char>),
> {
    Seq::new(definitions.len(), |i: int| (definitions[i].definition@, definitions[i].file_path@))
}

/// What a stack is resolved with beside its document: the versions of the
/// tools, the commit of every artifact repository, and the graph of the
/// stack nested in it, where it has one.
#[derive(Debug, PartialEq)]
pub struct Provenance {
    pub tf_version: String,
    pub helm_version: String,
    pub commits: OrderedMap<String>,
    pub meta: Option<Box<StackGraph>>,
}

/// The string under `key`, where a string stands there.
pub open spec fn text_if_string(value: YamlView, key: Seq<char>) -> Option<Seq<char>> {
    match value.lookup(key) {
        Some(YamlView::String(text)) => Some(text),
        _ => None,
    }
}

/// Whether a stack document has what every stack has: a name, a version
/// and a kind, all strings; repositories, if any, as a list of strings;
/// and the watcher's settings, if any, complete.
pub open spec fn has_header(yaml: YamlView) -> bool {
    &&& text_if_string(yaml, "name"@) is Some
    &&& text_if_string(yaml, "version"@) is Some
    &&& text_if_string(yaml, "kind"@) is Some
    &&& optional_strings(yaml, "repositories"@) is Ok
    &&& watcher_of_yaml(yaml.lookup("watcher"@)) is Ok
}

/// What stops the making of the graph of a stack, if anything.
pub open spec fn stack_problem(
    stack_name: Seq<char>,
    yaml: YamlView,
    definitions: Seq<(NodeView, Seq<char>)>,
) -> Option<LoadProblem> {
    if !has_header(yaml) || components_of(yaml) is Err {
        Some(LoadProblem::CannotParseStackManifest)
    } else {
        let requests = components_of(yaml)->Ok_0;
        match resolved_upto(
            GraphNodes { services: Seq::empty(), projects: Seq::empty(), edges: Seq::empty() },
            stack_name,
            requests,
            definitions,
            requests.len() as int,
        ) {
            Err(problem) => Some(problem),
            Ok(_) => None,
        }
    }
}

/// Whether `graph` is the graph of the stack that `yaml` describes.
pub open spec fn is_graph_of(
    graph: StackGraph,
    stack_name: Seq<char>,
    yaml: YamlView,
    provenance: Provenance,
    definitions: Seq<(NodeView, Seq<char>)>,
) -> bool {
    &&& graph.meta == provenance.meta
    &&& graph.name@ == normalized(text_if_string(yaml, "name"@)->0)
    &&& graph.version@ == text_if_string(yaml, "version"@)->0
    &&& graph.kind@ == text_if_string(yaml, "kind"@)->0
    &&& graph.tf_version@ == provenance.tf_version@
    &&& graph.helm_version@ == provenance.helm_version@
    &&& graph.commits.entries(|v: String| v@) == provenance.commits.entries(|v: String| v@)
    &&& opt_text(graph.namespace) == text_if_string(yaml, "namespace"@)
    &&& opt_text(graph.release) == text_if_string(yaml, "release"@)
    &&& opt_texts(graph.repositories) == optional_strings(yaml, "repositories"@)->Ok_0
    &&& graph.watcher@ == watcher_of_yaml(yaml.lookup("watcher"@))->Ok_0
    &&& graph.stacks.keys().len() == 0
    &&& Ok::<GraphNodes, LoadProblem>(nodes_of(graph)) == resolved_upto(
        GraphNodes { services: Seq::empty(), projects: Seq::empty(), edges: Seq::empty() },
        stack_name,
        components_of(yaml)->Ok_0,
        definitions,
        components_of(yaml)->Ok_0.len() as int,
    )
}

/// Reads the string under `key`, where a string stands there.
fn text_from(value: &YamlValue, key: &str) -> (text: Option<String>)
    ensures
        opt_text(text) == text_if_string(value@, key@),
{
    match value.get(key) {
        Some(YamlValue::String(text)) => Some(text.clone()),
        _ => None,
    }
}

/// Appends the requests for the components of kind `kind`.
fn push_named_requests(
    requests: &mut Vec<ComponentRequest>,
    kind: &str,
    entries: &Vec<(YamlValue, YamlValue)>,
) -> (read: Result<(), ()>)
    ensures
        read is Ok == named_requests(kind@, entry_views(entries@), entries@.len() as int) is Ok,
        read is Ok ==> request_views(final(requests)@) == request_views(old(requests)@)
            + named_requests(kind@, entry_views(entries@), entries@.len() as int)->Ok_0,
{
    let mut i: usize = 0;
    assert(request_views(requests@) =~= request_views(old(requests)@) + Seq::<
        RequestView,
    >::empty());
    while i < entries.len()
        invariant
            i <= entries@.len(),
            named_requests(kind@, entry_views(entries@), i as int) is Ok,
            request_views(requests@) == request_views(old(requests)@) + named_requests(
                kind@,
                entry_views(entries@),
                i as int,
            )->Ok_0,
        decreases entries@.len() - i,
    {
        assert(entry_views(entries@)[i as int] == (entries@[i as int].0@, entries@[i as int].1@));
        let name = match &entries[i].0 {
            YamlValue::String(name) => name,
            _ => {
                proof {
                    assert(named_requests(kind@, entry_views(entries@), i + 1) is Err);
                    lemma_named_stay_err(
                        kind@,
                        entry_views(entries@),
                        i + 1,
                        entries@.len() as int,
                    );
                }
                return Err(());
            },
        };
        let request = ComponentRequest {
            kind: kind.to_owned(),
            node_name: name.clone(),
            entry: entries[i].1.duplicate(),
        };
        let ghost before = request_views(requests@);
        requests.push(request);
        proof {
            assert(request_views(requests@) =~= before.push(request@));
            assert(request_views(requests@) =~= request_views(old(requests)@) + named_requests(
                kind@,
                entry_views(entries@),
                i + 1,
            )->Ok_0);
        }
        i += 1;
    }
    Ok(())
}

impl ComponentRequest {
    /// Where the definition of the component is found: the repository and
    /// the name of the component.
    pub fn location(&self) -> (place: Result<(String, String), TorbResolverErrors>)
        ensures
            place is Ok == (source_of(self.entry@) is Ok && component_of(
                self.kind@,
                self.entry@,
            ) is Ok),
            place is Ok ==> place->Ok_0.0@ == source_of(self.entry@)->Ok_0 && place->Ok_0.1@
                == component_of(self.kind@, self.entry@)->Ok_0,
            place is Err ==> place->Err_0 is CannotParseStackManifest,
    {
        let repo = match self.entry.get("source") {
            None => "torb-artifacts".to_owned(),
            Some(YamlValue::String(source)) => source.clone(),
            Some(_) => {
                return Err(TorbResolverErrors::CannotParseStackManifest);
            },
        };
        let kind = self.kind.as_str();
        if !str_eq(kind, "service") && !str_eq(kind, "project") {
            return Err(TorbResolverErrors::CannotParseStackManifest);
        }
        match self.entry.get(kind) {
            Some(YamlValue::String(name)) => Ok((repo, name.clone())),
            _ => Err(TorbResolverErrors::CannotParseStackManifest),
        }
    }
}

impl Resolver {
    /// The components that the stack asks for, in document order.
    pub fn component_requests(yaml: &YamlValue) -> (requests: Result<
        Vec<ComponentRequest>,
        TorbResolverErrors,
    >)
        ensures
            requests is Ok == components_of(yaml@) is Ok,
            requests is Ok ==> request_views(requests->Ok_0@) == components_of(yaml@)->Ok_0,
            requests is Err ==> requests->Err_0 is CannotParseStackManifest,
    {
        let top = match yaml {
            YamlValue::Mapping(top) => top,
            _ => {
                return Err(TorbResolverErrors::CannotParseStackManifest);
            },
        };
        proof {
            lemma_mapping_view(*top);
        }
        let mut requests: Vec<ComponentRequest> = Vec::new();
        let mut i: usize = 0;
        assert(request_views(requests@) =~= Seq::<RequestView>::empty());
        while i < top.len()
            invariant
                i <= top@.len(),
                yaml@ == YamlView::Mapping(entry_views(top@)),
                requests_upto(entry_views(top@), i as int) == Ok::<Seq<RequestView>, ()>(
                    request_views(requests@),
                ),
            decreases top@.len() - i,
        {
            assert(entry_views(top@)[i as int] == (top@[i as int].0@, top@[i as int].1@));
            let key = match &top[i].0 {
                YamlValue::String(key) => key,
                _ => {
                    proof {
                        assert(requests_upto(entry_views(top@), i + 1) is Err);
                        lemma_requests_stay_err(entry_views(top@), i + 1, top@.len() as int);
                    }
                    return Err(TorbResolverErrors::CannotParseStackManifest);
                },
            };
            proof {
                reveal_strlit("services");
                reveal_strlit("projects");
                assert("services"@ != "projects"@) by {
                    assert("services"@[0] != "projects"@[0]);
                }
            }
            let kind = if str_eq(key.as_str(), "services") {
                Some("service")
            } else if str_eq(key.as_str(), "projects") {
                Some("project")
            } else {
                None
            };
            match (kind, &top[i].1) {
                (Some(kind), YamlValue::Mapping(entries)) => {
                    proof {
                        lemma_mapping_view(*entries);
                    }
                    match push_named_requests(&mut requests, kind, entries) {
                        Ok(_) => {},
                        Err(_) => {
                            proof {
                                assert(requests_upto(entry_views(top@), i + 1) is Err);
                                lemma_requests_stay_err(
                                    entry_views(top@),
                                    i + 1,
                                    top@.len() as int,
                                );
                            }
                            return Err(TorbResolverErrors::CannotParseStackManifest);
                        },
                    }
                },
                _ => {},
            }
            i += 1;
        }
        Ok(requests)
    }

    /// Resolves every request with its definition and adds the node and its
    /// edges to the graph. Returns the names of the nodes whose provided
    /// inputs were discarded.
    pub fn walk_yaml(
        &self,
        graph: &mut StackGraph,
        requests: &Vec<ComponentRequest>,
        definitions: &Vec<LoadedDefinition>,
    ) -> (walked: Result<Vec<String>, TorbResolverErrors>)
        ensures
            walked is Ok == resolved_upto(
                nodes_of(*old(graph)),
                self.config.stack_name@,
                request_views(requests@),
                definition_views(definitions@),
                requests@.len() as int,
            ) is Ok,
            walked is Ok ==> Ok::<GraphNodes, LoadProblem>(nodes_of(*final(graph)))
                == resolved_upto(
                nodes_of(*old(graph)),
                self.config.stack_name@,
                request_views(requests@),
                definition_views(definitions@),
                requests@.len() as int,
            ),
            walked is Ok ==> *final(graph) == (StackGraph {
                services: final(graph).services,
                projects: final(graph).projects,
                incoming_edges: final(graph).incoming_edges,
                ..*old(graph)
            }),
            walked is Err ==> Err::<GraphNodes, LoadProblem>(walked->Err_0.problem())
                == resolved_upto(
                nodes_of(*old(graph)),
                self.config.stack_name@,
                request_views(requests@),
                definition_views(definitions@),
                requests@.len() as int,
            ),
    {
        let ghost start = nodes_of(*graph);
        let ghost name = self.config.stack_name@;
        let ghost wanted = request_views(requests@);
        let ghost given = definition_views(definitions@);
        let mut warned: Vec<String> = Vec::new();
        let mut i: usize = 0;
        while i < requests.len()
            invariant
                i <= requests@.len(),
                start == nodes_of(*old(graph)),
                name == self.config.stack_name@,
                wanted == request_views(requests@),
                given == definition_views(definitions@),
                resolved_upto(start, name, wanted, given, i as int) == Ok::<
                    GraphNodes,
                    LoadProblem,
                >(nodes_of(*graph)),
                *graph == (StackGraph {
                    services: graph.services,
                    projects: graph.projects,
                    incoming_edges: graph.incoming_edges,
                    ..*old(graph)
                }),
            decreases requests@.len() - i,
        {
            if i >= definitions.len() {
                proof {
                    lemma_resolved_stays_err(
                        start,
                        name,
                        wanted,
                        given,
                        i + 1,
                        requests@.len() as int,
                    );
                }
                return Err(TorbResolverErrors::MissingDefinition);
            }
            let request = &requests[i];
            let loaded = match Resolver::resolve_node(
                self.config.stack_name.as_str(),
                request.kind.as_str(),
                request.node_name.as_str(),
                &request.entry,
                definitions[i].definition.duplicate(),
                definitions[i].file_path.clone(),
            ) {
                Ok(loaded) => loaded,
                Err(e) => {
                    proof {
                        lemma_resolved_stays_err(
                            start,
                            name,
                            wanted,
                            given,
                            i + 1,
                            requests@.len() as int,
                        );
                    }
                    return Err(e);
                },
            };
            if loaded.inputs_discarded {
                warned.push(loaded.node.fqn.clone());
            }
            if str_eq(request.kind.as_str(), "service") {
                graph.add_service(&loaded.node);
            } else {
                graph.add_project(&loaded.node);
            }
            graph.add_all_incoming_edges_downstream(self.config.stack_name.clone(), &loaded.node);
            i += 1;
        }
        Ok(warned)
    }

    /// Makes the graph of the stack that `yaml` describes.
    pub fn build_graph(
        &self,
        yaml: &YamlValue,
        provenance: Provenance,
        definitions: &Vec<LoadedDefinition>,
    ) -> (built: Result<(StackGraph, Vec<String>), TorbResolverErrors>)
        ensures
            built is Ok == stack_problem(
                self.config.stack_name@,
                yaml@,
                definition_views(definitions@),
            ) is None,
            built is Ok ==> is_graph_of(
                built->Ok_0.0,
                self.config.stack_name@,
                yaml@,
                provenance,
                definition_views(definitions@),
            ),
            built is Err ==> Some(built->Err_0.problem()) == stack_problem(
                self.config.stack_name@,
                yaml@,
                definition_views(definitions@),
            ),
    {
        let name = match text_from(yaml, "name") {
            Some(name) => normalize_name(name.as_str()),
            None => {
                return Err(TorbResolverErrors::CannotParseStackManifest);
            },
        };
        let version = match text_from(yaml, "version") {
            Some(version) => version,
            None => {
                return Err(TorbResolverErrors::CannotParseStackManifest);
            },
        };
        let kind = match text_from(yaml, "kind") {
            Some(kind) => kind,
            None => {
                return Err(TorbResolverErrors::CannotParseStackManifest);
            },
        };
        let namespace = text_from(yaml, "namespace");
        let release = text_from(yaml, "release");
        let repositories = match optional_strings_from(yaml, "repositories") {
            Ok(repositories) => repositories,
            Err(_) => {
                return Err(TorbResolverErrors::CannotParseStackManifest);
            },
        };
        let watcher = match WatcherConfig::from_yaml(yaml.get("watcher")) {
            Ok(watcher) => watcher,
            Err(_) => {
                return Err(TorbResolverErrors::CannotParseStackManifest);
            },
        };
        let requests = match Resolver::component_requests(yaml) {
            Ok(requests) => requests,
            Err(e) => {
                return Err(e);
            },
        };
        let Provenance { tf_version, helm_version, commits, meta } = provenance;
        let mut graph = StackGraph::new(
            name,
            kind,
            version,
            commits,
            tf_version,
            helm_version,
            meta,
            namespace,
            release,
            repositories,
            watcher,
        );
        proof {
            assert(nodes_view(graph.services) =~= Seq::<(Seq<char>, NodeView)>::empty());
            assert(nodes_view(graph.projects) =~= Seq::<(Seq<char>, NodeView)>::empty());
            assert(edges_view(graph.incoming_edges) =~= Seq::<
                (Seq<char>, Seq<Seq<char>>),
            >::empty());
        }
        match self.walk_yaml(&mut graph, &requests, definitions) {
            Ok(warned) => Ok((graph, warned)),
            Err(e) => Err(e),
        }
    }

    /// Resolves the stack: makes its graph from the stack document and the
    /// definitions of its components, one for every request of
    /// `component_requests`, in their order.
    pub fn resolve(&self, provenance: Provenance, definitions: &Vec<LoadedDefinition>) -> (resolved:
        Result<(StackGraph, Vec<String>), TorbResolverErrors>)
        ensures
            resolved is Ok == stack_problem(
                self.config.stack_name@,
                self.stack@,
                definition_views(definitions@),
            ) is None,
            resolved is Ok ==> is_graph_of(
                resolved->Ok_0.0,
                self.config.stack_name@,
                self.stack@,
                provenance,
                definition_views(definitions@),
            ),
            resolved is Err ==> Some(resolved->Err_0.problem()) == stack_problem(
                self.config.stack_name@,
                self.stack@,
                definition_views(definitions@),
            ),
    {
        self.build_graph(&self.stack, provenance, definitions)
    }
}

/// What stops the resolution of the stack that a YAML text describes.
pub open spec fn text_problem(stack_yaml: Seq<char>, definitions: Seq<(NodeView, Seq<char>)>) -> Option<
    LoadProblem,
> {
    match yaml_parsed(stack_yaml) {
        None => Some(LoadProblem::CannotParseStackManifest),
        Some(yaml) => if text_if_string(yaml, "name"@) is None {
            Some(LoadProblem::CannotParseStackManifest)
        } else {
            stack_problem(normalized(text_if_string(yaml, "name"@)->0), yaml, definitions)
        },
    }
}

/// Reads a stack document and lists the components it asks for.
pub fn stack_components(stack_yaml: &String) -> (requests: Result<
    Vec<ComponentRequest>,
    TorbResolverErrors,
>)
    ensures
        requests is Ok == (yaml_parsed(stack_yaml@) is Some && components_of(
            yaml_parsed(stack_yaml@)->0,
        ) is Ok),
        requests is Ok ==> request_views(requests->Ok_0@) == components_of(
            yaml_parsed(stack_yaml@)->0,
        )->Ok_0,
        requests is Err ==> requests->Err_0 is CannotParseStackManifest,
{
    match YamlValue::parse(stack_yaml.as_str()) {
        Some(yaml) => Resolver::component_requests(&yaml),
        None => Err(TorbResolverErrors::CannotParseStackManifest),
    }
}

/// Resolves the stack that a YAML text describes.
pub fn resolve_stack(
    stack_yaml: &String,
    provenance: Provenance,
    definitions: &Vec<LoadedDefinition>,
) -> (resolved: Result<(StackGraph, Vec<String>), TorbResolverErrors>)
    ensures
        resolved is Ok == text_problem(stack_yaml@, definition_views(definitions@)) is None,
        resolved is Ok ==> is_graph_of(
            resolved->Ok_0.0,
            normalized(text_if_string(yaml_parsed(stack_yaml@)->0, "name"@)->0),
            yaml_parsed(stack_yaml@)->0,
            provenance,
            definition_views(definitions@),
        ),
        resolved is Err ==> Some(resolved->Err_0.problem()) == text_problem(
            stack_yaml@,
            definition_views(definitions@),
        ),
{
    let yaml = match YamlValue::parse(stack_yaml.as_str()) {
        Some(yaml) => yaml,
        None => {
            return Err(TorbResolverErrors::CannotParseStackManifest);
        },
    };
    let stack_name = match text_from(&yaml, "name") {
        Some(name) => normalize_name(name.as_str()),
        None => {
            return Err(TorbResolverErrors::CannotParseStackManifest);
        },
    };
    let config = ResolverConfig::new(stack_name, yaml);
    let resolver = Resolver::new(&config);
    resolver.resolve(provenance, definitions)
}

} // verus!
