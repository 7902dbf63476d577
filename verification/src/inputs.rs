//! Resolution of the addresses embedded in a node: in its values, in its
//! mapped inputs and in the lines of its init script.

use crate::address::{address_of_input, InputAddress};
use crate::collections::{found, OrderedMap};
use crate::node::{mapped_view, ArtifactNodeRepr};
use crate::text::{
    chars_of, find_either, find_from, find_pattern, first_of, has_prefix, lemma_find_from,
    lemma_first_of, opt_text, starts_with,
};
use crate::value::{json_text, InputView, TorbInput};
use crate::yaml::{
    entry_views, lemma_mapping_view, lemma_sequence_view, yaml_parsed, yaml_printed, yaml_settled,
    yaml_views, YamlValue, YamlView,
};
use vstd::prelude::*;

verus! {

/// The word that starts a reference to one of the node's own inputs.
pub const INIT_TOKEN: &'static str = "TORB";

/// What can go wrong while the addresses of a node are resolved.
#[derive(Debug, PartialEq)]
pub enum TorbInputResolverErrors {
    /// A token of an init script names no input of the node, or names one
    /// whose value cannot be written into a script.
    UnresolvedInitToken { token: String },
    /// The resolved values have no YAML text.
    ValuesNotPrintable,
}

/// The input that a token names: the rest of the token after
/// `TORB.inputs.`.
pub open spec fn token_key(token: Seq<char>) -> Option<Seq<char>> {
    if has_prefix(token, "TORB.inputs."@) {
        Some(token.subrange("TORB.inputs."@.len() as int, token.len() as int))
    } else {
        None
    }
}

/// The value of the mapped input that a token names, where the node has
/// that input.
pub open spec fn token_input(
    token: Seq<char>,
    inputs: Seq<(Seq<char>, (Seq<char>, InputView))>,
) -> Option<InputView> {
    match token_key(token) {
        Some(key) => match found(inputs, key) {
            Some(entry) => Some(entry.1),
            None => None,
        },
        None => None,
    }
}

/// The value that a token stands for in a script: that of the mapped input
/// it names, where the node has that input and its value holds no array
/// inside an array.
pub open spec fn token_value(
    token: Seq<char>,
    inputs: Seq<(Seq<char>, (Seq<char>, InputView))>,
) -> Option<InputView> {
    match token_input(token, inputs) {
        Some(value) => if value.is_flat() {
            Some(value)
        } else {
            None
        },
        None => None,
    }
}

/// The first token, from position `from` on, that stands for nothing.
pub open spec fn unresolved_from(
    line: Seq<char>,
    inputs: Seq<(Seq<char>, (Seq<char>, InputView))>,
    from: int,
) -> Option<Seq<char>>
    decreases line.len() - from,
{
    if from < 0 || from > line.len() {
        None
    } else {
        match find_from(line, "TORB"@, from) {
            None => None,
            Some(start) => {
                let end = token_end(line, start);
                if token_value(line.subrange(start, end), inputs) is None {
                    Some(line.subrange(start, end))
                } else if from < end <= line.len() {
                    unresolved_from(line, inputs, end)
                } else {
                    None
                }
            },
        }
    }
}

/// Where the token that starts at `start` ends: at the next space or `/`,
/// or at the end of the line.
pub open spec fn token_end(line: Seq<char>, start: int) -> int {
    first_of(line, ' ', '/', start)
}

/// The line from position `from` on, with every token replaced by the JSON
/// text of the value it stands for; `None` where some token stands for
/// nothing. Tokens are taken from left to right, and what was put in place
/// of a token is not looked through again.
pub open spec fn interpolated_from(
    line: Seq<char>,
    inputs: Seq<(Seq<char>, (Seq<char>, InputView))>,
    from: int,
) -> Option<Seq<char>>
    decreases line.len() - from,
{
    if from < 0 || from > line.len() {
        None
    } else {
        match find_from(line, "TORB"@, from) {
            None => Some(line.subrange(from, line.len() as int)),
            Some(start) => {
                let end = token_end(line, start);
                match token_value(line.subrange(start, end), inputs) {
                    None => None,
                    Some(value) => {
                        if from < end <= line.len() {
                            match interpolated_from(line, inputs, end) {
                                None => None,
                                Some(rest) => Some(
                                    line.subrange(from, start) + json_text(value) + rest,
                                ),
                            }
                        } else {
                            None
                        }
                    },
                }
            },
        }
    }
}

/// A line of an init script with its tokens resolved.
pub open spec fn interpolated(
    line: Seq<char>,
    inputs: Seq<(Seq<char>, (Seq<char>, InputView))>,
) -> Option<Seq<char>> {
    interpolated_from(line, inputs, 0)
}

/// A token reaches from its start at least over the word `TORB`, and ends
/// inside the line.
pub proof fn lemma_token_bounds(line: Seq<char>, from: int)
    requires
        0 <= from <= line.len(),
        find_from(line, "TORB"@, from) is Some,
    ensures
        ({
            let start = find_from(line, "TORB"@, from)->0;
            from <= start < token_end(line, start) <= line.len()
        }),
{
    reveal_strlit("TORB");
    lemma_find_from(line, "TORB"@, from);
    let start = find_from(line, "TORB"@, from)->0;
    lemma_first_of(line, ' ', '/', start);
    assert(line.subrange(start, start + 4)[0] == 'T');
    assert(line[start] == 'T');
}

/// The value of the mapped input that `token` names.
pub fn input_of_token<'a>(inputs: &'a OrderedMap<(String, TorbInput)>, token: &str) -> (found:
    Option<&'a TorbInput>)
    ensures
        found is Some == token_input(token@, mapped_view(*inputs)) is Some,
        found is Some ==> found->0@ == token_input(token@, mapped_view(*inputs))->0,
{
    let token_chars = chars_of(token);
    let marker = chars_of("TORB.inputs.");
    if !starts_with(&token_chars, &marker) {
        return None;
    }
    let key = token.substring_char(marker.len(), token_chars.len());
    inputs.note_shape();
    proof {
        inputs.lemma_entries(|v: (String, TorbInput)| (v.0@, v.1@));
    }
    match inputs.get(key) {
        Some(entry) => Some(&entry.1),
        None => None,
    }
}

/// Resolves the tokens of one line of an init script against the mapped
/// inputs of a node.
pub fn interpolate_line(inputs: &OrderedMap<(String, TorbInput)>, line: &str) -> (resolved: Result<
    String,
    TorbInputResolverErrors,
>)
    ensures
        resolved is Ok == interpolated(line@, mapped_view(*inputs)) is Some,
        resolved is Ok ==> resolved->Ok_0@ == interpolated(line@, mapped_view(*inputs))->0,
        resolved is Err ==> resolved->Err_0 is UnresolvedInitToken
            && unresolved_from(line@, mapped_view(*inputs), 0) == Some(resolved->Err_0->token@),
{
    let chars = chars_of(line);
    let pattern = chars_of(INIT_TOKEN);
    let mut out = String::new();
    let mut from: usize = 0;
    loop
        invariant
            chars@ == line@,
            pattern@ == "TORB"@,
            from <= line@.len(),
            interpolated(line@, mapped_view(*inputs)) is Some == interpolated_from(
                line@,
                mapped_view(*inputs),
                from as int,
            ) is Some,
            interpolated_from(line@, mapped_view(*inputs), from as int) is Some ==> interpolated(
                line@,
                mapped_view(*inputs),
            )->0 == out@ + interpolated_from(line@, mapped_view(*inputs), from as int)->0,
            unresolved_from(line@, mapped_view(*inputs), 0) == unresolved_from(line@, mapped_view(*inputs), from as int),
        decreases line@.len() - from,
    {
        match find_pattern(&chars, &pattern, from) {
            None => {
                out.append(line.substring_char(from, chars.len()));
                return Ok(out);
            },
            Some(start) => {
                proof {
                    lemma_token_bounds(line@, from as int);
                }
                let end = find_either(&chars, ' ', '/', start);
                let token = line.substring_char(start, end);
                let value = match input_of_token(inputs, token) {
                    Some(value) => value,
                    None => {
                        return Err(
                            TorbInputResolverErrors::UnresolvedInitToken { token: token.to_owned() },
                        );
                    },
                };
                if !value.is_flat() {
                    return Err(
                        TorbInputResolverErrors::UnresolvedInitToken { token: token.to_owned() },
                    );
                }
                let ghost before = out@;
                out.append(line.substring_char(from, start));
                out.append(value.serialize_for_init().as_str());
                proof {
                    let rest = interpolated_from(line@, mapped_view(*inputs), end as int);
                    if rest is Some {
                        assert(before + (line@.subrange(from as int, start as int) + json_text(
                            value@,
                        ) + rest->0) =~= out@ + rest->0);
                    }
                }
                from = end;
            },
        }
    }
}

/// Whether `arg` is what reading `input` as an address gives: the address,
/// or the value itself where it spells none.
pub open spec fn parsed_as(arg: Result<InputAddress, TorbInput>, input: InputView) -> bool {
    match arg {
        Ok(address) => address_of_input(input) == Some(address@),
        Err(value) => address_of_input(input) is None && value@ == input,
    }
}

/// Whether `answer` is what `f` may return for the mapped input `key` with
/// the value `input`.
pub open spec fn input_answer<U: Fn(&String, Result<InputAddress, TorbInput>) -> String>(
    f: U,
    key: Seq<char>,
    input: InputView,
    answer: Seq<char>,
) -> bool {
    exists|k: String, arg: Result<InputAddress, TorbInput>, ret: String|
        k@ == key && parsed_as(arg, input) && f.ensures((&k, arg), ret) && ret@ == answer
}

/// Calls `f` once for every mapped input, in order, with the input's key
/// and its value read as an address; returns each key with the answer.
pub fn resolve_mapped_inputs<U: Fn(&String, Result<InputAddress, TorbInput>) -> String>(
    inputs: &OrderedMap<(String, TorbInput)>,
    f: &U,
) -> (out: Vec<(String, String)>)
    requires
        forall|k: &String, arg: Result<InputAddress, TorbInput>| #[trigger] f.requires((k, arg)),
    ensures
        out@.len() == inputs.keys().len(),
        forall|i: int|
            0 <= i < out@.len() ==> (#[trigger] out@[i]).0@ == inputs.keys()[i] && input_answer(
                *f,
                inputs.keys()[i],
                inputs.values()[i].1@,
                out@[i].1@,
            ),
{
    let n = inputs.len();
    let mut out: Vec<(String, String)> = Vec::new();
    let mut i: usize = 0;
    while i < n
        invariant
            i <= n,
            n == inputs.keys().len(),
            n == inputs.values().len(),
            out@.len() == i,
            forall|k: &String, arg: Result<InputAddress, TorbInput>| #[trigger] f.requires((k, arg)),
            forall|j: int|
                0 <= j < i ==> (#[trigger] out@[j]).0@ == inputs.keys()[j] && input_answer(
                    *f,
                    inputs.keys()[j],
                    inputs.values()[j].1@,
                    out@[j].1@,
                ),
        decreases n - i,
    {
        let key = inputs.key_at(i).clone();
        let arg = InputAddress::try_from_input(&inputs.value_at(i).1);
        let ghost given = arg;
        let answer = f(&key, arg);
        assert(input_answer(*f, inputs.keys()[i as int], inputs.values()[i as int].1@, answer@))
            by {
            assert(key@ == inputs.keys()[i as int] && parsed_as(
                given,
                inputs.values()[i as int].1@,
            ) && f.ensures((&key, given), answer) && answer@ == answer@);
        }
        out.push((key, answer));
        i += 1;
    }
    out
}

/// Whether `answer` is what `f` may return for the text `text` read as an
/// address.
pub open spec fn value_answer<F: Fn(Result<InputAddress, TorbInput>) -> String>(
    f: F,
    text: Seq<char>,
    answer: Seq<char>,
) -> bool {
    exists|arg: Result<InputAddress, TorbInput>, ret: String|
        parsed_as(arg, InputView::String(text)) && f.ensures((arg,), ret) && ret@ == answer
}

/// Whether `output` is `input` with its references resolved by `f`: every
/// string that starts with `self.` is replaced by what `f` returns for it,
/// mappings and sequences keep their shape and their keys, numbers,
/// booleans and other strings stay, and null stays null.
pub open spec fn resolved_by<F: Fn(Result<InputAddress, TorbInput>) -> String>(
    f: F,
    input: YamlView,
    output: YamlView,
) -> bool
    decreases input,
{
    match input {
        YamlView::String(text) => if has_prefix(text, "self."@) {
            output is String && value_answer(f, text, output->String_0)
        } else {
            output == input
        },
        YamlView::Sequence(items) => {
            &&& output is Sequence
            &&& output->Sequence_0.len() == items.len()
            &&& forall|i: int|
                0 <= i < items.len() ==> resolved_by(f, items[i], #[trigger] output->Sequence_0[i])
        },
        YamlView::Mapping(entries) => {
            &&& output is Mapping
            &&& output->Mapping_0.len() == entries.len()
            &&& forall|i: int|
                0 <= i < entries.len() ==> (#[trigger] output->Mapping_0[i]).0 == entries[i].0
                    && resolved_by(f, entries[i].1, output->Mapping_0[i].1)
        },
        _ => output == input,
    }
}

/// Resolves the references in a YAML value by `f`.
pub fn resolve_values_in<F: Fn(Result<InputAddress, TorbInput>) -> String>(
    value: &YamlValue,
    f: &F,
) -> (out: YamlValue)
    requires
        forall|arg: Result<InputAddress, TorbInput>| #[trigger] f.requires((arg,)),
    ensures
        resolved_by(*f, value@, out@),
    decreases value,
{
    match value {
        YamlValue::String(text) => {
            let chars = chars_of(text.as_str());
            let prefix = chars_of("self.");
            if starts_with(&chars, &prefix) {
                let arg = InputAddress::try_from(text.as_str());
                let ghost given = arg;
                let answer = f(arg);
                assert(value_answer(*f, text@, answer@)) by {
                    assert(parsed_as(given, InputView::String(text@)) && f.ensures(
                        (given,),
                        answer,
                    ) && answer@ == answer@);
                }
                YamlValue::String(answer)
            } else {
                YamlValue::String(text.clone())
            }
        },
        YamlValue::Mapping(entries) => {
            let mut out: Vec<(YamlValue, YamlValue)> = Vec::new();
            let mut i: usize = 0;
            while i < entries.len()
                invariant
                    *value == YamlValue::Mapping(*entries),
                    i <= entries@.len(),
                    out@.len() == i,
                    forall|arg: Result<InputAddress, TorbInput>| #[trigger] f.requires((arg,)),
                    forall|j: int|
                        0 <= j < i ==> (#[trigger] out@[j]).0@ == entries@[j].0@ && resolved_by(
                            *f,
                            entries@[j].1@,
                            out@[j].1@,
                        ),
                decreases entries@.len() - i,
            {
                assert(decreases_to!(value => value->Mapping_0));
                assert(decreases_to!(value->Mapping_0 => value->Mapping_0[i as int]));
                assert(decreases_to!(value->Mapping_0[i as int] => value->Mapping_0[i as int].0));
                assert(decreases_to!(value->Mapping_0[i as int] => value->Mapping_0[i as int].1));
                let key = entries[i].0.duplicate();
                let resolved = resolve_values_in(&entries[i].1, f);
                out.push((key, resolved));
                i += 1;
            }
            proof {
                lemma_mapping_view(out);
                lemma_mapping_view(*entries);
                let result = YamlValue::Mapping(out)@;
                assert forall|j: int| 0 <= j < entry_views(entries@).len() implies (
                #[trigger] result->Mapping_0[j]).0 == entry_views(entries@)[j].0 && resolved_by(
                    *f,
                    entry_views(entries@)[j].1,
                    result->Mapping_0[j].1,
                ) by {
                    assert(out@[j].0@ == entries@[j].0@);
                }
            }
            YamlValue::Mapping(out)
        },
        YamlValue::Sequence(items) => {
            let mut out: Vec<YamlValue> = Vec::new();
            let mut i: usize = 0;
            while i < items.len()
                invariant
                    *value == YamlValue::Sequence(*items),
                    i <= items@.len(),
                    out@.len() == i,
                    forall|arg: Result<InputAddress, TorbInput>| #[trigger] f.requires((arg,)),
                    forall|j: int|
                        0 <= j < i ==> resolved_by(*f, items@[j]@, #[trigger] out@[j]@),
                decreases items@.len() - i,
            {
                assert(decreases_to!(value => value->Sequence_0));
                assert(decreases_to!(value->Sequence_0 => value->Sequence_0[i as int]));
                let resolved = resolve_values_in(&items[i], f);
                out.push(resolved);
                i += 1;
            }
            proof {
                lemma_sequence_view(out);
                lemma_sequence_view(*items);
                let result = YamlValue::Sequence(out)@;
                assert forall|j: int| 0 <= j < yaml_views(items@).len() implies resolved_by(
                    *f,
                    yaml_views(items@)[j],
                    #[trigger] result->Sequence_0[j],
                ) by {
                    assert(resolved_by(*f, items@[j]@, out@[j]@));
                }
            }
            YamlValue::Sequence(out)
        },
        YamlValue::Number(n) => YamlValue::Number(n.duplicate()),
        YamlValue::Bool(b) => YamlValue::Bool(*b),
        YamlValue::Null => YamlValue::Null,
    }
}

/// The document that a node's values spell; null where they spell none.
pub open spec fn values_document(values: Seq<char>) -> YamlView {
    match yaml_parsed(values) {
        Some(document) => document,
        None => YamlView::Null,
    }
}

/// Reads the values of a node.
pub fn read_values(values: &str) -> (document: YamlValue)
    ensures
        document@ == values_document(values@),
{
    match YamlValue::parse(values) {
        Some(document) => document,
        None => YamlValue::Null,
    }
}

/// Resolves the addresses embedded in a node.
pub struct InputResolver<'a, F, U> {
    pub node: &'a ArtifactNodeRepr,
    pub values_fn: Option<F>,
    pub inputs_fn: Option<U>,
    pub inits_fn: Option<bool>,
}

/// No resolution of init scripts.
pub const NO_INITS_FN: Option<bool> = None;

/// What resolving a node gives: the text of its resolved values, its mapped
/// inputs with their answers, and the resolved lines of its init script,
/// each where it was asked for.
#[derive(Debug, PartialEq)]
pub struct Resolved {
    pub values: Option<String>,
    pub inputs: Option<Vec<(String, String)>>,
    pub inits: Option<Vec<String>>,
}

/// Whether `lines` are the lines of `steps` with their tokens resolved.
pub open spec fn lines_resolved(
    steps: Seq<String>,
    inputs: Seq<(Seq<char>, (Seq<char>, InputView))>,
    lines: Seq<String>,
) -> bool {
    &&& lines.len() == steps.len()
    &&& forall|i: int|
        0 <= i < steps.len() ==> interpolated(steps[i]@, inputs) == Some((#[trigger] lines[i])@)
}

/// The first line, from position `from` on, that has a token which stands
/// for nothing.
pub open spec fn first_unresolved_line(
    steps: Seq<String>,
    inputs: Seq<(Seq<char>, (Seq<char>, InputView))>,
    from: int,
) -> Option<int>
    decreases steps.len() - from,
{
    if from < 0 || from >= steps.len() {
        None
    } else if interpolated(steps[from]@, inputs) is None {
        Some(from)
    } else {
        first_unresolved_line(steps, inputs, from + 1)
    }
}

/// Whether `text` is the YAML text of the values `values` with their
/// references resolved by `f`.
pub open spec fn values_text_by<F: Fn(Result<InputAddress, TorbInput>) -> String>(
    f: F,
    values: Seq<char>,
    text: Option<Seq<char>>,
) -> bool {
    exists|output: YamlView|
        resolved_by(f, values_document(values), output) && yaml_printed(yaml_settled(output))
            == text
}

impl<'a, F, U> InputResolver<'a, F, U> where
    F: Fn(Result<InputAddress, TorbInput>) -> String,
    U: Fn(&String, Result<InputAddress, TorbInput>) -> String,
 {
    /// Whether every function that is there may be called on anything.
    pub open spec fn callable(&self) -> bool {
        &&& self.values_fn is Some ==> forall|arg: Result<InputAddress, TorbInput>| #[trigger]
            self.values_fn->0.requires((arg,))
        &&& self.inputs_fn is Some ==> forall|k: &String, arg: Result<InputAddress, TorbInput>| #[trigger]
            self.inputs_fn->0.requires((k, arg))
    }

    /// The lines of the node's init script with their tokens resolved from
    /// the node's own mapped inputs.
    pub fn resolve_node_init_script_inputs(&self) -> (lines: Result<
        Vec<String>,
        TorbInputResolverErrors,
    >)
        requires
            self.node.init_step is Some,
        ensures
            lines is Ok == first_unresolved_line(
                self.node.init_step->0@,
                mapped_view(self.node.mapped_inputs),
                0,
            ) is None,
            lines is Ok ==> lines_resolved(
                self.node.init_step->0@,
                mapped_view(self.node.mapped_inputs),
                lines->Ok_0@,
            ),
            lines is Err ==> lines->Err_0 is UnresolvedInitToken && unresolved_from(
                self.node.init_step->0@[first_unresolved_line(
                    self.node.init_step->0@,
                    mapped_view(self.node.mapped_inputs),
                    0,
                )->0]@,
                mapped_view(self.node.mapped_inputs),
                0,
            ) == Some(lines->Err_0->token@),
    {
        let steps = match &self.node.init_step {
            Some(steps) => steps,
            None => {
                return Ok(Vec::new());
            },
        };
        let mut lines: Vec<String> = Vec::new();
        let mut i: usize = 0;
        while i < steps.len()
            invariant
                self.node.init_step == Some(*steps),
                i <= steps@.len(),
                lines@.len() == i,
                first_unresolved_line(steps@, mapped_view(self.node.mapped_inputs), 0) == first_unresolved_line(
                    steps@,
                    mapped_view(self.node.mapped_inputs),
                    i as int,
                ),
                forall|j: int|
                    0 <= j < i ==> interpolated(steps@[j]@, mapped_view(self.node.mapped_inputs)) == Some(
                        (#[trigger] lines@[j])@,
                    ),
            decreases steps@.len() - i,
        {
            match self.resolve_torb_value_interpolation(&steps[i]) {
                Ok(line) => {
                    lines.push(line);
                },
                Err(e) => {
                    return Err(e);
                },
            }
            i += 1;
        }
        Ok(lines)
    }

    /// One line of an init script with its tokens resolved.
    pub fn resolve_torb_value_interpolation(&self, script_step: &String) -> (resolved: Result<
        String,
        TorbInputResolverErrors,
    >)
        ensures
            resolved is Ok == interpolated(script_step@, mapped_view(self.node.mapped_inputs)) is Some,
            resolved is Ok ==> resolved->Ok_0@ == interpolated(
                script_step@,
                mapped_view(self.node.mapped_inputs),
            )->0,
            resolved is Err ==> resolved->Err_0 is UnresolvedInitToken && unresolved_from(
                script_step@,
                mapped_view(self.node.mapped_inputs),
                0,
            ) == Some(resolved->Err_0->token@),
    {
        interpolate_line(&self.node.mapped_inputs, script_step.as_str())
    }

    /// The value of the mapped input that a token of the form
    /// `TORB.inputs.<key>` names; `None` for any other token and for a key
    /// the node lacks.
    pub fn resolve_inputs_in_init_step(&self, token: String) -> (value: Option<TorbInput>)
        ensures
            value is Some == token_input(token@, mapped_view(self.node.mapped_inputs)) is Some,
            value is Some ==> value->0@ == token_input(token@, mapped_view(self.node.mapped_inputs))->0,
    {
        match input_of_token(&self.node.mapped_inputs, token.as_str()) {
            Some(value) => Some(value.duplicate()),
            None => None,
        }
    }

    /// The node's mapped inputs, each key with the answer of the inputs
    /// function.
    pub fn resolve_inputs_in_mapped_inputs(&self) -> (out: Vec<(String, String)>)
        requires
            self.inputs_fn is Some,
            self.callable(),
        ensures
            out@.len() == self.node.mapped_inputs.keys().len(),
            forall|i: int|
                0 <= i < out@.len() ==> (#[trigger] out@[i]).0@ == self.node.mapped_inputs.keys()[i]
                    && input_answer(
                    self.inputs_fn->0,
                    self.node.mapped_inputs.keys()[i],
                    self.node.mapped_inputs.values()[i].1@,
                    out@[i].1@,
                ),
    {
        match &self.inputs_fn {
            Some(f) => resolve_mapped_inputs(&self.node.mapped_inputs, f),
            None => Vec::new(),
        }
    }

    /// The YAML text of the node's values with their references resolved by
    /// the values function; `None` where the resolved values have no text.
    pub fn resolve_inputs_in_values(&self) -> (text: Option<String>)
        requires
            self.values_fn is Some,
            self.callable(),
        ensures
            values_text_by(self.values_fn->0, self.node.values@, opt_text(text)),
    {
        match &self.values_fn {
            Some(f) => {
                let document = read_values(self.node.values.as_str());
                let resolved = self.resolve_inputs_in_helm_values(&document);
                let text = resolved.to_text();
                assert(resolved_by(*f, values_document(self.node.values@), resolved@)
                    && yaml_printed(yaml_settled(resolved@)) == opt_text(text));
                text
            },
            None => None,
        }
    }

    /// A YAML value with its references resolved by the values function.
    pub fn resolve_inputs_in_helm_values(&self, value: &YamlValue) -> (out: YamlValue)
        requires
            self.values_fn is Some,
            self.callable(),
        ensures
            resolved_by(self.values_fn->0, value@, out@),
    {
        match &self.values_fn {
            Some(f) => resolve_values_in(value, f),
            None => YamlValue::Null,
        }
    }

    /// Resolves what is asked for: the values where a values function is
    /// given, the mapped inputs where an inputs function is given, and the
    /// init script where `inits_fn` is set.
    pub fn resolve(
        node: &'a ArtifactNodeRepr,
        values_fn: Option<F>,
        inputs_fn: Option<U>,
        inits_fn: Option<bool>,
    ) -> (resolved: Result<Resolved, TorbInputResolverErrors>)
        requires
            values_fn is Some ==> forall|arg: Result<InputAddress, TorbInput>| #[trigger]
                values_fn->0.requires((arg,)),
            inputs_fn is Some ==> forall|k: &String, arg: Result<InputAddress, TorbInput>| #[trigger]
                inputs_fn->0.requires((k, arg)),
            inits_fn is Some ==> node.init_step is Some,
        ensures
            resolved is Ok ==> {
                let got = resolved->Ok_0;
                &&& got.values is Some == values_fn is Some
                &&& values_fn is Some ==> values_text_by(
                    values_fn->0,
                    node.values@,
                    Some(got.values->0@),
                )
                &&& got.inputs is Some == inputs_fn is Some
                &&& inputs_fn is Some ==> got.inputs->0@.len() == node.mapped_inputs.keys().len()
                    && forall|i: int|
                    0 <= i < got.inputs->0@.len() ==> (#[trigger] got.inputs->0@[i]).0@
                        == node.mapped_inputs.keys()[i] && input_answer(
                        inputs_fn->0,
                        node.mapped_inputs.keys()[i],
                        node.mapped_inputs.values()[i].1@,
                        got.inputs->0@[i].1@,
                    )
                &&& got.inits is Some == inits_fn is Some
                &&& inits_fn is Some ==> lines_resolved(
                    node.init_step->0@,
                    mapped_view(node.mapped_inputs),
                    got.inits->0@,
                )
            },
            resolved is Err ==> {
                ||| resolved->Err_0 is ValuesNotPrintable && values_fn is Some && values_text_by(
                    values_fn->0,
                    node.values@,
                    None,
                )
                ||| resolved->Err_0 is UnresolvedInitToken && inits_fn is Some
                    && first_unresolved_line(
                    node.init_step->0@,
                    mapped_view(node.mapped_inputs),
                    0,
                ) is Some && unresolved_from(
                    node.init_step->0@[first_unresolved_line(
                        node.init_step->0@,
                        mapped_view(node.mapped_inputs),
                        0,
                    )->0]@,
                    mapped_view(node.mapped_inputs),
                    0,
                ) == Some(resolved->Err_0->token@)
            },
            values_fn is None && (inits_fn is None || first_unresolved_line(
                node.init_step->0@,
                mapped_view(node.mapped_inputs),
                0,
            ) is None) ==> resolved is Ok,
    {
        let resolver = InputResolver { node, values_fn, inputs_fn, inits_fn };
        let values = if resolver.values_fn.is_some() {
            match resolver.resolve_inputs_in_values() {
                Some(text) => Some(text),
                None => {
                    return Err(TorbInputResolverErrors::ValuesNotPrintable);
                },
            }
        } else {
            None
        };
        let inputs = if resolver.inputs_fn.is_some() {
            Some(resolver.resolve_inputs_in_mapped_inputs())
        } else {
            None
        };
        let inits = if resolver.inits_fn.is_some() {
            match resolver.resolve_node_init_script_inputs() {
                Ok(lines) => Some(lines),
                Err(e) => {
                    return Err(e);
                },
            }
        } else {
            None
        };
        Ok(Resolved { values, inputs, inits })
    }
}

} // verus!
