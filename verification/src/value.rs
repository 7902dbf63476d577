//! The typed values a component takes as inputs, and the declaration a
//! component makes for each input.

use crate::text::{join, joined, texts};
use vstd::prelude::*;

verus! {

/// `serde_yaml::Number`, taken as it is.
#[verifier::external_type_specification]
#[verifier::external_body]
pub struct ExYamlNumber(serde_yaml::Number);

/// The JSON text of a number of `serde_yaml`.
pub uninterp spec fn number_json(number: serde_yaml::Number) -> Seq<char>;

/// The number that a text spells in YAML, if it spells one.
pub uninterp spec fn number_parsed(text: Seq<char>) -> Option<serde_yaml::Number>;

/// `serde_json::to_string` on a number of `serde_yaml`.
#[verifier::external_body]
fn number_to_json(number: &serde_yaml::Number) -> (out: String)
    ensures
        out@ == number_json(*number),
{
    serde_json::to_string(number).unwrap_or_default()
}

/// `Clone::clone` of a number of `serde_yaml`: the copy is the same number.
#[verifier::external_body]
fn number_copy(number: &serde_yaml::Number) -> (out: serde_yaml::Number)
    ensures
        out == *number,
{
    number.clone()
}

/// `serde_yaml::from_str`, read as a number.
#[verifier::external_body]
fn number_from_text(text: &str) -> (out: Option<serde_yaml::Number>)
    ensures
        out == number_parsed(text@),
{
    serde_yaml::from_str::<serde_yaml::Number>(text).ok()
}

/// A floating-point number, held as `serde_yaml` holds it.
#[derive(Debug, PartialEq)]
pub struct TorbFloat {
    pub number: serde_yaml::Number,
}

impl View for TorbFloat {
    type V = serde_yaml::Number;

    open spec fn view(&self) -> serde_yaml::Number {
        self.number
    }
}

impl TorbFloat {
    /// The number that `text` spells in YAML.
    pub fn parse(text: &str) -> (parsed: Option<TorbFloat>)
        ensures
            parsed is Some == number_parsed(text@) is Some,
            parsed is Some ==> parsed->0@ == number_parsed(text@)->0,
    {
        match number_from_text(text) {
            Some(number) => Some(TorbFloat { number }),
            None => None,
        }
    }

    /// The number as JSON text.
    pub fn text(&self) -> (out: String)
        ensures
            out@ == number_json(self@),
    {
        number_to_json(&self.number)
    }

    pub fn duplicate(&self) -> (copy: Self)
        ensures
            copy@ == self@,
    {
        TorbFloat { number: number_copy(&self.number) }
    }
}

/// A number: non-negative, negative, or floating point.
#[derive(Debug, PartialEq)]
pub enum TorbNumeric {
    Int(u64),
    NegInt(i64),
    Float(TorbFloat),
}

/// An input value.
#[derive(Debug, PartialEq)]
pub enum TorbInput {
    Bool(bool),
    Array(Vec<TorbInput>),
    String(String),
    Numeric(TorbNumeric),
}

/// What a `TorbNumeric` holds.
pub enum NumericView {
    Int(u64),
    NegInt(i64),
    Float(serde_yaml::Number),
}

/// What a `TorbInput` holds.
pub enum InputView {
    Bool(bool),
    Array(Seq<InputView>),
    String(Seq<char>),
    Numeric(NumericView),
}

impl View for TorbNumeric {
    type V = NumericView;

    open spec fn view(&self) -> NumericView {
        match self {
            TorbNumeric::Int(n) => NumericView::Int(*n),
            TorbNumeric::NegInt(n) => NumericView::NegInt(*n),
            TorbNumeric::Float(float) => NumericView::Float(float@),
        }
    }
}

/// The view of an input, element by element for an array.
pub open spec fn input_view(input: TorbInput) -> InputView
    decreases input,
{
    match input {
        TorbInput::Bool(b) => InputView::Bool(b),
        TorbInput::String(s) => InputView::String(s@),
        TorbInput::Numeric(n) => InputView::Numeric(n@),
        TorbInput::Array(items) => InputView::Array(
            Seq::new(
                items@.len(),
                |i: int|
                    if 0 <= i < items@.len() {
                        input_view(items@[i])
                    } else {
                        InputView::Bool(false)
                    },
            ),
        ),
    }
}

impl View for TorbInput {
    type V = InputView;

    open spec fn view(&self) -> InputView {
        input_view(*self)
    }
}

/// The views of a list of inputs.
pub open spec fn input_views(items: Seq<TorbInput>) -> Seq<InputView> {
    Seq::new(items.len(), |i: int| items[i]@)
}

/// The view of an array is the list of its elements' views.
pub proof fn lemma_array_view(items: Vec<TorbInput>)
    ensures
        TorbInput::Array(items)@ == InputView::Array(input_views(items@)),
{
    assert(TorbInput::Array(items)@->Array_0 =~= input_views(items@));
}

impl InputView {
    /// Arrays hold scalars only: no array inside an array.
    pub open spec fn is_flat(self) -> bool {
        self is Array ==> forall|i: int|
            0 <= i < self->Array_0.len() ==> !(#[trigger] self->Array_0[i] is Array)
    }

    /// The name of the value's type: `bool`, `string`, `numeric` or `array`.
    pub open spec fn kind_name(self) -> Seq<char> {
        match self {
            InputView::Bool(_) => "bool"@,
            InputView::String(_) => "string"@,
            InputView::Numeric(_) => "numeric"@,
            InputView::Array(_) => "array"@,
        }
    }
}

impl TorbNumeric {
    pub fn duplicate(&self) -> (copy: Self)
        ensures
            copy@ == self@,
    {
        match self {
            TorbNumeric::Int(n) => TorbNumeric::Int(*n),
            TorbNumeric::NegInt(n) => TorbNumeric::NegInt(*n),
            TorbNumeric::Float(float) => TorbNumeric::Float(float.duplicate()),
        }
    }
}

impl TorbInput {
    /// A copy that holds the same value.
    pub fn duplicate(&self) -> (copy: Self)
        ensures
            copy@ == self@,
        decreases self,
    {
        match self {
            TorbInput::Bool(b) => TorbInput::Bool(*b),
            TorbInput::String(s) => TorbInput::String(s.clone()),
            TorbInput::Numeric(n) => TorbInput::Numeric(n.duplicate()),
            TorbInput::Array(items) => {
                let mut out: Vec<TorbInput> = Vec::new();
                let mut i: usize = 0;
                while i < items.len()
                    invariant
                        *self == TorbInput::Array(*items),
                        i <= items@.len(),
                        out@.len() == i,
                        forall|j: int| 0 <= j < i ==> out@[j]@ == items@[j]@,
                    decreases items@.len() - i,
                {
                    assert(decreases_to!(self => self->Array_0));
                    assert(decreases_to!(self->Array_0 => self->Array_0[i as int]));
                    out.push(items[i].duplicate());
                    i += 1;
                }
                proof {
                    lemma_array_view(out);
                    lemma_array_view(*items);
                    assert(input_views(out@) =~= input_views(items@));
                }
                TorbInput::Array(out)
            },
        }
    }

    /// Whether no array stands inside an array.
    pub fn is_flat(&self) -> (flat: bool)
        ensures
            flat == self@.is_flat(),
    {
        match self {
            TorbInput::Array(items) => {
                let mut i: usize = 0;
                proof {
                    lemma_array_view(*items);
                }
                while i < items.len()
                    invariant
                        i <= items@.len(),
                        self@ == InputView::Array(input_views(items@)),
                        forall|j: int| 0 <= j < i ==> !(#[trigger] input_views(items@)[j] is Array),
                    decreases items@.len() - i,
                {
                    if let TorbInput::Array(_) = &items[i] {
                        assert(input_views(items@)[i as int] is Array);
                        return false;
                    }
                    i += 1;
                }
                true
            },
            _ => true,
        }
    }

    /// The name of the value's type: `bool`, `string`, `numeric` or `array`.
    pub fn kind_name(&self) -> (name: &'static str)
        ensures
            name@ == self@.kind_name(),
    {
        match self {
            TorbInput::Bool(_) => "bool",
            TorbInput::String(_) => "string",
            TorbInput::Numeric(_) => "numeric",
            TorbInput::Array(_) => "array",
        }
    }
}

impl From<bool> for TorbInput {
    fn from(value: bool) -> (input: TorbInput) {
        TorbInput::Bool(value)
    }
}

impl vstd::std_specs::convert::FromSpecImpl<bool> for TorbInput {
    open spec fn obeys_from_spec() -> bool {
        true
    }

    open spec fn from_spec(value: bool) -> TorbInput {
        TorbInput::Bool(value)
    }
}

impl From<u64> for TorbInput {
    fn from(value: u64) -> (input: TorbInput) {
        TorbInput::Numeric(TorbNumeric::Int(value))
    }
}

impl vstd::std_specs::convert::FromSpecImpl<u64> for TorbInput {
    open spec fn obeys_from_spec() -> bool {
        true
    }

    open spec fn from_spec(value: u64) -> TorbInput {
        TorbInput::Numeric(TorbNumeric::Int(value))
    }
}

impl From<i64> for TorbInput {
    fn from(value: i64) -> (input: TorbInput) {
        TorbInput::Numeric(TorbNumeric::NegInt(value))
    }
}

impl vstd::std_specs::convert::FromSpecImpl<i64> for TorbInput {
    open spec fn obeys_from_spec() -> bool {
        true
    }

    open spec fn from_spec(value: i64) -> TorbInput {
        TorbInput::Numeric(TorbNumeric::NegInt(value))
    }
}

impl From<String> for TorbInput {
    fn from(value: String) -> (input: TorbInput) {
        TorbInput::String(value)
    }
}

impl vstd::std_specs::convert::FromSpecImpl<String> for TorbInput {
    open spec fn obeys_from_spec() -> bool {
        true
    }

    open spec fn from_spec(value: String) -> TorbInput {
        TorbInput::String(value)
    }
}

/// The decimal digit for a number below ten.
pub open spec fn digit(d: nat) -> char {
    if d == 0 {
        '0'
    } else if d == 1 {
        '1'
    } else if d == 2 {
        '2'
    } else if d == 3 {
        '3'
    } else if d == 4 {
        '4'
    } else if d == 5 {
        '5'
    } else if d == 6 {
        '6'
    } else if d == 7 {
        '7'
    } else if d == 8 {
        '8'
    } else {
        '9'
    }
}

/// A natural number in decimal, without leading zeros.
pub open spec fn decimal(n: nat) -> Seq<char>
    decreases n,
{
    if n < 10 {
        seq![digit(n)]
    } else {
        decimal(n / 10).push(digit(n % 10))
    }
}

/// An integer in decimal, with a minus sign when it is negative.
pub open spec fn signed_decimal(n: int) -> Seq<char> {
    if n < 0 {
        seq!['-'] + decimal((-n) as nat)
    } else {
        decimal(n as nat)
    }
}

/// The JSON text of a string: quoted, with the escapes JSON asks for.
pub uninterp spec fn json_string(text: Seq<char>) -> Seq<char>;

/// `serde_json::to_string` on a string slice.
#[verifier::external_body]
fn json_of_str(text: &str) -> (out: String)
    ensures
        out@ == json_string(text@),
{
    serde_json::to_string(text).unwrap()
}

/// `serde_json::to_string` on a `u64`: its decimal digits.
#[verifier::external_body]
fn json_of_u64(n: u64) -> (out: String)
    ensures
        out@ == decimal(n as nat),
{
    serde_json::to_string(&n).unwrap()
}

/// `serde_json::to_string` on an `i64`: its decimal digits, after a minus
/// sign when it is negative.
#[verifier::external_body]
fn json_of_i64(n: i64) -> (out: String)
    ensures
        out@ == signed_decimal(n as int),
{
    serde_json::to_string(&n).unwrap()
}

/// The JSON text of a value that is not an array (empty for an array).
pub open spec fn json_scalar(v: InputView) -> Seq<char> {
    match v {
        InputView::Bool(b) => if b {
            "true"@
        } else {
            "false"@
        },
        InputView::String(s) => json_string(s),
        InputView::Numeric(NumericView::Int(n)) => decimal(n as nat),
        InputView::Numeric(NumericView::NegInt(n)) => signed_decimal(n as int),
        InputView::Numeric(NumericView::Float(number)) => number_json(number),
        InputView::Array(_) => Seq::empty(),
    }
}

/// The JSON texts of a list of values.
pub open spec fn json_scalars(items: Seq<InputView>) -> Seq<Seq<char>> {
    Seq::new(items.len(), |i: int| json_scalar(items[i]))
}

/// The compact JSON text of a value: a scalar as itself, an array as its
/// elements between brackets, separated by commas.
pub open spec fn json_text(v: InputView) -> Seq<char> {
    match v {
        InputView::Array(items) => "["@ + joined(json_scalars(items), ","@) + "]"@,
        _ => json_scalar(v),
    }
}

impl TorbInput {
    fn scalar_json(&self) -> (out: String)
        ensures
            out@ == json_scalar(self@),
    {
        match self {
            TorbInput::Bool(b) => if *b {
                "true".to_owned()
            } else {
                "false".to_owned()
            },
            TorbInput::String(s) => json_of_str(s.as_str()),
            TorbInput::Numeric(TorbNumeric::Int(n)) => json_of_u64(*n),
            TorbInput::Numeric(TorbNumeric::NegInt(n)) => json_of_i64(*n),
            TorbInput::Numeric(TorbNumeric::Float(float)) => float.text(),
            TorbInput::Array(_) => String::new(),
        }
    }

    /// The value as JSON text, as it is spliced into an init script.
    pub fn serialize_for_init(&self) -> (out: String)
        requires
            self@.is_flat(),
        ensures
            out@ == json_text(self@),
    {
        match self {
            TorbInput::Array(items) => {
                proof {
                    lemma_array_view(*items);
                }
                let mut parts: Vec<String> = Vec::new();
                let mut i: usize = 0;
                while i < items.len()
                    invariant
                        i <= items@.len(),
                        parts@.len() == i,
                        forall|j: int|
                            0 <= j < i ==> parts@[j]@ == json_scalar(input_views(items@)[j]),
                    decreases items@.len() - i,
                {
                    parts.push(items[i].scalar_json());
                    i += 1;
                }
                assert(texts(parts@) =~= json_scalars(input_views(items@)));
                let mut out = "[".to_owned();
                out.append(join(&parts, ",").as_str());
                out.append("]");
                out
            },
            _ => self.scalar_json(),
        }
    }
}

/// What a component declares for one input: the type it accepts, the value
/// used when the stack gives none, and the key under which the value is
/// handed to the deploy tool.
#[derive(Debug, PartialEq)]
pub struct TorbInputSpec {
    pub typing: String,
    pub default: TorbInput,
    pub mapping: String,
}

/// What a `TorbInputSpec` holds.
pub struct InputSpecView {
    pub typing: Seq<char>,
    pub default: InputView,
    pub mapping: Seq<char>,
}

impl View for TorbInputSpec {
    type V = InputSpecView;

    open spec fn view(&self) -> InputSpecView {
        InputSpecView { typing: self.typing@, default: self.default@, mapping: self.mapping@ }
    }
}

/// Whether `name` is one of the four type names a declaration may use.
pub open spec fn is_kind_name(name: Seq<char>) -> bool {
    name == "bool"@ || name == "array"@ || name == "string"@ || name == "numeric"@
}

/// Whether `name` is one of the four type names a declaration may use.
pub fn known_kind_name(name: &str) -> (known: bool)
    ensures
        known == is_kind_name(name@),
{
    str_eq(name, "bool") || str_eq(name, "array") || str_eq(name, "string") || str_eq(
        name,
        "numeric",
    )
}

/// Whether two strings hold the same text.
pub fn str_eq(a: &str, b: &str) -> (same: bool)
    ensures
        same == (a@ == b@),
{
    let x = a.to_owned();
    let y = b.to_owned();
    x == y
}

impl TorbInputSpec {
    pub fn new(typing: String, default: TorbInput, mapping: String) -> (spec: Self)
        ensures
            spec.typing == typing,
            spec.default == default,
            spec.mapping == mapping,
    {
        TorbInputSpec { typing, default, mapping }
    }

    pub fn duplicate(&self) -> (copy: Self)
        ensures
            copy@ == self@,
    {
        TorbInputSpec {
            typing: self.typing.clone(),
            default: self.default.duplicate(),
            mapping: self.mapping.clone(),
        }
    }
}

} // verus!
