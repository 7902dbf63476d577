//! What the composer puts in place of the addresses of a node: the value
//! an address stands for in the composed environment.

use crate::address::{address_of_input, is_reserved, is_reserved_output, AddressView, InputAddress};
use crate::artifacts::{namespace_text, ArtifactRepr};
use crate::collections::{found, StringSet};
use crate::inputs::{parsed_as, read_values, values_document};
use crate::text::{chars_of, has_prefix, starts_with};
use crate::yaml::{
    entry_views, lemma_mapping_view, lemma_sequence_view, yaml_printed, yaml_settled, yaml_views,
    YamlValue, YamlView,
};
use crate::node::{
    display_name_of, fqn_for, fqn_of, mapped_view, nodes_view, ArtifactNodeRepr, NodeView,
};
use crate::text::{concat3, join, joined, opt_text, replace_char, replaced, texts};
use crate::utils::{kebab_to_snake_case, snake_case_to_kebab};
use crate::value::{
    decimal, input_views, lemma_array_view, number_json, signed_decimal, str_eq, InputView,
    NumericView, TorbInput, TorbNumeric,
};
use vstd::prelude::*;

verus! {

/// What can go wrong while a stack is composed.
#[derive(Debug, PartialEq)]
pub enum TorbComposerErrors {
    /// An address points at a node that the artifact does not have.
    UnknownNode { fqn: String },
    /// An address names an input that its node does not have.
    UnknownInput { fqn: String, key: String },
    /// An address names a property other than `output` and `inputs`.
    UnknownProperty { property: String },
    /// An array holds an array.
    NestedArray,
    /// The composed values of a node have no YAML text.
    ValuesNotPrintable,
}

/// What stops the composer.
pub enum ComposeProblem {
    UnknownNode(Seq<char>),
    UnknownInput(Seq<char>, Seq<char>),
    UnknownProperty(Seq<char>),
    NestedArray,
    ValuesNotPrintable,
}

impl TorbComposerErrors {
    /// The problem that the error reports.
    pub open spec fn problem(self) -> ComposeProblem {
        match self {
            TorbComposerErrors::UnknownNode { fqn } => ComposeProblem::UnknownNode(fqn@),
            TorbComposerErrors::UnknownInput { fqn, key } => ComposeProblem::UnknownInput(
                fqn@,
                key@,
            ),
            TorbComposerErrors::UnknownProperty { property } => ComposeProblem::UnknownProperty(
                property@,
            ),
            TorbComposerErrors::NestedArray => ComposeProblem::NestedArray,
            TorbComposerErrors::ValuesNotPrintable => ComposeProblem::ValuesNotPrintable,
        }
    }

    /// The sentence shown for the error.
    pub fn message(&self) -> (text: String)
        ensures
            text@ == match *self {
                TorbComposerErrors::UnknownNode { fqn } =>
                    "Unable to map input address to node, make sure your mapping is correct: "@
                        + fqn@ + ""@,
                TorbComposerErrors::UnknownInput { fqn, key } =>
                    "Unable to map input from output node. Key does not exist: "@ + fqn@ + " "@
                        + key@,
                TorbComposerErrors::UnknownProperty { property } =>
                    "Unable to map node property to output attribute please check your inputs: "@
                        + property@ + ""@,
                TorbComposerErrors::NestedArray => "Nested array types are not supported."@,
                TorbComposerErrors::ValuesNotPrintable => "Unable to resolve values field."@,
            },
    {
        match self {
            TorbComposerErrors::UnknownNode { fqn } => concat3(
                "Unable to map input address to node, make sure your mapping is correct: ",
                fqn.as_str(),
                "",
            ),
            TorbComposerErrors::UnknownInput { fqn, key } => {
                let mut text = concat3(
                    "Unable to map input from output node. Key does not exist: ",
                    fqn.as_str(),
                    " ",
                );
                text.append(key.as_str());
                text
            },
            TorbComposerErrors::UnknownProperty { property } => concat3(
                "Unable to map node property to output attribute please check your inputs: ",
                property.as_str(),
                "",
            ),
            TorbComposerErrors::NestedArray => "Nested array types are not supported.".to_owned(),
            TorbComposerErrors::ValuesNotPrintable => "Unable to resolve values field.".to_owned(),
        }
    }
}

/// An expression of the composed environment, as far as the composer makes
/// one from an address or a value: a string, or text that is taken as it
/// is.
#[derive(Debug, PartialEq)]
pub enum Expression {
    String(String),
    Raw(String),
}

/// What an `Expression` holds.
pub enum ExpressionView {
    String(Seq<char>),
    Raw(Seq<char>),
}

impl View for Expression {
    type V = ExpressionView;

    open spec fn view(&self) -> ExpressionView {
        match self {
            Expression::String(text) => ExpressionView::String(text@),
            Expression::Raw(text) => ExpressionView::Raw(text@),
        }
    }
}

/// The text of a string in the configuration language of the composed
/// environment: between quotes, with the escapes the language asks for.
pub uninterp spec fn hcl_quoted(text: Seq<char>) -> Seq<char>;

/// `hcl::format::to_string` on a string expression.
#[verifier::external_body]
fn hcl_string_text(text: &str) -> (out: String)
    ensures
        out@ == hcl_quoted(text@),
{
    hcl::format::to_string(&hcl::Expression::String(text.to_owned())).unwrap()
}

/// The network name of a node: the release and the node's display name,
/// in the node's namespace of the cluster.
pub open spec fn host_name(release: Seq<char>, shared: Option<Seq<char>>, node: NodeView) -> Seq<
    char,
> {
    release + "-"@ + display_name_of(node, false) + "."@ + namespace_text(shared, node)
        + ".svc.cluster.local"@
}

/// The expression that reads, from the release of a node, the value that
/// was set under `mapping`.
pub open spec fn status_path(release: Seq<char>, node: NodeView, mapping: Seq<char>) -> Seq<char> {
    "jsondecode(data.torb_helm_release."@ + replaced(release, '-', "_"@) + "_"@ + display_name_of(
        node,
        false,
    ) + ".values)[\""@ + mapping + "\"]"@
}

/// The number as text.
pub open spec fn number_text(n: NumericView) -> Seq<char> {
    match n {
        NumericView::Int(n) => decimal(n as nat),
        NumericView::NegInt(n) => signed_decimal(n as int),
        NumericView::Float(number) => number_json(number),
    }
}

/// The text of an element of an array; empty for an array.
pub open spec fn element_text(input: InputView) -> Seq<char> {
    match input {
        InputView::String(text) => hcl_quoted(text),
        InputView::Bool(b) => if b {
            "true"@
        } else {
            "false"@
        },
        InputView::Numeric(n) => number_text(n),
        InputView::Array(_) => Seq::empty(),
    }
}

/// The texts of the elements of an array.
pub open spec fn element_texts(items: Seq<InputView>) -> Seq<Seq<char>> {
    Seq::new(items.len(), |i: int| element_text(items[i]))
}

/// An array as the composed environment takes it: its elements between
/// braces, with commas between them.
pub open spec fn array_text(items: Seq<InputView>) -> Seq<char> {
    "{"@ + joined(element_texts(items), ","@) + "}"@
}

/// The expression that a literal value becomes.
pub open spec fn literal_value(input: InputView) -> Result<ExpressionView, ComposeProblem> {
    match input {
        InputView::String(text) => Ok(ExpressionView::String(text)),
        InputView::Bool(b) => Ok(
            ExpressionView::String(
                if b {
                    "true"@
                } else {
                    "false"@
                },
            ),
        ),
        InputView::Numeric(n) => Ok(ExpressionView::String(number_text(n))),
        InputView::Array(items) => if input.is_flat() {
            Ok(ExpressionView::String(array_text(items)))
        } else {
            Err(ComposeProblem::NestedArray)
        },
    }
}

/// What the composer knows of the stack: its name, the release, the
/// namespace shared by its nodes, and its nodes by name.
pub struct Surroundings {
    pub stack_name: Seq<char>,
    pub release: Seq<char>,
    pub shared_namespace: Option<Seq<char>>,
    pub nodes: Seq<(Seq<char>, NodeView)>,
}

/// The network name of the node that an address points at.
pub open spec fn host_value(around: Surroundings, address: AddressView) -> Result<
    ExpressionView,
    ComposeProblem,
> {
    let fqn = fqn_of(around.stack_name, address);
    match found(around.nodes, fqn) {
        None => Err(ComposeProblem::UnknownNode(fqn)),
        Some(node) => Ok(
            ExpressionView::String(host_name(around.release, around.shared_namespace, node)),
        ),
    }
}

/// The expression that reads the mapped input that an address names from
/// the release of the node it points at.
pub open spec fn path_value(around: Surroundings, address: AddressView) -> Result<
    ExpressionView,
    ComposeProblem,
> {
    let fqn = fqn_of(around.stack_name, address);
    match found(around.nodes, fqn) {
        None => Err(ComposeProblem::UnknownNode(fqn)),
        Some(node) => if address.node_property != "output"@ && address.node_property
            != "inputs"@ {
            Err(ComposeProblem::UnknownProperty(address.node_property))
        } else {
            match found(node.mapped_inputs, address.property_specifier) {
                None => Err(ComposeProblem::UnknownInput(fqn, address.property_specifier)),
                Some(entry) => Ok(ExpressionView::Raw(status_path(around.release, node, entry.0))),
            }
        },
    }
}

/// The expression that an address stands for: the network name of the
/// node it points at where its specifier is reserved, else the expression
/// that reads the mapped input it names from that node's release.
pub open spec fn address_value(around: Surroundings, address: AddressView) -> Result<
    ExpressionView,
    ComposeProblem,
> {
    if is_reserved(address.property_specifier) {
        host_value(around, address)
    } else {
        path_value(around, address)
    }
}

/// The expression that a value stands for, read as an address where it
/// spells one.
pub open spec fn input_value(around: Surroundings, input: InputView) -> Result<
    ExpressionView,
    ComposeProblem,
> {
    match address_of_input(input) {
        Some(address) => address_value(around, address),
        None => literal_value(input),
    }
}

/// The text of an expression: a string between quotes, raw text as it is.
pub open spec fn expression_text(expression: ExpressionView) -> Seq<char> {
    match expression {
        ExpressionView::String(text) => hcl_quoted(text),
        ExpressionView::Raw(text) => text,
    }
}

/// What is written into a node's values in place of a value: for an address
/// with a reserved specifier the text of its expression without quotes,
/// for any other address that text as an interpolation, and for a literal
/// the text of its expression.
pub open spec fn value_text(around: Surroundings, input: InputView) -> Result<
    Seq<char>,
    ComposeProblem,
> {
    match input_value(around, input) {
        Err(problem) => Err(problem),
        Ok(expression) => {
            let text = expression_text(expression);
            match address_of_input(input) {
                Some(address) => if is_reserved(address.property_specifier) {
                    Ok(replaced(text, '"', ""@))
                } else {
                    Ok("${"@ + replaced(text, '"', ""@) + "}"@)
                },
                None => Ok(text),
            }
        },
    }
}

/// The inputs handed to a node's module: for every mapped input with a
/// key that is not empty, among the first `n`, the key and the expression
/// of the value.
pub open spec fn module_inputs(
    around: Surroundings,
    inputs: Seq<(Seq<char>, (Seq<char>, InputView))>,
    n: int,
) -> Result<Seq<(Seq<char>, ExpressionView)>, ComposeProblem>
    decreases n,
{
    if n <= 0 {
        Ok(Seq::empty())
    } else {
        match module_inputs(around, inputs, n - 1) {
            Err(problem) => Err(problem),
            Ok(before) => match input_value(around, inputs[n - 1].1.1) {
                Err(problem) => Err(problem),
                Ok(expression) => if inputs[n - 1].0.len() == 0 {
                    Ok(before)
                } else {
                    Ok(before.push((inputs[n - 1].0, expression)))
                },
            },
        }
    }
}

/// A problem with one of the first inputs is the problem of them all.
pub proof fn lemma_module_inputs_stay_err(
    around: Surroundings,
    inputs: Seq<(Seq<char>, (Seq<char>, InputView))>,
    n: int,
    m: int,
)
    requires
        0 <= n <= m,
        module_inputs(around, inputs, n) is Err,
    ensures
        module_inputs(around, inputs, m) == module_inputs(around, inputs, n),
    decreases m,
{
    if n < m {
        lemma_module_inputs_stay_err(around, inputs, n, m - 1);
    }
}

/// An address with a reserved specifier stands for the network name of the
/// node it points at, whatever the mapped inputs of that node are.
pub proof fn lemma_reserved_address_is_host(around: Surroundings, address: AddressView)
    requires
        is_reserved(address.property_specifier),
        found(around.nodes, fqn_of(around.stack_name, address)) is Some,
    ensures
        address_value(around, address) == Ok::<ExpressionView, ComposeProblem>(
            ExpressionView::String(
                host_name(
                    around.release,
                    around.shared_namespace,
                    found(around.nodes, fqn_of(around.stack_name, address))->0,
                ),
            ),
        ),
{
}

/// A YAML value with its references composed: every string that starts
/// with `self.` is replaced by what is written in its place, everything
/// else stays; the problem of the first reference, in document order, that
/// has one.
pub open spec fn composed(around: Surroundings, value: YamlView) -> Result<YamlView, ComposeProblem>
    decreases value, 0nat,
{
    match value {
        YamlView::String(text) => if has_prefix(text, "self."@) {
            match value_text(around, InputView::String(text)) {
                Ok(written) => Ok(YamlView::String(written)),
                Err(problem) => Err(problem),
            }
        } else {
            Ok(value)
        },
        YamlView::Sequence(items) => match composed_items(around, items, items.len()) {
            Ok(out) => Ok(YamlView::Sequence(out)),
            Err(problem) => Err(problem),
        },
        YamlView::Mapping(entries) => match composed_entries(around, entries, entries.len()) {
            Ok(out) => Ok(YamlView::Mapping(out)),
            Err(problem) => Err(problem),
        },
        _ => Ok(value),
    }
}

/// The first `n` items of a sequence, composed.
pub open spec fn composed_items(around: Surroundings, items: Seq<YamlView>, n: nat) -> Result<
    Seq<YamlView>,
    ComposeProblem,
>
    decreases items, n,
{
    if n == 0 || n > items.len() {
        Ok(Seq::empty())
    } else {
        match composed_items(around, items, (n - 1) as nat) {
            Err(problem) => Err(problem),
            Ok(before) => match composed(around, items[n - 1]) {
                Err(problem) => Err(problem),
                Ok(item) => Ok(before.push(item)),
            },
        }
    }
}

/// The first `n` entries of a mapping, their values composed.
pub open spec fn composed_entries(
    around: Surroundings,
    entries: Seq<(YamlView, YamlView)>,
    n: nat,
) -> Result<Seq<(YamlView, YamlView)>, ComposeProblem>
    decreases entries, n,
{
    if n == 0 || n > entries.len() {
        Ok(Seq::empty())
    } else {
        match composed_entries(around, entries, (n - 1) as nat) {
            Err(problem) => Err(problem),
            Ok(before) => match composed(around, entries[n - 1].1) {
                Err(problem) => Err(problem),
                Ok(value) => Ok(before.push((entries[n - 1].0, value))),
            },
        }
    }
}

/// A problem with one of the first items is the problem of them all.
pub proof fn lemma_items_stay_err(around: Surroundings, items: Seq<YamlView>, n: nat, m: nat)
    requires
        n <= m <= items.len(),
        composed_items(around, items, n) is Err,
    ensures
        composed_items(around, items, m) == composed_items(around, items, n),
    decreases m,
{
    if n < m {
        lemma_items_stay_err(around, items, n, (m - 1) as nat);
    }
}

/// A problem with one of the first entries is the problem of them all.
pub proof fn lemma_entries_stay_err(
    around: Surroundings,
    entries: Seq<(YamlView, YamlView)>,
    n: nat,
    m: nat,
)
    requires
        n <= m <= entries.len(),
        composed_entries(around, entries, n) is Err,
    ensures
        composed_entries(around, entries, m) == composed_entries(around, entries, n),
    decreases m,
{
    if n < m {
        lemma_entries_stay_err(around, entries, n, (m - 1) as nat);
    }
}

/// The text of the composed values of a node: none where the values are
/// null.
pub open spec fn composed_text(around: Surroundings, values: Seq<char>) -> Result<
    Option<Seq<char>>,
    ComposeProblem,
> {
    match composed(around, values_document(values)) {
        Err(problem) => Err(problem),
        Ok(YamlView::Null) => Ok(None),
        Ok(document) => match yaml_printed(yaml_settled(document)) {
            Some(text) => Ok(Some(text)),
            None => Err(ComposeProblem::ValuesNotPrintable),
        },
    }
}

/// What the composer writes for a node: a module of the environment with
/// its attributes, the inputs and values handed to it, and what it waits
/// for.
#[derive(Debug, PartialEq)]
pub struct ModulePlan {
    /// The name of the module: the node's name with `_` for every dot.
    pub name: String,
    /// The directory of the module inside the environment.
    pub source: String,
    pub release_name: String,
    pub namespace: String,
    /// The chart repository; none where the chart lies in the tool's home.
    pub repository: Option<String>,
    pub chart_name: String,
    pub version: Option<String>,
    pub inputs: Vec<(String, Expression)>,
    pub values: Vec<String>,
    /// The modules to wait for: those of the dependencies that are not
    /// implicit.
    pub depends_on: Vec<String>,
    /// The label of the block that reads the node's release.
    pub data_label: String,
}

/// What a `ModulePlan` holds.
pub struct ModulePlanView {
    pub name: Seq<char>,
    pub source: Seq<char>,
    pub release_name: Seq<char>,
    pub namespace: Seq<char>,
    pub repository: Option<Seq<char>>,
    pub chart_name: Seq<char>,
    pub version: Option<Seq<char>>,
    pub inputs: Seq<(Seq<char>, ExpressionView)>,
    pub values: Seq<Seq<char>>,
    pub depends_on: Seq<Seq<char>>,
    pub data_label: Seq<char>,
}

impl View for ModulePlan {
    type V = ModulePlanView;

    open spec fn view(&self) -> ModulePlanView {
        ModulePlanView {
            name: self.name@,
            source: self.source@,
            release_name: self.release_name@,
            namespace: self.namespace@,
            repository: opt_text(self.repository),
            chart_name: self.chart_name@,
            version: opt_text(self.version),
            inputs: named_views(self.inputs@),
            values: texts(self.values@),
            depends_on: texts(self.depends_on@),
            data_label: self.data_label@,
        }
    }
}

/// The setting of the deploy tool `helm` under `key`; empty where the node
/// has none.
pub open spec fn helm_setting(node: NodeView, key: Seq<char>) -> Seq<char> {
    match found(node.deploy_steps, "helm"@) {
        Some(Some(settings)) => match found(settings, key) {
            Some(value) => value,
            None => Seq::empty(),
        },
        _ => Seq::empty(),
    }
}

/// The image that a node's build step names: its tag, `latest` where it has
/// none, and its repository, the node's display name where the registry is
/// local.
pub open spec fn image_document(node: NodeView) -> Option<YamlView> {
    match node.build_step {
        None => None,
        Some(step) => Some(
            YamlView::Mapping(
                seq![
                    (
                        YamlView::String("image"@),
                        YamlView::Mapping(
                            seq![
                                (
                                    YamlView::String("tag"@),
                                    YamlView::String(
                                        if step.tag.len() == 0 {
                                            "latest"@
                                        } else {
                                            step.tag
                                        },
                                    ),
                                ),
                                (
                                    YamlView::String("repository"@),
                                    YamlView::String(
                                        if step.registry == "local"@ {
                                            display_name_of(node, false)
                                        } else {
                                            step.registry
                                        },
                                    ),
                                ),
                            ],
                        ),
                    ),
                ],
            ),
        ),
    }
}

/// The names of the modules of the first `n` dependencies that are not
/// implicit.
pub open spec fn waited_for(node: NodeView, n: int) -> Seq<Seq<char>>
    decreases n,
{
    if n <= 0 {
        Seq::empty()
    } else {
        let before = waited_for(node, n - 1);
        let fqn = node.dependencies[n - 1].fqn;
        if node.implicit_dependency_fqns.contains(fqn) {
            before
        } else {
            before.push("module."@ + replaced(fqn, '.', "_"@))
        }
    }
}

/// The values handed to a node's module: the image of its build step, then
/// its composed values, each where there is one.
pub open spec fn module_values(image: Option<Seq<char>>, composed: Option<Seq<char>>) -> Seq<
    Seq<char>,
> {
    match (image, composed) {
        (Some(image), Some(composed)) => seq![image, composed],
        (Some(image), None) => seq![image],
        (None, Some(composed)) => seq![composed],
        (None, None) => Seq::empty(),
    }
}

/// The views of a list of named expressions.
pub open spec fn named_views(list: Seq<(String, Expression)>) -> Seq<(Seq<char>, ExpressionView)> {
    Seq::new(list.len(), |i: int| (list[i].0@, list[i].1@))
}

/// Composes the environment of an artifact.
pub struct Composer<'a> {
    pub hash: String,
    pub build_files_seen: StringSet,
    pub fqn_seen: StringSet,
    pub release_name: String,
    pub artifact_repr: &'a ArtifactRepr,
}

impl<'a> Composer<'a> {
    /// What the composer knows of the stack.
    pub open spec fn around(&self) -> Surroundings {
        Surroundings {
            stack_name: self.artifact_repr.stack_name@,
            release: self.release_name@,
            shared_namespace: opt_text(self.artifact_repr.namespace),
            nodes: nodes_view(self.artifact_repr.nodes),
        }
    }

    /// A composer for `artifact_repr` under the release name of the
    /// artifact.
    pub fn new(hash: String, artifact_repr: &'a ArtifactRepr) -> (composer: Composer<'a>)
        ensures
            composer.hash == hash,
            composer.artifact_repr == artifact_repr,
            composer.build_files_seen@.len() == 0,
            composer.fqn_seen@.len() == 0,
            artifact_repr.release is Some ==> composer.release_name@ == artifact_repr.release->0@,
    {
        Composer {
            hash,
            build_files_seen: StringSet::new(),
            fqn_seen: StringSet::new(),
            release_name: artifact_repr.release(),
            artifact_repr,
        }
    }

    /// The node that an address points at.
    pub fn get_node_for_output_value(&self, torb_input_address: &InputAddress) -> (node: Result<
        &'a ArtifactNodeRepr,
        TorbComposerErrors,
    >)
        ensures
            node is Ok == found(
                self.around().nodes,
                fqn_of(self.around().stack_name, torb_input_address@),
            ) is Some,
            node is Ok ==> node->Ok_0@ == found(
                self.around().nodes,
                fqn_of(self.around().stack_name, torb_input_address@),
            )->0,
            node is Err ==> node->Err_0.problem() == ComposeProblem::UnknownNode(
                fqn_of(self.around().stack_name, torb_input_address@),
            ),
    {
        let fqn = fqn_for(
            self.artifact_repr.stack_name.as_str(),
            torb_input_address.node_type.as_str(),
            torb_input_address.node_name.as_str(),
        );
        self.artifact_repr.nodes.note_shape();
        proof {
            self.artifact_repr.nodes.lemma_entries(|node: ArtifactNodeRepr| node@);
        }
        match self.artifact_repr.nodes.get(fqn.as_str()) {
            Some(node) => Ok(node),
            None => Err(TorbComposerErrors::UnknownNode { fqn }),
        }
    }

    /// The network name of the node that an address with a reserved
    /// specifier points at.
    pub fn k8s_value_from_reserved_input(&self, torb_input_address: &InputAddress) -> (value: Result<
        Expression,
        TorbComposerErrors,
    >)
        requires
            is_reserved(torb_input_address.property_specifier@),
        ensures
            value is Ok == host_value(self.around(), torb_input_address@) is Ok,
            value is Ok ==> value->Ok_0@ == host_value(self.around(), torb_input_address@)->Ok_0,
            value is Err ==> value->Err_0.problem() == host_value(
                self.around(),
                torb_input_address@,
            )->Err_0,
    {
        let node = match self.get_node_for_output_value(torb_input_address) {
            Ok(node) => node,
            Err(e) => {
                return Err(e);
            },
        };
        let mut name = concat3(
            self.release_name.as_str(),
            "-",
            node.display_name(None).as_str(),
        );
        name.append(".");
        name.append(self.artifact_repr.namespace(node).as_str());
        name.append(".svc.cluster.local");
        Ok(Expression::String(name))
    }

    /// The expression that reads the mapped input an address names from
    /// the release of the node it points at.
    pub fn k8s_status_values_path_from_torb_input(&self, torb_input_address: &InputAddress) -> (path:
        Result<String, TorbComposerErrors>)
        ensures
            path is Ok == path_value(self.around(), torb_input_address@) is Ok,
            path is Ok ==> ExpressionView::Raw(path->Ok_0@) == path_value(
                self.around(),
                torb_input_address@,
            )->Ok_0,
            path is Err ==> path->Err_0.problem() == path_value(
                self.around(),
                torb_input_address@,
            )->Err_0,
    {
        let node = match self.get_node_for_output_value(torb_input_address) {
            Ok(node) => node,
            Err(e) => {
                return Err(e);
            },
        };
        let property = torb_input_address.node_property.as_str();
        if !str_eq(property, "output") && !str_eq(property, "inputs") {
            return Err(
                TorbComposerErrors::UnknownProperty {
                    property: torb_input_address.node_property.clone(),
                },
            );
        }
        node.mapped_inputs.note_shape();
        proof {
            node.mapped_inputs.lemma_entries(|v: (String, TorbInput)| (v.0@, v.1@));
        }
        let mapping = match node.mapped_inputs.get(torb_input_address.property_specifier.as_str()) {
            Some(entry) => &entry.0,
            None => {
                return Err(
                    TorbComposerErrors::UnknownInput {
                        fqn: fqn_for(
                            self.artifact_repr.stack_name.as_str(),
                            torb_input_address.node_type.as_str(),
                            torb_input_address.node_name.as_str(),
                        ),
                        key: torb_input_address.property_specifier.clone(),
                    },
                );
            },
        };
        let mut path = concat3(
            "jsondecode(data.torb_helm_release.",
            kebab_to_snake_case(self.release_name.as_str()).as_str(),
            "_",
        );
        path.append(node.display_name(None).as_str());
        path.append(".values)[\"");
        path.append(mapping.as_str());
        path.append("\"]");
        Ok(path)
    }

    /// An array as the composed environment takes it.
    pub fn torb_array_to_hcl_helm_array(arr: &Vec<TorbInput>) -> (text: Result<
        String,
        TorbComposerErrors,
    >)
        ensures
            text is Ok == InputView::Array(input_views(arr@)).is_flat(),
            text is Ok ==> text->Ok_0@ == array_text(input_views(arr@)),
            text is Err ==> text->Err_0 is NestedArray,
    {
        let mut parts: Vec<String> = Vec::new();
        let mut i: usize = 0;
        while i < arr.len()
            invariant
                i <= arr@.len(),
                parts@.len() == i,
                forall|j: int| 0 <= j < i ==> !(#[trigger] input_views(arr@)[j] is Array),
                forall|j: int| 0 <= j < i ==> parts@[j]@ == element_text(input_views(arr@)[j]),
            decreases arr@.len() - i,
        {
            let part = match &arr[i] {
                TorbInput::String(val) => hcl_string_text(val.as_str()),
                TorbInput::Bool(val) => if *val {
                    "true".to_owned()
                } else {
                    "false".to_owned()
                },
                TorbInput::Numeric(val) => number_to_text(val),
                TorbInput::Array(_) => {
                    assert(input_views(arr@)[i as int] is Array);
                    return Err(TorbComposerErrors::NestedArray);
                },
            };
            parts.push(part);
            i += 1;
        }
        assert(texts(parts@) =~= element_texts(input_views(arr@)));
        let mut text = "{".to_owned();
        text.append(join(&parts, ",").as_str());
        text.append("}");
        Ok(text)
    }

    /// The expression that a value stands for, given as it was read: as an
    /// address, or as the value that spells none.
    pub fn input_values_from_input_address(
        &self,
        input_address: &Result<InputAddress, TorbInput>,
    ) -> (value: Result<Expression, TorbComposerErrors>)
        ensures
            match *input_address {
                Ok(address) => {
                    &&& value is Ok == address_value(self.around(), address@) is Ok
                    &&& value is Ok ==> value->Ok_0@ == address_value(self.around(), address@)->Ok_0
                    &&& value is Err ==> value->Err_0.problem() == address_value(
                        self.around(),
                        address@,
                    )->Err_0
                },
                Err(input) => {
                    &&& value is Ok == literal_value(input@) is Ok
                    &&& value is Ok ==> value->Ok_0@ == literal_value(input@)->Ok_0
                    &&& value is Err ==> value->Err_0.problem() == literal_value(input@)->Err_0
                },
            },
    {
        match input_address {
            Ok(address) => {
                if is_reserved_output(address.property_specifier.as_str()) {
                    self.k8s_value_from_reserved_input(address)
                } else {
                    match self.k8s_status_values_path_from_torb_input(address) {
                        Ok(path) => Ok(Expression::Raw(path)),
                        Err(e) => Err(e),
                    }
                }
            },
            Err(input) => match input {
                TorbInput::String(val) => Ok(Expression::String(val.clone())),
                TorbInput::Bool(val) => Ok(
                    Expression::String(
                        if *val {
                            "true".to_owned()
                        } else {
                            "false".to_owned()
                        },
                    ),
                ),
                TorbInput::Numeric(val) => Ok(Expression::String(number_to_text(val))),
                TorbInput::Array(val) => {
                    proof {
                        lemma_array_view(*val);
                    }
                    match Composer::torb_array_to_hcl_helm_array(val) {
                        Ok(text) => Ok(Expression::String(text)),
                        Err(e) => Err(e),
                    }
                },
            },
        }
    }

    /// What is written into a node's values in place of a value.
    pub fn interpolate_inputs_into_helm_values(
        &self,
        torb_input_address: &Result<InputAddress, TorbInput>,
    ) -> (text: Result<String, TorbComposerErrors>)
        ensures
            forall|input: InputView|
                parsed_as(*torb_input_address, input) ==> {
                    &&& text is Ok == value_text(self.around(), input) is Ok
                    &&& text is Ok ==> text->Ok_0@ == value_text(self.around(), input)->Ok_0
                    &&& text is Err ==> text->Err_0.problem() == value_text(
                        self.around(),
                        input,
                    )->Err_0
                },
    {
        let output_value = match self.input_values_from_input_address(torb_input_address) {
            Ok(value) => value,
            Err(e) => {
                return Err(e);
            },
        };
        let string_value = match &output_value {
            Expression::String(text) => hcl_string_text(text.as_str()),
            Expression::Raw(text) => text.clone(),
        };
        match torb_input_address {
            Ok(address) => {
                let bare = replace_char(string_value.as_str(), '"', "");
                if is_reserved_output(address.property_specifier.as_str()) {
                    Ok(bare)
                } else {
                    Ok(concat3("${", bare.as_str(), "}"))
                }
            },
            Err(_) => Ok(string_value),
        }
    }

    /// A YAML value with its references composed.
    pub fn compose_values(&self, value: &YamlValue) -> (out: Result<YamlValue, TorbComposerErrors>)
        ensures
            out is Ok == composed(self.around(), value@) is Ok,
            out is Ok ==> out->Ok_0@ == composed(self.around(), value@)->Ok_0,
            out is Err ==> out->Err_0.problem() == composed(self.around(), value@)->Err_0,
        decreases value,
    {
        match value {
            YamlValue::String(text) => {
                let chars = chars_of(text.as_str());
                let prefix = chars_of("self.");
                if starts_with(&chars, &prefix) {
                    let parsed = InputAddress::try_from(text.as_str());
                    assert(parsed_as(parsed, InputView::String(text@)));
                    match self.interpolate_inputs_into_helm_values(&parsed) {
                        Ok(written) => Ok(YamlValue::String(written)),
                        Err(e) => Err(e),
                    }
                } else {
                    Ok(YamlValue::String(text.clone()))
                }
            },
            YamlValue::Sequence(items) => {
                proof {
                    lemma_sequence_view(*items);
                }
                let mut out: Vec<YamlValue> = Vec::new();
                let mut i: usize = 0;
                assert(yaml_views(out@) =~= Seq::<YamlView>::empty());
                while i < items.len()
                    invariant
                        *value == YamlValue::Sequence(*items),
                        value@ == YamlView::Sequence(yaml_views(items@)),
                        i <= items@.len(),
                        composed_items(self.around(), yaml_views(items@), i as nat) == Ok::<
                            Seq<YamlView>,
                            ComposeProblem,
                        >(yaml_views(out@)),
                    decreases items@.len() - i,
                {
                    assert(decreases_to!(value => value->Sequence_0));
                    assert(decreases_to!(value->Sequence_0 => value->Sequence_0[i as int]));
                    assert(yaml_views(items@)[i as int] == items@[i as int]@);
                    match self.compose_values(&items[i]) {
                        Ok(item) => {
                            let ghost before = yaml_views(out@);
                            out.push(item);
                            assert(yaml_views(out@) =~= before.push(item@));
                        },
                        Err(e) => {
                            proof {
                                assert(composed_items(
                                    self.around(),
                                    yaml_views(items@),
                                    (i + 1) as nat,
                                ) is Err);
                                lemma_items_stay_err(
                                    self.around(),
                                    yaml_views(items@),
                                    (i + 1) as nat,
                                    items@.len(),
                                );
                            }
                            return Err(e);
                        },
                    }
                    i += 1;
                }
                proof {
                    lemma_sequence_view(out);
                }
                Ok(YamlValue::Sequence(out))
            },
            YamlValue::Mapping(entries) => {
                proof {
                    lemma_mapping_view(*entries);
                }
                let mut out: Vec<(YamlValue, YamlValue)> = Vec::new();
                let mut i: usize = 0;
                assert(entry_views(out@) =~= Seq::<(YamlView, YamlView)>::empty());
                while i < entries.len()
                    invariant
                        *value == YamlValue::Mapping(*entries),
                        value@ == YamlView::Mapping(entry_views(entries@)),
                        i <= entries@.len(),
                        composed_entries(self.around(), entry_views(entries@), i as nat) == Ok::<
                            Seq<(YamlView, YamlView)>,
                            ComposeProblem,
                        >(entry_views(out@)),
                    decreases entries@.len() - i,
                {
                    assert(decreases_to!(value => value->Mapping_0));
                    assert(decreases_to!(value->Mapping_0 => value->Mapping_0[i as int]));
                    assert(decreases_to!(value->Mapping_0[i as int] => value->Mapping_0[i as int].0));
                    assert(decreases_to!(value->Mapping_0[i as int] => value->Mapping_0[i as int].1));
                    assert(entry_views(entries@)[i as int] == (
                        entries@[i as int].0@,
                        entries@[i as int].1@,
                    ));
                    match self.compose_values(&entries[i].1) {
                        Ok(item) => {
                            let key = entries[i].0.duplicate();
                            let ghost before = entry_views(out@);
                            out.push((key, item));
                            assert(entry_views(out@) =~= before.push((key@, item@)));
                        },
                        Err(e) => {
                            proof {
                                assert(composed_entries(
                                    self.around(),
                                    entry_views(entries@),
                                    (i + 1) as nat,
                                ) is Err);
                                lemma_entries_stay_err(
                                    self.around(),
                                    entry_views(entries@),
                                    (i + 1) as nat,
                                    entries@.len(),
                                );
                            }
                            return Err(e);
                        },
                    }
                    i += 1;
                }
                proof {
                    lemma_mapping_view(out);
                }
                Ok(YamlValue::Mapping(out))
            },
            YamlValue::Number(n) => Ok(YamlValue::Number(n.duplicate())),
            YamlValue::Bool(b) => Ok(YamlValue::Bool(*b)),
            YamlValue::Null => Ok(YamlValue::Null),
        }
    }

    /// The text of the composed values of a node; none where the node has
    /// no values.
    pub fn node_values(&self, node: &ArtifactNodeRepr) -> (text: Result<
        Option<String>,
        TorbComposerErrors,
    >)
        ensures
            text is Ok == composed_text(self.around(), node.values@) is Ok,
            text is Ok ==> opt_text(text->Ok_0) == composed_text(self.around(), node.values@)->Ok_0,
            text is Err ==> text->Err_0.problem() == composed_text(
                self.around(),
                node.values@,
            )->Err_0,
    {
        let document = read_values(node.values.as_str());
        let resolved = match self.compose_values(&document) {
            Ok(resolved) => resolved,
            Err(e) => {
                return Err(e);
            },
        };
        match &resolved {
            YamlValue::Null => Ok(None),
            _ => match resolved.to_text() {
                Some(text) => Ok(Some(text)),
                None => Err(TorbComposerErrors::ValuesNotPrintable),
            },
        }
    }

    /// The text of the image values of a node; none where the node has no
    /// build step.
    pub fn image_values(node: &ArtifactNodeRepr) -> (text: Result<
        Option<String>,
        TorbComposerErrors,
    >)
        ensures
            match image_document(node@) {
                None => text == Ok::<Option<String>, TorbComposerErrors>(None),
                Some(document) => match yaml_printed(yaml_settled(document)) {
                    Some(printed) => text is Ok && text->Ok_0 is Some && text->Ok_0->0@
                        == printed,
                    None => text == Err::<Option<String>, TorbComposerErrors>(
                        TorbComposerErrors::ValuesNotPrintable,
                    ),
                },
            },
    {
        let step = match &node.build_step {
            Some(step) => step,
            None => {
                return Ok(None);
            },
        };
        let tag = if step.tag.as_str().is_empty() {
            "latest".to_owned()
        } else {
            step.tag.clone()
        };
        let repository = if str_eq(step.registry.as_str(), "local") {
            node.display_name(None)
        } else {
            step.registry.clone()
        };
        let mut image: Vec<(YamlValue, YamlValue)> = Vec::new();
        image.push((YamlValue::String("tag".to_owned()), YamlValue::String(tag)));
        image.push((YamlValue::String("repository".to_owned()), YamlValue::String(repository)));
        let mut top: Vec<(YamlValue, YamlValue)> = Vec::new();
        proof {
            lemma_mapping_view(image);
            assert(entry_views(image@) =~= seq![
                (YamlView::String("tag"@), YamlView::String(tag@)),
                (YamlView::String("repository"@), YamlView::String(repository@)),
            ]);
        }
        let inner = YamlValue::Mapping(image);
        top.push((YamlValue::String("image".to_owned()), inner));
        proof {
            lemma_mapping_view(top);
            assert(entry_views(top@) =~= seq![(YamlView::String("image"@), inner@)]);
        }
        match YamlValue::Mapping(top).to_text() {
            Some(text) => Ok(Some(text)),
            None => Err(TorbComposerErrors::ValuesNotPrintable),
        }
    }

    /// The modules that the module of `node` waits for.
    pub fn depends_on(node: &ArtifactNodeRepr) -> (names: Vec<String>)
        ensures
            texts(names@) == waited_for(node@, node@.dependencies.len() as int),
    {
        let mut names: Vec<String> = Vec::new();
        let mut i: usize = 0;
        proof {
            crate::node::lemma_dependencies_view(*node);
            assert(texts(names@) =~= Seq::<Seq<char>>::empty());
        }
        while i < node.dependencies.len()
            invariant
                i <= node.dependencies@.len(),
                node@.dependencies == crate::node::node_views(node.dependencies@),
                texts(names@) == waited_for(node@, i as int),
            decreases node.dependencies@.len() - i,
        {
            let dependency = &node.dependencies[i];
            assert(node@.dependencies[i as int].fqn == dependency.fqn@);
            if !node.implicit_dependency_fqns.contains(dependency.fqn.as_str()) {
                let mut name = "module.".to_owned();
                name.append(replace_char(dependency.fqn.as_str(), '.', "_").as_str());
                let ghost before = texts(names@);
                names.push(name);
                assert(texts(names@) =~= before.push(name@));
            }
            i += 1;
        }
        names
    }

    /// The setting of the deploy tool `helm` under `key`; empty where the
    /// node has none.
    pub fn helm_setting(node: &ArtifactNodeRepr, key: &str) -> (value: String)
        ensures
            value@ == helm_setting(node@, key@),
    {
        node.deploy_steps.note_shape();
        proof {
            node.deploy_steps.lemma_entries(
                |v: Option<crate::collections::OrderedMap<String>>| crate::node::settings_view(v),
            );
        }
        match node.deploy_steps.get("helm") {
            Some(Some(settings)) => {
                settings.note_shape();
                proof {
                    settings.lemma_entries(|v: String| v@);
                }
                match settings.get(key) {
                    Some(value) => value.clone(),
                    None => String::new(),
                }
            },
            _ => String::new(),
        }
    }

    /// What the composer writes for `node`.
    pub fn module_plan(&self, node: &ArtifactNodeRepr) -> (plan: Result<
        ModulePlan,
        TorbComposerErrors,
    >)
        ensures
            plan is Ok ==> {
                let made = plan->Ok_0@;
                &&& made.name == replaced(node.fqn@, '.', "_"@)
                &&& made.source == "./"@ + replaced(
                    match node.source {
                        Some(source) => source@,
                        None => ""@,
                    },
                    '-',
                    "_"@,
                ) + "/"@ + display_name_of(node@, false) + "_module"@
                &&& made.release_name == self.release_name@ + "-"@ + replaced(
                    node.name@,
                    '_',
                    "-"@,
                )
                &&& made.namespace == namespace_text(self.around().shared_namespace, node@)
                &&& made.repository == if helm_setting(node@, "repository"@).len() == 0 {
                    None
                } else {
                    Some(helm_setting(node@, "repository"@))
                }
                &&& made.chart_name == helm_setting(node@, "chart"@)
                &&& made.version == if helm_setting(node@, "version"@).len() == 0 {
                    None
                } else {
                    Some(helm_setting(node@, "version"@))
                }
                &&& Ok::<Seq<(Seq<char>, ExpressionView)>, ComposeProblem>(made.inputs)
                    == module_inputs(
                    self.around(),
                    node@.mapped_inputs,
                    node@.mapped_inputs.len() as int,
                )
                &&& image_document(node@) is Some ==> yaml_printed(
                    yaml_settled(image_document(node@)->0),
                ) is Some
                &&& composed_text(self.around(), node.values@) is Ok
                &&& made.values == module_values(
                    match image_document(node@) {
                        Some(document) => yaml_printed(yaml_settled(document)),
                        None => None,
                    },
                    composed_text(self.around(), node.values@)->Ok_0,
                )
                &&& made.depends_on == waited_for(node@, node@.dependencies.len() as int)
                &&& made.data_label == replaced(self.release_name@, '-', "_"@) + "_"@
                    + display_name_of(node@, false)
            },
            plan is Err ==> plan->Err_0.problem() == if module_inputs(
                self.around(),
                node@.mapped_inputs,
                node@.mapped_inputs.len() as int,
            ) is Err {
                module_inputs(
                    self.around(),
                    node@.mapped_inputs,
                    node@.mapped_inputs.len() as int,
                )->Err_0
            } else if image_document(node@) is Some && yaml_printed(
                yaml_settled(image_document(node@)->0),
            ) is None {
                ComposeProblem::ValuesNotPrintable
            } else {
                composed_text(self.around(), node.values@)->Err_0
            },
            plan is Ok == (module_inputs(
                self.around(),
                node@.mapped_inputs,
                node@.mapped_inputs.len() as int,
            ) is Ok && (image_document(node@) is Some ==> yaml_printed(
                yaml_settled(image_document(node@)->0),
            ) is Some) && composed_text(self.around(), node.values@) is Ok),
    {
        let inputs = match self.create_input_values(node) {
            Ok(inputs) => inputs,
            Err(e) => {
                return Err(e);
            },
        };
        let image = match Composer::image_values(node) {
            Ok(image) => image,
            Err(e) => {
                return Err(e);
            },
        };
        let composed = match self.node_values(node) {
            Ok(composed) => composed,
            Err(e) => {
                return Err(e);
            },
        };
        let mut values: Vec<String> = Vec::new();
        match image {
            Some(image) => {
                values.push(image);
            },
            None => {},
        }
        match composed {
            Some(composed) => {
                values.push(composed);
            },
            None => {},
        }
        proof {
            assert(texts(values@) =~= module_values(
                match image_document(node@) {
                    Some(document) => yaml_printed(yaml_settled(document)),
                    None => None,
                },
                composed_text(self.around(), node.values@)->Ok_0,
            ));
        }
        let display = node.display_name(None);
        let source_dir = match &node.source {
            Some(source) => kebab_to_snake_case(source.as_str()),
            None => kebab_to_snake_case(""),
        };
        let mut source = concat3("./", source_dir.as_str(), "/");
        source.append(display.as_str());
        source.append("_module");
        let release_name = concat3(
            self.release_name.as_str(),
            "-",
            snake_case_to_kebab(node.name.as_str()).as_str(),
        );
        let repository = Composer::helm_setting(node, "repository");
        let version = Composer::helm_setting(node, "version");
        let data_label = concat3(
            kebab_to_snake_case(self.release_name.as_str()).as_str(),
            "_",
            display.as_str(),
        );
        Ok(
            ModulePlan {
                name: replace_char(node.fqn.as_str(), '.', "_"),
                source,
                release_name,
                namespace: self.artifact_repr.namespace(node),
                repository: if repository.as_str().is_empty() {
                    None
                } else {
                    Some(repository)
                },
                chart_name: Composer::helm_setting(node, "chart"),
                version: if version.as_str().is_empty() {
                    None
                } else {
                    Some(version)
                },
                inputs,
                values,
                depends_on: Composer::depends_on(node),
                data_label,
            },
        )
    }

    /// The inputs handed to a node's module: every mapped input, by its key,
    /// with the expression of its value.
    pub fn create_input_values(&self, node: &ArtifactNodeRepr) -> (inputs: Result<
        Vec<(String, Expression)>,
        TorbComposerErrors,
    >)
        ensures
            inputs is Ok == module_inputs(
                self.around(),
                node@.mapped_inputs,
                node@.mapped_inputs.len() as int,
            ) is Ok,
            inputs is Ok ==> named_views(inputs->Ok_0@) == module_inputs(
                self.around(),
                node@.mapped_inputs,
                node@.mapped_inputs.len() as int,
            )->Ok_0,
            inputs is Err ==> inputs->Err_0.problem() == module_inputs(
                self.around(),
                node@.mapped_inputs,
                node@.mapped_inputs.len() as int,
            )->Err_0,
    {
        let n = node.mapped_inputs.len();
        let ghost mapped = mapped_view(node.mapped_inputs);
        let mut out: Vec<(String, Expression)> = Vec::new();
        let mut i: usize = 0;
        proof {
            node.mapped_inputs.lemma_entries(|v: (String, TorbInput)| (v.0@, v.1@));
            assert(named_views(out@) =~= Seq::<(Seq<char>, ExpressionView)>::empty());
        }
        while i < n
            invariant
                i <= n,
                n == node.mapped_inputs.keys().len(),
                n == node.mapped_inputs.values().len(),
                mapped == node@.mapped_inputs,
                n == mapped.len(),
                forall|j: int|
                    0 <= j < n ==> #[trigger] mapped[j] == (
                        node.mapped_inputs.keys()[j],
                        (node.mapped_inputs.values()[j].0@, node.mapped_inputs.values()[j].1@),
                    ),
                module_inputs(self.around(), mapped, i as int) == Ok::<
                    Seq<(Seq<char>, ExpressionView)>,
                    ComposeProblem,
                >(named_views(out@)),
            decreases n - i,
        {
            let key = node.mapped_inputs.key_at(i);
            let entry = node.mapped_inputs.value_at(i);
            assert(mapped[i as int] == (key@, (entry.0@, entry.1@)));
            let parsed = InputAddress::try_from_input(&entry.1);
            let value = match self.input_values_from_input_address(&parsed) {
                Ok(value) => value,
                Err(e) => {
                    proof {
                        assert(module_inputs(self.around(), mapped, i + 1) is Err);
                        lemma_module_inputs_stay_err(self.around(), mapped, i + 1, n as int);
                    }
                    return Err(e);
                },
            };
            if !key.as_str().is_empty() {
                let ghost before = named_views(out@);
                out.push((key.clone(), value));
                assert(named_views(out@) =~= before.push((key@, value@)));
            }
            i += 1;
        }
        Ok(out)
    }
}

/// A number as text.
pub fn number_to_text(n: &TorbNumeric) -> (text: String)
    ensures
        text@ == number_text(n@),
{
    match n {
        TorbNumeric::Float(float) => float.text(),
        _ => TorbInput::Numeric(n.duplicate()).serialize_for_init(),
    }
}

} // verus!
