//! The node of a stack: one component as the stack uses it.

use crate::address::{address_of_input, AddressView, InputAddress};
use crate::collections::{entry_keys, found, lemma_prefix_lacks_next, OrderedMap, StringSet};
use crate::text::{
    copy_opt_string, copy_opt_strings, copy_strings, join, joined, opt_text, opt_texts, replaced,
    texts,
};
use crate::utils::kebab_to_snake_case;
use crate::value::{str_eq, InputSpecView, InputView, TorbInput, TorbInputSpec};
use vstd::prelude::*;

verus! {

/// The lines of an init script.
#[derive(Debug, PartialEq)]
pub struct InitStep {
    pub steps: Vec<String>,
}

/// How a component's image is built: from a dockerfile or by a script, and
/// where the image goes.
#[derive(Debug, PartialEq)]
pub struct BuildStep {
    pub script_path: String,
    pub dockerfile: String,
    pub tag: String,
    pub registry: String,
}

/// What a `BuildStep` holds.
pub struct BuildStepView {
    pub script_path: Seq<char>,
    pub dockerfile: Seq<char>,
    pub tag: Seq<char>,
    pub registry: Seq<char>,
}

impl View for BuildStep {
    type V = BuildStepView;

    open spec fn view(&self) -> BuildStepView {
        BuildStepView {
            script_path: self.script_path@,
            dockerfile: self.dockerfile@,
            tag: self.tag@,
            registry: self.registry@,
        }
    }
}

impl Default for BuildStep {
    fn default() -> (step: BuildStep)
        ensures
            step@ == (BuildStepView {
                script_path: Seq::empty(),
                dockerfile: Seq::empty(),
                tag: Seq::empty(),
                registry: Seq::empty(),
            }),
    {
        BuildStep {
            script_path: String::new(),
            dockerfile: String::new(),
            tag: String::new(),
            registry: String::new(),
        }
    }
}

impl BuildStep {
    pub fn duplicate(&self) -> (copy: Self)
        ensures
            copy@ == self@,
    {
        BuildStep {
            script_path: self.script_path.clone(),
            dockerfile: self.dockerfile.clone(),
            tag: self.tag.clone(),
            registry: self.registry.clone(),
        }
    }
}

/// The names a stack entry lists under `deps`.
#[derive(Debug, PartialEq)]
pub struct NodeDependencies {
    pub services: Option<Vec<String>>,
    pub projects: Option<Vec<String>>,
    pub stacks: Option<Vec<String>>,
}

/// What a `NodeDependencies` holds.
pub struct DependenciesView {
    pub services: Option<Seq<Seq<char>>>,
    pub projects: Option<Seq<Seq<char>>>,
    pub stacks: Option<Seq<Seq<char>>>,
}

impl View for NodeDependencies {
    type V = DependenciesView;

    open spec fn view(&self) -> DependenciesView {
        DependenciesView {
            services: opt_texts(self.services),
            projects: opt_texts(self.projects),
            stacks: opt_texts(self.stacks),
        }
    }
}

impl Default for NodeDependencies {
    fn default() -> (deps: NodeDependencies)
        ensures
            deps@ == (DependenciesView { services: None, projects: None, stacks: None }),
    {
        NodeDependencies { services: None, projects: None, stacks: None }
    }
}

impl NodeDependencies {
    pub fn duplicate(&self) -> (copy: Self)
        ensures
            copy@ == self@,
    {
        NodeDependencies {
            services: copy_opt_strings(&self.services),
            projects: copy_opt_strings(&self.projects),
            stacks: copy_opt_strings(&self.stacks),
        }
    }
}

/// The settings of one deploy tool, key by key.
pub open spec fn settings_view(settings: Option<OrderedMap<String>>) -> Option<
    Seq<(Seq<char>, Seq<char>)>,
> {
    match settings {
        Some(map) => Some(map.entries(|v: String| v@)),
        None => None,
    }
}

/// A stack node: a component's definition together with what the stack
/// says of it.
#[derive(Debug, PartialEq)]
pub struct ArtifactNodeRepr {
    pub fqn: String,
    pub name: String,
    pub version: String,
    pub kind: String,
    pub lang: Option<String>,
    pub init_step: Option<Vec<String>>,
    pub build_step: Option<BuildStep>,
    pub deploy_steps: OrderedMap<Option<OrderedMap<String>>>,
    pub mapped_inputs: OrderedMap<(String, TorbInput)>,
    pub input_spec: OrderedMap<TorbInputSpec>,
    pub outputs: Vec<String>,
    pub dependencies: Vec<ArtifactNodeRepr>,
    pub implicit_dependency_fqns: StringSet,
    pub dependency_names: NodeDependencies,
    pub file_path: String,
    pub files: Option<Vec<String>>,
    pub values: String,
    pub namespace: Option<String>,
    pub source: Option<String>,
}

/// What an `ArtifactNodeRepr` holds.
pub struct NodeView {
    pub fqn: Seq<char>,
    pub name: Seq<char>,
    pub version: Seq<char>,
    pub kind: Seq<char>,
    pub lang: Option<Seq<char>>,
    pub init_step: Option<Seq<Seq<char>>>,
    pub build_step: Option<BuildStepView>,
    pub deploy_steps: Seq<(Seq<char>, Option<Seq<(Seq<char>, Seq<char>)>>)>,
    pub mapped_inputs: Seq<(Seq<char>, (Seq<char>, InputView))>,
    pub input_spec: Seq<(Seq<char>, InputSpecView)>,
    pub outputs: Seq<Seq<char>>,
    pub dependencies: Seq<NodeView>,
    pub implicit_dependency_fqns: Seq<Seq<char>>,
    pub dependency_names: DependenciesView,
    pub file_path: Seq<char>,
    pub files: Option<Seq<Seq<char>>>,
    pub values: Seq<char>,
    pub namespace: Option<Seq<char>>,
    pub source: Option<Seq<char>>,
}

/// The build step of a node, if it has one.
pub open spec fn build_view(step: Option<BuildStep>) -> Option<BuildStepView> {
    match step {
        Some(step) => Some(step@),
        None => None,
    }
}

/// The mapped inputs in order: for each declared key, the mapping and the
/// value.
pub open spec fn mapped_view(map: OrderedMap<(String, TorbInput)>) -> Seq<
    (Seq<char>, (Seq<char>, InputView)),
> {
    map.entries(|v: (String, TorbInput)| (v.0@, v.1@))
}

/// The view of a node, its dependencies included.
pub open spec fn node_view(node: ArtifactNodeRepr) -> NodeView
    decreases node,
{
    NodeView {
        fqn: node.fqn@,
        name: node.name@,
        version: node.version@,
        kind: node.kind@,
        lang: opt_text(node.lang),
        init_step: opt_texts(node.init_step),
        build_step: build_view(node.build_step),
        deploy_steps: node.deploy_steps.entries(|v: Option<OrderedMap<String>>| settings_view(v)),
        mapped_inputs: mapped_view(node.mapped_inputs),
        input_spec: spec_view(node.input_spec),
        outputs: texts(node.outputs@),
        dependencies: Seq::new(
            node.dependencies@.len(),
            |i: int|
                if 0 <= i < node.dependencies@.len() {
                    node_view(node.dependencies@[i])
                } else {
                    arbitrary()
                },
        ),
        implicit_dependency_fqns: node.implicit_dependency_fqns@,
        dependency_names: node.dependency_names@,
        file_path: node.file_path@,
        files: opt_texts(node.files),
        values: node.values@,
        namespace: opt_text(node.namespace),
        source: opt_text(node.source),
    }
}

impl View for ArtifactNodeRepr {
    type V = NodeView;

    open spec fn view(&self) -> NodeView {
        node_view(*self)
    }
}

/// The views of a list of nodes.
pub open spec fn node_views(nodes: Seq<ArtifactNodeRepr>) -> Seq<NodeView> {
    Seq::new(nodes.len(), |i: int| nodes[i]@)
}

/// The nodes of a map, each as its view.
pub open spec fn nodes_view(nodes: OrderedMap<ArtifactNodeRepr>) -> Seq<(Seq<char>, NodeView)> {
    nodes.entries(|node: ArtifactNodeRepr| node@)
}

/// The dependencies in a node's view are the views of its dependencies.
pub proof fn lemma_dependencies_view(node: ArtifactNodeRepr)
    ensures
        node@.dependencies == node_views(node.dependencies@),
{
    assert(node@.dependencies =~= node_views(node.dependencies@));
}

/// A copy of a string.
pub fn copy_text(s: &String) -> (copy: String)
    ensures
        copy@ == s@,
{
    s.clone()
}

/// A copy of a mapping and its value.
pub fn copy_mapped_entry(entry: &(String, TorbInput)) -> (copy: (String, TorbInput))
    ensures
        copy.0@ == entry.0@,
        copy.1@ == entry.1@,
{
    (entry.0.clone(), entry.1.duplicate())
}

/// A copy of a map of tool settings.
pub fn copy_settings(settings: &Option<OrderedMap<String>>) -> (copy: Option<OrderedMap<String>>)
    ensures
        settings_view(copy) == settings_view(*settings),
{
    match settings {
        Some(map) => {
            let out = map.map_values(copy_text);
            assert(out.entries(|v: String| v@) =~= map.entries(|v: String| v@));
            Some(out)
        },
        None => None,
    }
}

/// A copy of a map of mapped inputs.
pub fn copy_mapped_inputs(map: &OrderedMap<(String, TorbInput)>) -> (copy: OrderedMap<
    (String, TorbInput),
>)
    ensures
        mapped_view(copy) == mapped_view(*map),
        copy.keys() == map.keys(),
{
    let out = map.map_values(copy_mapped_entry);
    assert(mapped_view(out) =~= mapped_view(*map));
    out
}

impl ArtifactNodeRepr {
    /// A copy that holds the same content, dependencies included.
    pub fn duplicate(&self) -> (copy: Self)
        ensures
            copy@ == self@,
        decreases self,
    {
        let mut dependencies: Vec<ArtifactNodeRepr> = Vec::new();
        let mut i: usize = 0;
        while i < self.dependencies.len()
            invariant
                i <= self.dependencies@.len(),
                dependencies@.len() == i,
                forall|j: int| 0 <= j < i ==> dependencies@[j]@ == self.dependencies@[j]@,
            decreases self.dependencies@.len() - i,
        {
            assert(decreases_to!(self => self.dependencies));
            assert(decreases_to!(self.dependencies => self.dependencies[i as int]));
            dependencies.push(self.dependencies[i].duplicate());
            i += 1;
        }
        let copy = self.duplicate_with(dependencies);
        proof {
            lemma_dependencies_view(copy);
            lemma_dependencies_view(*self);
            assert(node_views(copy.dependencies@) =~= node_views(self.dependencies@));
        }
        copy
    }

    /// A copy of everything here but the dependencies, which are replaced
    /// by `dependencies`.
    pub fn duplicate_with(&self, dependencies: Vec<ArtifactNodeRepr>) -> (copy: Self)
        ensures
            copy.dependencies == dependencies,
            copy@ == (NodeView { dependencies: copy@.dependencies, ..self@ }),
    {
        let deploy_steps = self.deploy_steps.map_values(copy_settings);
        assert(deploy_steps.entries(|v: Option<OrderedMap<String>>| settings_view(v))
            =~= self.deploy_steps.entries(|v: Option<OrderedMap<String>>| settings_view(v)));
        let input_spec = self.input_spec.map_values(TorbInputSpec::duplicate);
        assert(spec_view(input_spec) =~= spec_view(self.input_spec));
        let build_step = match &self.build_step {
            Some(step) => Some(step.duplicate()),
            None => None,
        };
        ArtifactNodeRepr {
            fqn: self.fqn.clone(),
            name: self.name.clone(),
            version: self.version.clone(),
            kind: self.kind.clone(),
            lang: copy_opt_string(&self.lang),
            init_step: copy_opt_strings(&self.init_step),
            build_step,
            deploy_steps,
            mapped_inputs: copy_mapped_inputs(&self.mapped_inputs),
            input_spec,
            outputs: copy_strings(&self.outputs),
            dependencies,
            implicit_dependency_fqns: self.implicit_dependency_fqns.duplicate(),
            dependency_names: self.dependency_names.duplicate(),
            file_path: self.file_path.clone(),
            files: copy_opt_strings(&self.files),
            values: self.values.clone(),
            namespace: copy_opt_string(&self.namespace),
            source: copy_opt_string(&self.source),
        }
    }
}

/// The provided inputs, each as its view.
pub open spec fn inputs_view(inputs: OrderedMap<TorbInput>) -> Seq<(Seq<char>, InputView)> {
    inputs.entries(|v: TorbInput| v@)
}

/// The declared inputs, each as its view.
pub open spec fn spec_view(spec: OrderedMap<TorbInputSpec>) -> Seq<(Seq<char>, InputSpecView)> {
    spec.entries(|v: TorbInputSpec| v@)
}

/// What is wrong with one provided input, if anything: its key when the
/// component declares no such input, else a sentence on the type when the
/// value is no address and its type is not the declared one.
pub open spec fn input_problem(
    key: Seq<char>,
    value: InputView,
    spec: Seq<(Seq<char>, InputSpecView)>,
) -> Option<Seq<char>> {
    match found(spec, key) {
        None => Some(key),
        Some(declared) => if address_of_input(value) is None && declared.typing
            != value.kind_name() {
            Some(
                key + " is type "@ + value.kind_name() + " but is supposed to be "@
                    + declared.typing,
            )
        } else {
            None
        },
    }
}

/// The problem of the first provided input, from position `from` on, that
/// has one.
pub open spec fn first_problem(
    inputs: Seq<(Seq<char>, InputView)>,
    spec: Seq<(Seq<char>, InputSpecView)>,
    from: int,
) -> Option<Seq<char>>
    decreases inputs.len() - from,
{
    if from < 0 || from >= inputs.len() {
        None
    } else if input_problem(inputs[from].0, inputs[from].1, spec) is Some {
        input_problem(inputs[from].0, inputs[from].1, spec)
    } else {
        first_problem(inputs, spec, from + 1)
    }
}

/// The value that goes with a declared input: the one the stack provides
/// under that key, else the declared default.
pub open spec fn chosen_value(
    inputs: Seq<(Seq<char>, InputView)>,
    key: Seq<char>,
    default: InputView,
) -> InputView {
    match found(inputs, key) {
        Some(value) => value,
        None => default,
    }
}

/// The mapped inputs made of provided inputs and declarations: for every
/// declared input, in the order of the declarations, its mapping and its
/// chosen value.
pub open spec fn mapped_from(
    inputs: Seq<(Seq<char>, InputView)>,
    spec: Seq<(Seq<char>, InputSpecView)>,
) -> Seq<(Seq<char>, (Seq<char>, InputView))> {
    Seq::new(
        spec.len(),
        |i: int| (spec[i].0, (spec[i].1.mapping, chosen_value(inputs, spec[i].0, spec[i].1.default))),
    )
}

/// The mapped inputs have exactly the keys of the declarations, in their
/// order.
pub proof fn lemma_mapped_keys(
    inputs: Seq<(Seq<char>, InputView)>,
    spec: Seq<(Seq<char>, InputSpecView)>,
)
    ensures
        entry_keys(mapped_from(inputs, spec)) == entry_keys(spec),
{
    assert(entry_keys(mapped_from(inputs, spec)) =~= entry_keys(spec));
}

/// The message for inputs that were refused.
pub open spec fn validation_message(problem: Seq<char>, valid_keys: Seq<Seq<char>>) -> Seq<char> {
    "Input validation failed: "@ + problem + " is not a valid key. Valid Keys: "@ + joined(
        valid_keys,
        ", "@,
    )
}

/// The name under which a node is deployed: the string given as its input
/// `name`, else the component's name; with `-` turned into `_` unless the
/// kebab form is asked for.
pub open spec fn display_name_of(node: NodeView, kebab: bool) -> Seq<char> {
    let name = match found(node.mapped_inputs, "name"@) {
        Some((_, InputView::String(text))) => text,
        _ => node.name,
    };
    if kebab {
        name
    } else {
        replaced(name, '-', "_"@)
    }
}

/// The fully qualified name of a node: the stack's name, the node's kind
/// and the node's name, with dots between them.
pub open spec fn fqn_text(stack_name: Seq<char>, kind: Seq<char>, name: Seq<char>) -> Seq<char> {
    stack_name + "."@ + kind + "."@ + name
}

/// The fully qualified name of the node an address points at.
pub open spec fn fqn_of(graph_name: Seq<char>, address: AddressView) -> Seq<char> {
    fqn_text(graph_name, address.node_type, address.node_name)
}

/// Puts a fully qualified name together.
pub fn fqn_for(stack_name: &str, kind: &str, name: &str) -> (fqn: String)
    ensures
        fqn@ == fqn_text(stack_name@, kind@, name@),
{
    let mut fqn = stack_name.to_owned();
    fqn.append(".");
    fqn.append(kind);
    fqn.append(".");
    fqn.append(name);
    fqn
}

/// An input that names a key the declarations lack is a problem, so the
/// inputs as a whole have one.
pub proof fn lemma_unknown_key_is_a_problem(
    inputs: Seq<(Seq<char>, InputView)>,
    spec: Seq<(Seq<char>, InputSpecView)>,
    key: Seq<char>,
    from: int,
)
    requires
        0 <= from,
        exists|i: int| from <= i < inputs.len() && inputs[i].0 == key,
        found(spec, key) is None,
    ensures
        first_problem(inputs, spec, from) is Some,
    decreases inputs.len() - from,
{
    let i = choose|i: int| from <= i < inputs.len() && inputs[i].0 == key;
    if input_problem(inputs[from].0, inputs[from].1, spec) is None {
        assert(inputs[from].0 != key);
        assert(from + 1 <= i);
        lemma_unknown_key_is_a_problem(inputs, spec, key, from + 1);
    }
}

/// Where the inputs before an undeclared one are in order, the problem
/// reported is the key of that input.
pub proof fn lemma_first_unknown_key_is_named(
    inputs: Seq<(Seq<char>, InputView)>,
    spec: Seq<(Seq<char>, InputSpecView)>,
    at: int,
    from: int,
)
    requires
        0 <= from <= at < inputs.len(),
        found(spec, inputs[at].0) is None,
        forall|j: int| from <= j < at ==> input_problem(inputs[j].0, inputs[j].1, spec) is None,
    ensures
        first_problem(inputs, spec, from) == Some(inputs[at].0),
    decreases at - from,
{
    if from < at {
        lemma_first_unknown_key_is_named(inputs, spec, at, from + 1);
    }
}

impl ArtifactNodeRepr {
    pub fn new(
        fqn: String,
        name: String,
        version: String,
        kind: String,
        lang: Option<String>,
        init_step: Option<Vec<String>>,
        build_step: Option<BuildStep>,
        deploy_steps: OrderedMap<Option<OrderedMap<String>>>,
        inputs: OrderedMap<(String, TorbInput)>,
        input_spec: OrderedMap<TorbInputSpec>,
        outputs: Vec<String>,
        file_path: String,
        files: Option<Vec<String>>,
        values: String,
        namespace: Option<String>,
        source: Option<String>,
    ) -> (node: ArtifactNodeRepr)
        ensures
            node.fqn == fqn,
            node.name == name,
            node.version == version,
            node.kind == kind,
            node.lang == lang,
            node.init_step == init_step,
            node.build_step == build_step,
            node.deploy_steps == deploy_steps,
            node.mapped_inputs == inputs,
            node.input_spec == input_spec,
            node.outputs == outputs,
            node.dependencies@.len() == 0,
            node.implicit_dependency_fqns@.len() == 0,
            node.dependency_names@ == (DependenciesView {
                services: None,
                projects: None,
                stacks: None,
            }),
            node.file_path == file_path,
            node.files == files,
            node.values == values,
            node.namespace == namespace,
            node.source == source,
    {
        ArtifactNodeRepr {
            fqn,
            name,
            version,
            kind,
            lang,
            init_step,
            build_step,
            deploy_steps,
            mapped_inputs: inputs,
            input_spec,
            outputs,
            implicit_dependency_fqns: StringSet::new(),
            dependencies: Vec::new(),
            dependency_names: NodeDependencies { services: None, projects: None, stacks: None },
            file_path,
            files,
            values,
            namespace,
            source,
        }
    }

    /// The name under which the node is deployed.
    pub fn display_name(&self, kebab_opt: Option<bool>) -> (name: String)
        ensures
            name@ == display_name_of(
                self@,
                match kebab_opt {
                    Some(kebab) => kebab,
                    None => false,
                },
            ),
    {
        let kebab = match kebab_opt {
            Some(kebab) => kebab,
            None => false,
        };
        self.mapped_inputs.note_shape();
        proof {
            self.mapped_inputs.lemma_entries(|v: (String, TorbInput)| (v.0@, v.1@));
        }
        let name = match self.mapped_inputs.get("name") {
            Some(entry) => match &entry.1 {
                TorbInput::String(val) => val.clone(),
                _ => self.name.clone(),
            },
            None => self.name.clone(),
        };
        if kebab {
            name
        } else {
            kebab_to_snake_case(name.as_str())
        }
    }

    /// The fully qualified name of the node that a parsed address points
    /// at; `None` for a value that is no address.
    pub fn address_to_fqn(graph_name: &String, addr_result: &Result<InputAddress, TorbInput>) -> (fqn:
        Option<String>)
        ensures
            fqn is Some == addr_result is Ok,
            fqn is Some ==> fqn->0@ == fqn_of(graph_name@, addr_result->Ok_0@),
    {
        match addr_result {
            Ok(addr) => Some(
                fqn_for(graph_name.as_str(), addr.node_type.as_str(), addr.node_name.as_str()),
            ),
            Err(_) => None,
        }
    }

    /// Checks the provided inputs against the declarations, in the order in
    /// which they were provided; the first problem found is the error.
    pub fn validate_inputs(inputs: &OrderedMap<TorbInput>, spec: &OrderedMap<TorbInputSpec>) -> (checked:
        Result<(), String>)
        ensures
            checked is Ok == first_problem(inputs_view(*inputs), spec_view(*spec), 0) is None,
            checked is Err ==> checked->Err_0@ == first_problem(
                inputs_view(*inputs),
                spec_view(*spec),
                0,
            )->0,
    {
        let n = inputs.len();
        spec.note_shape();
        let mut i: usize = 0;
        proof {
            inputs.lemma_entries(|v: TorbInput| v@);
            spec.lemma_entries(|v: TorbInputSpec| v@);
        }
        while i < n
            invariant
                i <= n,
                n == inputs.keys().len(),
                n == inputs.values().len(),
                n == inputs_view(*inputs).len(),
                forall|j: int|
                    0 <= j < n ==> #[trigger] inputs_view(*inputs)[j] == (
                        inputs.keys()[j],
                        inputs.values()[j]@,
                    ),
                forall|key: Seq<char>|
                    spec.has(key) ==> #[trigger] found(spec_view(*spec), key) == Some(
                        spec.value_of(key)@,
                    ),
                forall|key: Seq<char>| !spec.has(key) ==> #[trigger] found(spec_view(*spec), key) is None,
                first_problem(inputs_view(*inputs), spec_view(*spec), 0) == first_problem(
                    inputs_view(*inputs),
                    spec_view(*spec),
                    i as int,
                ),
            decreases n - i,
        {
            let key = inputs.key_at(i);
            let value = inputs.value_at(i);
            assert(inputs_view(*inputs)[i as int] == (key@, value@));
            match spec.get(key.as_str()) {
                None => {
                    return Err(key.clone());
                },
                Some(declared) => {
                    let is_address = InputAddress::try_from_input(value).is_ok();
                    let kind = value.kind_name();
                    if !is_address && !str_eq(declared.typing.as_str(), kind) {
                        let mut message = key.clone();
                        message.append(" is type ");
                        message.append(kind);
                        message.append(" but is supposed to be ");
                        message.append(declared.typing.as_str());
                        return Err(message);
                    }
                },
            }
            i += 1;
        }
        Ok(())
    }

    /// Pairs every declared input with its mapping and with the provided
    /// value, or the default where none is provided.
    pub fn map_inputs(inputs: &OrderedMap<TorbInput>, spec: &OrderedMap<TorbInputSpec>) -> (mapped:
        OrderedMap<(String, TorbInput)>)
        ensures
            mapped_view(mapped) == mapped_from(inputs_view(*inputs), spec_view(*spec)),
            mapped.keys() == spec.keys(),
    {
        let n = spec.len();
        inputs.note_shape();
        let mut mapped: OrderedMap<(String, TorbInput)> = OrderedMap::new();
        let mut i: usize = 0;
        proof {
            inputs.lemma_entries(|v: TorbInput| v@);
            spec.lemma_entries(|v: TorbInputSpec| v@);
            assert(spec.keys().take(0) =~= Seq::<Seq<char>>::empty());
        }
        while i < n
            invariant
                i <= n,
                n == spec.keys().len(),
                n == spec.values().len(),
                n == spec_view(*spec).len(),
                spec.keys().no_duplicates(),
                forall|j: int|
                    0 <= j < n ==> #[trigger] spec_view(*spec)[j] == (
                        spec.keys()[j],
                        spec.values()[j]@,
                    ),
                forall|key: Seq<char>|
                    inputs.has(key) ==> #[trigger] found(inputs_view(*inputs), key) == Some(
                        inputs.value_of(key)@,
                    ),
                forall|key: Seq<char>|
                    !inputs.has(key) ==> #[trigger] found(inputs_view(*inputs), key) is None,
                mapped.keys() == spec.keys().take(i as int),
                mapped.values().len() == i,
                forall|j: int|
                    0 <= j < i ==> ((#[trigger] mapped.values()[j]).0@, mapped.values()[j].1@)
                        == mapped_from(inputs_view(*inputs), spec_view(*spec))[j].1,
            decreases n - i,
        {
            let key = spec.key_at(i);
            let declared = spec.value_at(i);
            assert(spec_view(*spec)[i as int] == (key@, declared@));
            let value = match inputs.get(key.as_str()) {
                Some(provided) => provided.duplicate(),
                None => declared.default.duplicate(),
            };
            proof {
                lemma_prefix_lacks_next(spec.keys(), i as int);
            }
            mapped.insert(key.clone(), (declared.mapping.clone(), value));
            i += 1;
        }
        proof {
            assert(spec.keys().take(n as int) =~= spec.keys());
            assert(mapped_view(mapped) =~= mapped_from(inputs_view(*inputs), spec_view(*spec)));
        }
        mapped
    }

    /// Validates the inputs a stack provides and sets the node's mapped
    /// inputs from them. A component that declares no inputs gets none:
    /// provided inputs are then discarded, and the result says so.
    pub fn validate_map_and_set_inputs(&mut self, inputs: OrderedMap<TorbInput>) -> (outcome: Result<
        bool,
        String,
    >)
        ensures
            *final(self) == (ArtifactNodeRepr {
                mapped_inputs: final(self).mapped_inputs,
                ..*old(self)
            }),
            outcome is Ok ==> final(self).mapped_inputs.keys() == old(self).input_spec.keys(),
            outcome is Ok ==> mapped_view(final(self).mapped_inputs) == mapped_from(
                inputs_view(inputs),
                spec_view(old(self).input_spec),
            ),
            outcome is Ok ==> outcome->Ok_0 == (old(self).input_spec.keys().len() == 0
                && inputs.keys().len() > 0),
            outcome is Err == (old(self).input_spec.keys().len() > 0 && first_problem(
                inputs_view(inputs),
                spec_view(old(self).input_spec),
                0,
            ) is Some),
            outcome is Err ==> final(self).mapped_inputs == old(self).mapped_inputs
                && outcome->Err_0@ == validation_message(
                first_problem(inputs_view(inputs), spec_view(old(self).input_spec), 0)->0,
                old(self).input_spec.keys(),
            ),
    {
        if !self.input_spec.is_empty() {
            match ArtifactNodeRepr::validate_inputs(&inputs, &self.input_spec) {
                Ok(_) => {
                    self.mapped_inputs = ArtifactNodeRepr::map_inputs(&inputs, &self.input_spec);
                    Ok(false)
                },
                Err(problem) => {
                    let keys = self.input_spec.key_list();
                    assert(texts(keys@) =~= self.input_spec.keys());
                    let mut message = "Input validation failed: ".to_owned();
                    message.append(problem.as_str());
                    message.append(" is not a valid key. Valid Keys: ");
                    message.append(join(&keys, ", ").as_str());
                    Err(message)
                },
            }
        } else {
            let discarded = !inputs.is_empty();
            self.mapped_inputs = OrderedMap::new();
            proof {
                assert(self.mapped_inputs.keys() =~= self.input_spec.keys());
                assert(mapped_view(self.mapped_inputs) =~= mapped_from(
                    inputs_view(inputs),
                    spec_view(self.input_spec),
                ));
            }
            Ok(discarded)
        }
    }
}

} // verus!
