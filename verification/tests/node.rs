use torb::address::InputAddress;
use torb::collections::OrderedMap;
use torb::node::{fqn_for, ArtifactNodeRepr, BuildStep, NodeDependencies};
use torb::value::{TorbInput, TorbInputSpec, TorbNumeric};

fn plain_node(fqn: &str, name: &str) -> ArtifactNodeRepr {
    ArtifactNodeRepr::new(
        fqn.to_string(),
        name.to_string(),
        "1.0.0".to_string(),
        "service".to_string(),
        None,
        None,
        None,
        OrderedMap::new(),
        OrderedMap::new(),
        OrderedMap::new(),
        Vec::new(),
        String::new(),
        None,
        String::new(),
        None,
        None,
    )
}

fn declare(node: &mut ArtifactNodeRepr, key: &str, typing: &str, default: TorbInput, mapping: &str) {
    node.input_spec.insert(
        key.to_string(),
        TorbInputSpec::new(typing.to_string(), default, mapping.to_string()),
    );
}

fn text(s: &str) -> TorbInput {
    TorbInput::String(s.to_string())
}

fn declared_node() -> ArtifactNodeRepr {
    let mut node = plain_node("stack.service.db", "db");
    declare(&mut node, "port", "numeric", TorbInput::Numeric(TorbNumeric::Int(5432)), "service.port");
    declare(&mut node, "user", "string", text("admin"), "auth.user");
    declare(&mut node, "debug", "bool", TorbInput::Bool(false), "debug");
    node
}

#[test]
fn mapped_inputs_have_exactly_the_declared_keys() {
    let mut node = declared_node();
    let mut inputs = OrderedMap::new();
    inputs.insert("user".to_string(), text("root"));
    assert_eq!(node.validate_map_and_set_inputs(inputs), Ok(false));
    assert_eq!(node.mapped_inputs.key_list(), node.input_spec.key_list());
    assert_eq!(node.mapped_inputs.key_list(), vec!["port", "user", "debug"]);
    assert_eq!(
        node.mapped_inputs.get("port"),
        Some(&("service.port".to_string(), TorbInput::Numeric(TorbNumeric::Int(5432))))
    );
    assert_eq!(node.mapped_inputs.get("user"), Some(&("auth.user".to_string(), text("root"))));
    assert_eq!(
        node.mapped_inputs.get("debug"),
        Some(&("debug".to_string(), TorbInput::Bool(false)))
    );
}

#[test]
fn an_undeclared_input_is_refused_by_name() {
    let mut node = declared_node();
    let mut inputs = OrderedMap::new();
    inputs.insert("user".to_string(), text("root"));
    inputs.insert("colour".to_string(), text("red"));
    assert_eq!(
        node.validate_map_and_set_inputs(inputs),
        Err("Input validation failed: colour is not a valid key. Valid Keys: port, user, debug"
            .to_string())
    );
    assert_eq!(node.mapped_inputs.len(), 0);
}

#[test]
fn a_value_of_the_wrong_type_is_refused() {
    let mut node = declared_node();
    let mut inputs = OrderedMap::new();
    inputs.insert("port".to_string(), text("eighty"));
    assert_eq!(
        node.validate_map_and_set_inputs(inputs),
        Err("Input validation failed: port is type string but is supposed to be numeric is not a valid key. Valid Keys: port, user, debug".to_string())
    );
}

#[test]
fn an_address_passes_for_any_type() {
    let mut node = declared_node();
    let mut inputs = OrderedMap::new();
    inputs.insert("port".to_string(), text("self.service.other.output.port"));
    assert_eq!(node.validate_map_and_set_inputs(inputs), Ok(false));
    assert_eq!(
        node.mapped_inputs.get("port"),
        Some(&("service.port".to_string(), text("self.service.other.output.port")))
    );
}

#[test]
fn inputs_without_declarations_are_discarded() {
    let mut node = plain_node("stack.service.db", "db");
    let mut inputs = OrderedMap::new();
    inputs.insert("anything".to_string(), text("x"));
    assert_eq!(node.validate_map_and_set_inputs(inputs), Ok(true));
    assert_eq!(node.mapped_inputs.len(), 0);
    assert_eq!(node.validate_map_and_set_inputs(OrderedMap::new()), Ok(false));
}

#[test]
fn validate_inputs_reports_the_first_problem() {
    let node = declared_node();
    let mut inputs = OrderedMap::new();
    inputs.insert("debug".to_string(), TorbInput::Numeric(TorbNumeric::Int(1)));
    inputs.insert("nope".to_string(), text("x"));
    assert_eq!(
        ArtifactNodeRepr::validate_inputs(&inputs, &node.input_spec),
        Err("debug is type numeric but is supposed to be bool".to_string())
    );
    let mut fine = OrderedMap::new();
    fine.insert("debug".to_string(), TorbInput::Bool(true));
    assert_eq!(ArtifactNodeRepr::validate_inputs(&fine, &node.input_spec), Ok(()));
    let mut unknown = OrderedMap::new();
    unknown.insert("nope".to_string(), text("x"));
    assert_eq!(
        ArtifactNodeRepr::validate_inputs(&unknown, &node.input_spec),
        Err("nope".to_string())
    );
}

#[test]
fn display_name_prefers_the_name_input() {
    let mut node = plain_node("stack.service.my-db", "my-db");
    assert_eq!(node.display_name(None), "my_db");
    assert_eq!(node.display_name(Some(false)), "my_db");
    assert_eq!(node.display_name(Some(true)), "my-db");
    node.mapped_inputs.insert("name".to_string(), ("fullname".to_string(), text("main-db")));
    assert_eq!(node.display_name(Some(true)), "main-db");
    assert_eq!(node.display_name(None), "main_db");
    node.mapped_inputs.insert(
        "name".to_string(),
        ("fullname".to_string(), TorbInput::Bool(true)),
    );
    assert_eq!(node.display_name(Some(true)), "my-db");
}

#[test]
fn address_to_fqn_names_the_node() {
    let address = InputAddress::try_from("self.project.api.output.url");
    assert_eq!(
        ArtifactNodeRepr::address_to_fqn(&"stack".to_string(), &address),
        Some("stack.project.api".to_string())
    );
    let literal = InputAddress::try_from("literal");
    assert_eq!(ArtifactNodeRepr::address_to_fqn(&"stack".to_string(), &literal), None);
    assert_eq!(fqn_for("s", "service", "db"), "s.service.db");
}

#[test]
fn a_new_node_has_no_dependencies() {
    let node = plain_node("stack.service.db", "db");
    assert_eq!(node.fqn, "stack.service.db");
    assert_eq!(node.name, "db");
    assert_eq!(node.dependencies.len(), 0);
    assert_eq!(node.implicit_dependency_fqns.len(), 0);
    assert_eq!(node.dependency_names, NodeDependencies::default());
    assert_eq!(
        BuildStep::default(),
        BuildStep {
            script_path: String::new(),
            dockerfile: String::new(),
            tag: String::new(),
            registry: String::new()
        }
    );
}

#[test]
fn node_duplicates_hold_the_same_content() {
    let mut node = declared_node();
    node.dependencies.push(plain_node("stack.service.cache", "cache"));
    node.implicit_dependency_fqns.insert("stack.service.cache".to_string());
    node.init_step = Some(vec!["echo hi".to_string()]);
    let copy = node.duplicate();
    assert_eq!(copy, node);
    let replaced = node.duplicate_with(vec![]);
    assert_eq!(replaced.dependencies.len(), 0);
    assert_eq!(replaced.fqn, node.fqn);
    assert_eq!(replaced.input_spec, node.input_spec);
}

#[test]
fn the_workload_of_a_node_is_named_after_release_and_node() {
    let node = plain_node("stack.service.my_db", "my_db");
    assert_eq!(torb::watcher::resource_name("rel", &node), "rel-my_db");
    let kebab = plain_node("stack.service.db", "main-db");
    assert_eq!(torb::watcher::resource_name("rel", &kebab), "rel-main-db");
}
