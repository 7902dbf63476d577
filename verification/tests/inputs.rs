use torb::address::InputAddress;
use torb::collections::OrderedMap;
use torb::inputs::{
    interpolate_line, read_values, resolve_mapped_inputs, resolve_values_in, InputResolver,
    TorbInputResolverErrors, NO_INITS_FN,
};
use torb::node::ArtifactNodeRepr;
use torb::value::{TorbInput, TorbNumeric};
use torb::yaml::YamlValue;

fn node_with_inputs(entries: Vec<(&str, &str, TorbInput)>) -> ArtifactNodeRepr {
    let mut mapped = OrderedMap::new();
    for (key, mapping, value) in entries {
        mapped.insert(key.to_string(), (mapping.to_string(), value));
    }
    ArtifactNodeRepr::new(
        "stack.service.api".to_string(),
        "api".to_string(),
        "1.0.0".to_string(),
        "service".to_string(),
        None,
        None,
        None,
        OrderedMap::new(),
        mapped,
        OrderedMap::new(),
        Vec::new(),
        String::new(),
        None,
        String::new(),
        None,
        None,
    )
}

fn alice() -> ArtifactNodeRepr {
    node_with_inputs(vec![
        ("name", "n", TorbInput::String("alice".to_string())),
        ("port", "p", TorbInput::Numeric(TorbNumeric::Int(80))),
        ("tags", "t", TorbInput::Array(vec![TorbInput::Bool(true)])),
    ])
}

fn token_error(token: &str) -> TorbInputResolverErrors {
    TorbInputResolverErrors::UnresolvedInitToken { token: token.to_string() }
}

fn describe(arg: Result<InputAddress, TorbInput>) -> String {
    match arg {
        Ok(address) => format!("<{}/{}>", address.node_type, address.node_name),
        Err(TorbInput::String(text)) => format!("literal {}", text),
        Err(_) => "other".to_string(),
    }
}

fn describe_input(key: &String, arg: Result<InputAddress, TorbInput>) -> String {
    format!("{}={}", key, describe(arg))
}

#[test]
fn token_in_the_middle_bounded_by_a_slash() {
    let node = alice();
    assert_eq!(
        interpolate_line(&node.mapped_inputs, "echo TORB.inputs.name/rest"),
        Ok("echo \"alice\"/rest".to_string())
    );
}

#[test]
fn token_that_spans_the_whole_line() {
    let node = alice();
    assert_eq!(
        interpolate_line(&node.mapped_inputs, "TORB.inputs.name"),
        Ok("\"alice\"".to_string())
    );
}

#[test]
fn token_at_the_start_and_at_the_end() {
    let node = alice();
    assert_eq!(
        interpolate_line(&node.mapped_inputs, "TORB.inputs.port is the port"),
        Ok("80 is the port".to_string())
    );
    assert_eq!(
        interpolate_line(&node.mapped_inputs, "listen on TORB.inputs.port"),
        Ok("listen on 80".to_string())
    );
}

#[test]
fn several_tokens_and_the_nearer_delimiter() {
    let node = alice();
    assert_eq!(
        interpolate_line(&node.mapped_inputs, "a TORB.inputs.name b/TORB.inputs.port/c TORB.inputs.tags"),
        Ok("a \"alice\" b/80/c [true]".to_string())
    );
    assert_eq!(
        interpolate_line(&node.mapped_inputs, "x TORB.inputs.name y/z"),
        Ok("x \"alice\" y/z".to_string())
    );
}

#[test]
fn a_line_without_tokens_stays() {
    let node = alice();
    assert_eq!(interpolate_line(&node.mapped_inputs, "echo hello"), Ok("echo hello".to_string()));
    assert_eq!(interpolate_line(&node.mapped_inputs, ""), Ok(String::new()));
}

#[test]
fn a_resolved_value_is_not_looked_through_again() {
    let node = node_with_inputs(vec![("name", "n", TorbInput::String("TORB.inputs.name".to_string()))]);
    assert_eq!(
        interpolate_line(&node.mapped_inputs, "echo TORB.inputs.name"),
        Ok("echo \"TORB.inputs.name\"".to_string())
    );
}

#[test]
fn a_token_that_names_no_input_is_an_error() {
    let node = alice();
    assert_eq!(
        interpolate_line(&node.mapped_inputs, "echo TORB.inputs.missing now"),
        Err(token_error("TORB.inputs.missing"))
    );
    assert_eq!(
        interpolate_line(&node.mapped_inputs, "echo TORB.outputs.name"),
        Err(token_error("TORB.outputs.name"))
    );
    assert_eq!(interpolate_line(&node.mapped_inputs, "TORB"), Err(token_error("TORB")));
    let nested = node_with_inputs(vec![(
        "deep",
        "d",
        TorbInput::Array(vec![TorbInput::Array(vec![])]),
    )]);
    assert_eq!(
        interpolate_line(&nested.mapped_inputs, "TORB.inputs.deep"),
        Err(token_error("TORB.inputs.deep"))
    );
}

#[test]
fn init_script_lines_are_resolved_by_the_resolver() {
    let mut node = alice();
    node.init_step = Some(vec!["echo TORB.inputs.name".to_string(), "port TORB.inputs.port".to_string()]);
    let resolved = InputResolver::resolve(
        &node,
        None::<fn(Result<InputAddress, TorbInput>) -> String>,
        None::<fn(&String, Result<InputAddress, TorbInput>) -> String>,
        Some(true),
    )
    .unwrap();
    assert_eq!(resolved.values, None);
    assert_eq!(resolved.inputs, None);
    assert_eq!(
        resolved.inits,
        Some(vec!["echo \"alice\"".to_string(), "port 80".to_string()])
    );
}

#[test]
fn an_unresolved_line_fails_the_resolver() {
    let mut node = alice();
    node.init_step = Some(vec!["fine".to_string(), "echo TORB.inputs.none".to_string()]);
    let resolved = InputResolver::resolve(
        &node,
        None::<fn(Result<InputAddress, TorbInput>) -> String>,
        None::<fn(&String, Result<InputAddress, TorbInput>) -> String>,
        Some(true),
    );
    assert_eq!(resolved, Err(token_error("TORB.inputs.none")));
}

#[test]
fn nothing_is_resolved_where_nothing_is_asked_for() {
    let node = alice();
    let resolved = InputResolver::resolve(
        &node,
        None::<fn(Result<InputAddress, TorbInput>) -> String>,
        None::<fn(&String, Result<InputAddress, TorbInput>) -> String>,
        NO_INITS_FN,
    )
    .unwrap();
    assert_eq!(resolved.values, None);
    assert_eq!(resolved.inputs, None);
    assert_eq!(resolved.inits, None);
}

#[test]
fn the_token_names_an_input() {
    let node = alice();
    let resolver = InputResolver {
        node: &node,
        values_fn: None::<fn(Result<InputAddress, TorbInput>) -> String>,
        inputs_fn: None::<fn(&String, Result<InputAddress, TorbInput>) -> String>,
        inits_fn: Some(true),
    };
    assert_eq!(
        resolver.resolve_inputs_in_init_step("TORB.inputs.port".to_string()),
        Some(TorbInput::Numeric(TorbNumeric::Int(80)))
    );
    assert_eq!(resolver.resolve_inputs_in_init_step("TORB.inputs.none".to_string()), None);
    assert_eq!(resolver.resolve_inputs_in_init_step("port".to_string()), None);
}

#[test]
fn mapped_inputs_are_resolved_in_order() {
    let node = node_with_inputs(vec![
        ("host", "db.host", TorbInput::String("self.service.db.output.host".to_string())),
        ("mode", "mode", TorbInput::String("fast".to_string())),
        ("port", "db.port", TorbInput::Numeric(TorbNumeric::Int(1))),
    ]);
    let out = resolve_mapped_inputs(&node.mapped_inputs, &describe_input);
    assert_eq!(
        out,
        vec![
            ("host".to_string(), "host=<service/db>".to_string()),
            ("mode".to_string(), "mode=literal fast".to_string()),
            ("port".to_string(), "port=other".to_string()),
        ]
    );
}

#[test]
fn values_keep_their_shape_and_references_are_replaced() {
    let values = YamlValue::parse(
        "db:\n  host: self.service.db.output.host\n  port: 5432\nlist:\n  - self.project.api.output.url\n  - plain\n  - self.broken\nflag: true\nnone: ~\n",
    )
    .unwrap();
    let resolved = resolve_values_in(&values, &describe);
    let expected = YamlValue::parse(
        "db:\n  host: \"<service/db>\"\n  port: 5432\nlist:\n  - \"<project/api>\"\n  - plain\n  - literal self.broken\nflag: true\nnone: ~\n",
    )
    .unwrap();
    assert_eq!(resolved, expected);
}

#[test]
fn values_of_a_node_are_resolved_to_text() {
    let mut node = alice();
    node.values = "host: self.service.db.output.host\n".to_string();
    let resolved = InputResolver::resolve(
        &node,
        Some(describe),
        Some(describe_input),
        NO_INITS_FN,
    )
    .unwrap();
    assert_eq!(resolved.values, Some("---\nhost: \"<service/db>\"\n".to_string()));
    assert_eq!(resolved.inputs.unwrap().len(), 3);
    assert_eq!(resolved.inits, None);
}

#[test]
fn values_that_are_no_yaml_are_null() {
    assert_eq!(read_values("a: [1"), YamlValue::Null);
    assert_eq!(read_values(""), YamlValue::Null);
    assert_eq!(read_values("a: 1"), YamlValue::parse("a: 1").unwrap());
}
