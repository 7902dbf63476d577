use torb::address::InputAddress;
use torb::artifacts::{walk_graph, ArtifactRepr};
use torb::collections::OrderedMap;
use torb::composer::{Composer, Expression, TorbComposerErrors};
use torb::graph::StackGraph;
use torb::inputs::{InputResolver, NO_INITS_FN};
use torb::node::ArtifactNodeRepr;
use torb::value::{TorbFloat, TorbInput, TorbNumeric};
use torb::watcher::WatcherConfig;
use torb::yaml::YamlValue;

fn node(fqn: &str, name: &str, values: &str) -> ArtifactNodeRepr {
    ArtifactNodeRepr::new(
        fqn.to_string(),
        name.to_string(),
        "1".to_string(),
        "service".to_string(),
        None,
        None,
        None,
        OrderedMap::new(),
        OrderedMap::new(),
        OrderedMap::new(),
        Vec::new(),
        String::new(),
        None,
        values.to_string(),
        None,
        None,
    )
}

fn artifact() -> ArtifactRepr {
    let mut graph = StackGraph::new(
        "stack".to_string(),
        "stack".to_string(),
        "v1".to_string(),
        OrderedMap::new(),
        "tf".to_string(),
        "helm".to_string(),
        None,
        None,
        Some("my-release".to_string()),
        None,
        WatcherConfig::default(),
    );
    let mut db = node("stack.service.db", "main-db", "");
    db.mapped_inputs.insert(
        "port".to_string(),
        ("service.port".to_string(), TorbInput::Numeric(TorbNumeric::Int(5432))),
    );
    db.mapped_inputs.insert("unmapped".to_string(), (String::new(), TorbInput::Bool(true)));
    let mut web = node(
        "stack.service.web",
        "web",
        "host: self.service.db.output.host\nport: self.service.db.output.port\nmode: fast\n",
    );
    web.implicit_dependency_fqns.insert("stack.service.db".to_string());
    for n in vec![db, web] {
        graph.add_service(&n);
        graph.add_all_incoming_edges_downstream("stack".to_string(), &n);
    }
    walk_graph(&graph).unwrap()
}

fn address(text: &str) -> Result<InputAddress, TorbInput> {
    InputAddress::try_from(text)
}

#[test]
fn a_reserved_specifier_resolves_to_the_network_name() {
    let artifact = artifact();
    let composer = Composer::new("hash".to_string(), &artifact);
    let values = YamlValue::parse("host: self.service.db.output.host\n").unwrap();
    let composed = composer.compose_values(&values).unwrap();
    assert_eq!(
        composed,
        YamlValue::Mapping(vec![(
            YamlValue::String("host".to_string()),
            YamlValue::String("my-release-main_db.stack.svc.cluster.local".to_string())
        )])
    );
}

#[test]
fn the_values_transform_of_the_resolver_takes_the_composer() {
    let artifact = artifact();
    let composer = Composer::new("hash".to_string(), &artifact);
    let web = artifact.nodes.get("stack.service.web").unwrap();
    let resolved = InputResolver::resolve(
        web,
        Some(|arg: Result<InputAddress, TorbInput>| {
            composer.interpolate_inputs_into_helm_values(&arg).unwrap()
        }),
        None::<fn(&String, Result<InputAddress, TorbInput>) -> String>,
        NO_INITS_FN,
    )
    .unwrap();
    assert_eq!(
        resolved.values,
        Some(
            "---\nhost: my-release-main_db.stack.svc.cluster.local\nport: \"${jsondecode(data.torb_helm_release.my_release_main_db.values)[service.port]}\"\nmode: fast\n"
                .to_string()
        )
    );
    assert_eq!(composer.node_values(web), Ok(resolved.values));
}

#[test]
fn an_address_stands_for_an_expression() {
    let artifact = artifact();
    let composer = Composer::new("hash".to_string(), &artifact);
    assert_eq!(composer.release_name, "my-release");
    assert_eq!(
        composer.input_values_from_input_address(&address("self.service.db.output.host")),
        Ok(Expression::String("my-release-main_db.stack.svc.cluster.local".to_string()))
    );
    assert_eq!(
        composer.input_values_from_input_address(&address("self.service.db.output.port")),
        Ok(Expression::Raw(
            "jsondecode(data.torb_helm_release.my_release_main_db.values)[\"service.port\"]"
                .to_string()
        ))
    );
    assert_eq!(
        composer.input_values_from_input_address(&address("self.service.db.inputs.port")),
        Ok(Expression::Raw(
            "jsondecode(data.torb_helm_release.my_release_main_db.values)[\"service.port\"]"
                .to_string()
        ))
    );
}

#[test]
fn addresses_that_lead_nowhere_are_errors() {
    let artifact = artifact();
    let composer = Composer::new("hash".to_string(), &artifact);
    assert_eq!(
        composer.input_values_from_input_address(&address("self.service.ghost.output.host")),
        Err(TorbComposerErrors::UnknownNode { fqn: "stack.service.ghost".to_string() })
    );
    assert_eq!(
        composer.input_values_from_input_address(&address("self.service.db.output.colour")),
        Err(TorbComposerErrors::UnknownInput {
            fqn: "stack.service.db".to_string(),
            key: "colour".to_string()
        })
    );
    assert_eq!(
        composer.input_values_from_input_address(&address("self.service.db.status.port")),
        Err(TorbComposerErrors::UnknownProperty { property: "status".to_string() })
    );
    assert_eq!(
        composer.interpolate_inputs_into_helm_values(&address("self.service.ghost.output.host")),
        Err(TorbComposerErrors::UnknownNode { fqn: "stack.service.ghost".to_string() })
    );
}

#[test]
fn literal_values_become_strings() {
    let artifact = artifact();
    let composer = Composer::new("hash".to_string(), &artifact);
    let literal = |value: TorbInput| composer.input_values_from_input_address(&Err(value));
    assert_eq!(
        literal(TorbInput::String("plain".to_string())),
        Ok(Expression::String("plain".to_string()))
    );
    assert_eq!(literal(TorbInput::Bool(true)), Ok(Expression::String("true".to_string())));
    assert_eq!(
        literal(TorbInput::Numeric(TorbNumeric::Int(7))),
        Ok(Expression::String("7".to_string()))
    );
    assert_eq!(
        literal(TorbInput::Numeric(TorbNumeric::NegInt(-7))),
        Ok(Expression::String("-7".to_string()))
    );
    assert_eq!(
        literal(TorbInput::Numeric(TorbNumeric::Float(TorbFloat::parse("0.5").unwrap()))),
        Ok(Expression::String("0.5".to_string()))
    );
    assert_eq!(
        literal(TorbInput::Array(vec![
            TorbInput::String("a".to_string()),
            TorbInput::Numeric(TorbNumeric::Int(1)),
            TorbInput::Bool(false)
        ])),
        Ok(Expression::String("{\"a\",1,false}".to_string()))
    );
    assert_eq!(
        literal(TorbInput::Array(vec![TorbInput::Array(vec![])])),
        Err(TorbComposerErrors::NestedArray)
    );
    assert_eq!(
        composer.interpolate_inputs_into_helm_values(&Err(TorbInput::String("pl\"ain".to_string()))),
        Ok("\"pl\\\"ain\"".to_string())
    );
}

#[test]
fn module_inputs_are_the_mapped_inputs_by_their_keys() {
    let artifact = artifact();
    let composer = Composer::new("hash".to_string(), &artifact);
    let db = artifact.nodes.get("stack.service.db").unwrap();
    assert_eq!(
        composer.create_input_values(db),
        Ok(vec![
            ("port".to_string(), Expression::String("5432".to_string())),
            ("unmapped".to_string(), Expression::String("true".to_string())),
        ])
    );
    let mut web = node("stack.service.web", "web", "");
    web.mapped_inputs.insert(
        "db".to_string(),
        ("database.host".to_string(), TorbInput::String("self.service.db.output.host".to_string())),
    );
    assert_eq!(
        composer.create_input_values(&web),
        Ok(vec![(
            "db".to_string(),
            Expression::String("my-release-main_db.stack.svc.cluster.local".to_string())
        )])
    );
}

#[test]
fn a_node_without_values_has_no_composed_text() {
    let artifact = artifact();
    let composer = Composer::new("hash".to_string(), &artifact);
    assert_eq!(composer.node_values(&node("stack.service.x", "x", "")), Ok(None));
    assert_eq!(composer.node_values(&node("stack.service.x", "x", "---\n~\n")), Ok(None));
    assert_eq!(
        composer.node_values(&node("stack.service.x", "x", "a: self.service.ghost.output.b\n")),
        Err(TorbComposerErrors::UnknownNode { fqn: "stack.service.ghost".to_string() })
    );
    assert_eq!(
        composer.get_node_for_output_value(&address("self.service.db.output.x").unwrap()).unwrap().name,
        "main-db"
    );
}

#[test]
fn the_module_of_a_node() {
    let artifact = artifact();
    let composer = Composer::new("hash".to_string(), &artifact);
    let mut web = node("stack.service.web", "web-app", "host: self.service.db.output.host\n");
    web.source = Some("torb-artifacts".to_string());
    web.build_step = Some(torb::node::BuildStep {
        script_path: String::new(),
        dockerfile: "Dockerfile".to_string(),
        tag: String::new(),
        registry: "local".to_string(),
    });
    let mut helm = OrderedMap::new();
    helm.insert("chart".to_string(), "charts/web".to_string());
    helm.insert("repository".to_string(), String::new());
    web.deploy_steps.insert("helm".to_string(), Some(helm));
    web.implicit_dependency_fqns.insert("stack.service.db".to_string());
    web.dependencies.push(node("stack.service.db", "main-db", ""));
    web.dependencies.push(node("stack.service.cache", "cache", ""));
    web.mapped_inputs.insert(
        "port".to_string(),
        ("service.port".to_string(), TorbInput::Numeric(TorbNumeric::Int(80))),
    );
    let plan = composer.module_plan(&web).unwrap();
    assert_eq!(plan.name, "stack_service_web");
    assert_eq!(plan.source, "./torb_artifacts/web_app_module");
    assert_eq!(plan.release_name, "my-release-web-app");
    assert_eq!(plan.namespace, "stack");
    assert_eq!(plan.repository, None);
    assert_eq!(plan.chart_name, "charts/web");
    assert_eq!(plan.version, None);
    assert_eq!(plan.inputs, vec![("port".to_string(), Expression::String("80".to_string()))]);
    assert_eq!(
        plan.values,
        vec![
            "---\nimage:\n  tag: latest\n  repository: web_app\n".to_string(),
            "---\nhost: my-release-main_db.stack.svc.cluster.local\n".to_string(),
        ]
    );
    assert_eq!(plan.depends_on, vec!["module.stack_service_cache"]);
    assert_eq!(plan.data_label, "my_release_web_app");
}

#[test]
fn a_chart_from_a_repository_and_no_values() {
    let artifact = artifact();
    let composer = Composer::new("hash".to_string(), &artifact);
    let mut db = node("stack.service.db", "db", "");
    db.source = Some("my-repo".to_string());
    let mut helm = OrderedMap::new();
    helm.insert("chart".to_string(), "postgresql".to_string());
    helm.insert("repository".to_string(), "https://charts.example.com".to_string());
    helm.insert("version".to_string(), "12.1.0".to_string());
    db.deploy_steps.insert("helm".to_string(), Some(helm));
    let plan = composer.module_plan(&db).unwrap();
    assert_eq!(plan.repository, Some("https://charts.example.com".to_string()));
    assert_eq!(plan.chart_name, "postgresql");
    assert_eq!(plan.version, Some("12.1.0".to_string()));
    assert_eq!(plan.values, Vec::<String>::new());
    assert_eq!(plan.depends_on, Vec::<String>::new());
    assert_eq!(Composer::helm_setting(&db, "chart"), "postgresql");
    assert_eq!(Composer::helm_setting(&db, "none"), "");
    assert_eq!(Composer::image_values(&db), Ok(None));
}
