use torb::artifacts::{deserialize_stack_yaml_into_artifact, TorbMaterializeErrors};
use torb::collections::OrderedMap;
use torb::node::{ArtifactNodeRepr, BuildStep, NodeDependencies};
use torb::resolver::{
    resolve_stack, stack_components, LoadedDefinition, Provenance, Resolver, TorbInputSpecErrors,
    TorbResolverErrors,
};
use torb::value::{TorbFloat, TorbInput, TorbInputSpec, TorbNumeric};
use torb::watcher::WatcherConfig;
use torb::yaml::YamlValue;

fn yaml(text: &str) -> YamlValue {
    YamlValue::parse(text).unwrap()
}

fn definition(name: &str, kind: &str) -> ArtifactNodeRepr {
    let mut node = ArtifactNodeRepr::new(
        String::new(),
        name.to_string(),
        "1.0.0".to_string(),
        kind.to_string(),
        Some("rust".to_string()),
        None,
        None,
        OrderedMap::new(),
        OrderedMap::new(),
        OrderedMap::new(),
        vec!["url".to_string()],
        String::new(),
        None,
        String::new(),
        None,
        None,
    );
    node.input_spec.insert(
        "port".to_string(),
        TorbInputSpec::new(
            "numeric".to_string(),
            TorbInput::Numeric(TorbNumeric::Int(80)),
            "service.port".to_string(),
        ),
    );
    node
}

fn provenance() -> Provenance {
    let mut commits = OrderedMap::new();
    commits.insert("torb-artifacts".to_string(), "abc123".to_string());
    Provenance {
        tf_version: "tf 1.3".to_string(),
        helm_version: "helm 3".to_string(),
        commits,
        meta: None,
    }
}

fn loaded(name: &str, kind: &str) -> LoadedDefinition {
    LoadedDefinition {
        definition: definition(name, kind),
        file_path: format!("/repo/{}s/{}/torb.yaml", kind, name),
    }
}

const STACK: &str = "name: My Stack\nversion: v1.0.0\nkind: stack\nnamespace: prod\nservices:\n  db:\n    service: postgresql\n    inputs:\n      port: 5432\n  cache:\n    service: redis\n    source: other-artifacts\nprojects:\n  api:\n    project: flaskapp\n    namespace: apps\n    inputs:\n      port: self.service.db.output.port\n    values:\n      cache:\n        host: self.service.cache.output.host\n    build:\n      tag: v2\n      registry: registry.io/me\n    deps:\n      services:\n        - db\n";

#[test]
fn input_values_are_read_from_yaml() {
    assert_eq!(TorbInput::from_yaml(&yaml("true")), Some(TorbInput::Bool(true)));
    assert_eq!(TorbInput::from_yaml(&yaml("text")), Some(TorbInput::String("text".to_string())));
    assert_eq!(TorbInput::from_yaml(&yaml("7")), Some(TorbInput::Numeric(TorbNumeric::Int(7))));
    assert_eq!(TorbInput::from_yaml(&yaml("-7")), Some(TorbInput::Numeric(TorbNumeric::NegInt(-7))));
    assert_eq!(
        TorbInput::from_yaml(&yaml("2.5")),
        Some(TorbInput::Numeric(TorbNumeric::Float(TorbFloat::parse("2.5").unwrap())))
    );
    assert_eq!(
        TorbInput::from_yaml(&yaml("[1, a, false]")),
        Some(TorbInput::Array(vec![
            TorbInput::Numeric(TorbNumeric::Int(1)),
            TorbInput::String("a".to_string()),
            TorbInput::Bool(false)
        ]))
    );
}

#[test]
fn nested_arrays_maps_and_null_are_no_input_values() {
    assert_eq!(TorbInput::from_yaml(&yaml("[[1]]")), None);
    assert_eq!(TorbInput::from_yaml(&yaml("[{a: 1}]")), None);
    assert_eq!(TorbInput::from_yaml(&yaml("[~]")), None);
    assert_eq!(TorbInput::from_yaml(&yaml("{a: 1}")), None);
    assert_eq!(TorbInput::from_yaml(&yaml("~")), None);
}

#[test]
fn a_declaration_is_a_type_a_default_and_a_mapping() {
    assert_eq!(
        TorbInputSpec::from_yaml(&yaml("[numeric, 80, service.port]")),
        Ok(TorbInputSpec::new(
            "numeric".to_string(),
            TorbInput::Numeric(TorbNumeric::Int(80)),
            "service.port".to_string()
        ))
    );
    assert_eq!(
        TorbInputSpec::from_yaml(&yaml("[bool, true, debug]")),
        Ok(TorbInputSpec::new("bool".to_string(), TorbInput::Bool(true), "debug".to_string()))
    );
    assert_eq!(
        TorbInputSpec::from_yaml(&yaml("[string, hello, greeting]")),
        Ok(TorbInputSpec::new(
            "string".to_string(),
            TorbInput::String("hello".to_string()),
            "greeting".to_string()
        ))
    );
    assert_eq!(
        TorbInputSpec::from_yaml(&yaml("[array, [a, 1], list]")),
        Ok(TorbInputSpec::new(
            "array".to_string(),
            TorbInput::Array(vec![
                TorbInput::String("a".to_string()),
                TorbInput::Numeric(TorbNumeric::Int(1))
            ]),
            "list".to_string()
        ))
    );
}

#[test]
fn a_bare_string_declares_a_string_input() {
    assert_eq!(
        TorbInputSpec::from_yaml(&yaml("image.name")),
        Ok(TorbInputSpec::new(
            "string".to_string(),
            TorbInput::String(String::new()),
            "image.name".to_string()
        ))
    );
}

#[test]
fn malformed_declarations_are_refused() {
    assert_eq!(TorbInputSpec::from_yaml(&yaml("[numeric, 80]")), Err(TorbInputSpecErrors::WrongShape));
    assert_eq!(
        TorbInputSpec::from_yaml(&yaml("[numeric, 80, a, b]")),
        Err(TorbInputSpecErrors::WrongShape)
    );
    assert_eq!(TorbInputSpec::from_yaml(&yaml("[1, 80, a]")), Err(TorbInputSpecErrors::WrongShape));
    assert_eq!(TorbInputSpec::from_yaml(&yaml("{a: 1}")), Err(TorbInputSpecErrors::WrongShape));
    assert_eq!(TorbInputSpec::from_yaml(&yaml("[numeric, 80, 5]")), Err(TorbInputSpecErrors::WrongShape));
    assert_eq!(TorbInputSpec::from_yaml(&yaml("[map, 80, a]")), Err(TorbInputSpecErrors::UnknownType));
    assert_eq!(
        TorbInputSpec::from_yaml(&yaml("[numeric, eighty, a]")),
        Err(TorbInputSpecErrors::WrongDefault)
    );
    assert_eq!(TorbInputSpec::from_yaml(&yaml("[bool, 1, a]")), Err(TorbInputSpecErrors::WrongDefault));
    assert_eq!(
        TorbInputSpec::from_yaml(&yaml("[array, [[1]], a]")),
        Err(TorbInputSpecErrors::WrongDefault)
    );
    assert_eq!(TorbInputSpec::from_yaml(&yaml("[string, 1, a]")), Err(TorbInputSpecErrors::WrongDefault));
}

#[test]
fn the_stack_wins_field_by_field_where_it_gives_something() {
    let own = BuildStep {
        script_path: "build.sh".to_string(),
        dockerfile: "Dockerfile".to_string(),
        tag: "latest".to_string(),
        registry: "local".to_string(),
    };
    let given = BuildStep {
        script_path: String::new(),
        dockerfile: "Dockerfile.prod".to_string(),
        tag: String::new(),
        registry: "registry.io".to_string(),
    };
    assert_eq!(
        Resolver::reconcile_build_step(own, given),
        BuildStep {
            script_path: "build.sh".to_string(),
            dockerfile: "Dockerfile.prod".to_string(),
            tag: "latest".to_string(),
            registry: "registry.io".to_string(),
        }
    );
}

#[test]
fn provided_inputs_are_read_in_order() {
    let params = yaml("b: 1\na: text\n");
    let inputs = Resolver::deserialize_params(Some(&params)).unwrap();
    assert_eq!(inputs.key_list(), vec!["b", "a"]);
    assert_eq!(inputs.get("a"), Some(&TorbInput::String("text".to_string())));
    assert_eq!(Resolver::deserialize_params(None).unwrap().len(), 0);
    assert_eq!(
        Resolver::deserialize_params(Some(&yaml("a: {b: 1}"))),
        Err(TorbResolverErrors::UnsupportedInputValue)
    );
    assert_eq!(
        Resolver::deserialize_params(Some(&yaml("[1]"))),
        Err(TorbResolverErrors::UnsupportedInputValue)
    );
}

#[test]
fn a_service_is_loaded_from_its_entry_and_its_definition() {
    let entry = yaml("service: postgresql\nsource: my-repo\nnamespace: data\ninputs:\n  port: 5432\nvalues:\n  peer: self.service.cache.output.host\ndeps:\n  services: [cache]\n");
    let loaded = Resolver::resolve_node(
        "stack",
        "service",
        "db",
        &entry,
        definition("postgresql", "service"),
        "/repo/services/postgresql/torb.yaml".to_string(),
    )
    .unwrap();
    assert!(!loaded.inputs_discarded);
    let node = loaded.node;
    assert_eq!(node.fqn, "stack.service.db");
    assert_eq!(node.name, "postgresql");
    assert_eq!(node.file_path, "/repo/services/postgresql/torb.yaml");
    assert_eq!(node.source, Some("my-repo".to_string()));
    assert_eq!(node.namespace, Some("data".to_string()));
    assert_eq!(node.values, "---\npeer: self.service.cache.output.host\n");
    assert_eq!(node.build_step, None);
    assert_eq!(node.mapped_inputs.key_list(), node.input_spec.key_list());
    assert_eq!(
        node.mapped_inputs.get("port"),
        Some(&("service.port".to_string(), TorbInput::Numeric(TorbNumeric::Int(5432))))
    );
    assert!(node.implicit_dependency_fqns.contains("stack.service.cache"));
    assert_eq!(node.implicit_dependency_fqns.len(), 1);
    assert_eq!(
        node.dependency_names,
        NodeDependencies { services: Some(vec!["cache".to_string()]), projects: None, stacks: None }
    );
    assert_eq!(node.outputs, vec!["url"]);
    assert_eq!(node.lang, Some("rust".to_string()));
}

#[test]
fn a_project_gets_its_build_step_reconciled() {
    let entry = yaml("project: flaskapp\nbuild:\n  tag: v2\n");
    let mut own = definition("flaskapp", "project");
    own.build_step = Some(BuildStep {
        script_path: String::new(),
        dockerfile: "Dockerfile".to_string(),
        tag: "latest".to_string(),
        registry: "local".to_string(),
    });
    let node = Resolver::resolve_node("stack", "project", "api", &entry, own, "p".to_string())
        .unwrap()
        .node;
    assert_eq!(
        node.build_step,
        Some(BuildStep {
            script_path: String::new(),
            dockerfile: "Dockerfile".to_string(),
            tag: "v2".to_string(),
            registry: "local".to_string(),
        })
    );
    assert_eq!(node.source, Some("torb-artifacts".to_string()));
    assert_eq!(node.namespace, None);
    assert_eq!(node.values, "---\n~\n");
    assert_eq!(
        node.mapped_inputs.get("port"),
        Some(&("service.port".to_string(), TorbInput::Numeric(TorbNumeric::Int(80))))
    );
    let bare = Resolver::resolve_node(
        "stack",
        "project",
        "api",
        &yaml("project: flaskapp\n"),
        definition("flaskapp", "project"),
        "p".to_string(),
    )
    .unwrap()
    .node;
    assert_eq!(bare.build_step, Some(BuildStep::default()));
}

#[test]
fn an_entry_with_an_unknown_input_does_not_load() {
    let entry = yaml("service: postgresql\ninputs:\n  colour: red\n");
    assert_eq!(
        Resolver::resolve_node("s", "service", "db", &entry, definition("postgresql", "service"), "p".to_string()),
        Err(TorbResolverErrors::InvalidInputs {
            message: "Input validation failed: colour is not a valid key. Valid Keys: port".to_string()
        })
    );
}

#[test]
fn malformed_entries_do_not_load() {
    let fails = |kind: &str, entry: &str| {
        Resolver::resolve_node("s", kind, "n", &yaml(entry), definition("d", kind), "p".to_string())
    };
    assert_eq!(fails("service", "project: x\n"), Err(TorbResolverErrors::CannotParseStackManifest));
    assert_eq!(fails("stack", "stack: x\n"), Err(TorbResolverErrors::CannotParseStackManifest));
    assert_eq!(fails("service", "service: x\nsource: 5\n"), Err(TorbResolverErrors::CannotParseStackManifest));
    assert_eq!(fails("service", "service: x\nnamespace: [a]\n"), Err(TorbResolverErrors::CannotParseStackManifest));
    assert_eq!(fails("project", "project: x\nbuild: 5\n"), Err(TorbResolverErrors::CannotParseStackManifest));
    assert_eq!(fails("service", "service: x\ndeps: [a]\n"), Err(TorbResolverErrors::CannotParseStackManifest));
    assert_eq!(fails("service", "service: x\ninputs:\n  port: [[1]]\n"), Err(TorbResolverErrors::UnsupportedInputValue));
}

#[test]
fn inputs_for_a_component_without_declarations_are_discarded() {
    let mut bare = definition("d", "service");
    bare.input_spec = OrderedMap::new();
    let loaded = Resolver::resolve_node(
        "s",
        "service",
        "n",
        &yaml("service: d\ninputs:\n  a: 1\n"),
        bare,
        "p".to_string(),
    )
    .unwrap();
    assert!(loaded.inputs_discarded);
    assert_eq!(loaded.node.mapped_inputs.len(), 0);
}

#[test]
fn components_are_asked_for_in_document_order() {
    let requests = stack_components(&STACK.to_string()).unwrap();
    let listed: Vec<(String, String)> =
        requests.iter().map(|r| (r.kind.clone(), r.node_name.clone())).collect();
    assert_eq!(
        listed,
        vec![
            ("service".to_string(), "db".to_string()),
            ("service".to_string(), "cache".to_string()),
            ("project".to_string(), "api".to_string()),
        ]
    );
    assert_eq!(
        requests[0].location(),
        Ok(("torb-artifacts".to_string(), "postgresql".to_string()))
    );
    assert_eq!(
        requests[1].location(),
        Ok(("other-artifacts".to_string(), "redis".to_string()))
    );
    assert_eq!(
        stack_components(&"- a\n".to_string()),
        Err(TorbResolverErrors::CannotParseStackManifest)
    );
    assert_eq!(
        stack_components(&"a: [1".to_string()),
        Err(TorbResolverErrors::CannotParseStackManifest)
    );
}

fn stack_definitions() -> Vec<LoadedDefinition> {
    vec![
        loaded("postgresql", "service"),
        loaded("redis", "service"),
        loaded("flaskapp", "project"),
    ]
}

#[test]
fn a_stack_resolves_to_its_graph() {
    let (graph, warned) =
        resolve_stack(&STACK.to_string(), provenance(), &stack_definitions()).unwrap();
    assert_eq!(warned, Vec::<String>::new());
    assert_eq!(graph.name, "my_stack");
    assert_eq!(graph.version, "v1.0.0");
    assert_eq!(graph.kind, "stack");
    assert_eq!(graph.tf_version, "tf 1.3");
    assert_eq!(graph.helm_version, "helm 3");
    assert_eq!(graph.commits.get("torb-artifacts"), Some(&"abc123".to_string()));
    assert_eq!(graph.namespace, Some("prod".to_string()));
    assert_eq!(graph.release, None);
    assert_eq!(graph.repositories, None);
    assert_eq!(graph.watcher, WatcherConfig::default());
    assert_eq!(graph.services.key_list(), vec!["my_stack.service.db", "my_stack.service.cache"]);
    assert_eq!(graph.projects.key_list(), vec!["my_stack.project.api"]);
    let api = graph.projects.get("my_stack.project.api").unwrap();
    assert_eq!(api.namespace, Some("apps".to_string()));
    assert_eq!(api.implicit_dependency_fqns.len(), 2);
    assert!(api.implicit_dependency_fqns.contains("my_stack.service.db"));
    assert!(api.implicit_dependency_fqns.contains("my_stack.service.cache"));
    assert_eq!(
        graph.incoming_edges.get("my_stack.service.db"),
        Some(&vec!["my_stack.project.api".to_string()])
    );
    assert_eq!(graph.incoming_edges.get("my_stack.service.cache"), Some(&vec![]));
    assert_eq!(graph.incoming_edges.get("my_stack.project.api"), Some(&vec![]));
}

#[test]
fn a_stack_without_its_definitions_does_not_resolve() {
    assert_eq!(
        resolve_stack(&STACK.to_string(), provenance(), &vec![loaded("postgresql", "service")]),
        Err(TorbResolverErrors::MissingDefinition)
    );
    assert_eq!(
        resolve_stack(&"version: v1\nkind: stack\n".to_string(), provenance(), &vec![]),
        Err(TorbResolverErrors::CannotParseStackManifest)
    );
    assert_eq!(
        resolve_stack(&"name: s\nversion: v1\nkind: stack\nwatcher:\n  paths: [a]\n".to_string(), provenance(), &vec![]),
        Err(TorbResolverErrors::CannotParseStackManifest)
    );
}

#[test]
fn watcher_and_repositories_are_read_from_the_stack() {
    let text = "name: s\nversion: v1\nkind: stack\nrelease: rel\nrepositories: [a, b]\nwatcher:\n  paths: [src, lib]\n  interval: 500\n  patch: false\n";
    let (graph, _) = resolve_stack(&text.to_string(), provenance(), &vec![]).unwrap();
    assert_eq!(graph.release, Some("rel".to_string()));
    assert_eq!(graph.repositories, Some(vec!["a".to_string(), "b".to_string()]));
    assert_eq!(
        graph.watcher,
        WatcherConfig::new(vec!["src".to_string(), "lib".to_string()], 500, false)
    );
    assert_eq!(graph.services.len(), 0);
}

#[test]
fn a_stack_document_becomes_an_artifact() {
    let artifact =
        deserialize_stack_yaml_into_artifact(&STACK.to_string(), provenance(), &stack_definitions())
            .unwrap();
    let roots: Vec<&str> = artifact.deploys.iter().map(|n| n.fqn.as_str()).collect();
    assert_eq!(roots, vec!["my_stack.service.cache", "my_stack.project.api"]);
    let children: Vec<&str> =
        artifact.deploys[1].dependencies.iter().map(|n| n.fqn.as_str()).collect();
    assert_eq!(children, vec!["my_stack.service.db", "my_stack.service.cache"]);
    assert_eq!(
        artifact.nodes.key_list(),
        vec!["my_stack.service.cache", "my_stack.service.db", "my_stack.project.api"]
    );
    match deserialize_stack_yaml_into_artifact(&"[".to_string(), provenance(), &vec![]) {
        Err(TorbMaterializeErrors::Resolver(TorbResolverErrors::CannotParseStackManifest)) => {}
        other => panic!("expected a parse error, got {:?}", other),
    }
}

#[test]
fn resolver_error_messages() {
    assert_eq!(
        TorbResolverErrors::CannotParseStackManifest.message(),
        "Unable to parse stack manifest, please check that it is a valid Torb stack manifest."
    );
    assert_eq!(
        TorbResolverErrors::InvalidInputs { message: "m".to_string() }.message(),
        "m"
    );
}

#[test]
fn an_input_value_is_read_back_from_what_it_is_written_as() {
    let values = vec![
        TorbInput::Bool(true),
        TorbInput::String("self.a.b.c.d".to_string()),
        TorbInput::Numeric(TorbNumeric::Int(7)),
        TorbInput::Numeric(TorbNumeric::NegInt(-7)),
        TorbInput::Numeric(TorbNumeric::Float(TorbFloat::parse("2.5").unwrap())),
        TorbInput::Array(vec![TorbInput::Bool(false), TorbInput::String("x".to_string())]),
        TorbInput::Array(vec![]),
    ];
    for value in values {
        assert_eq!(TorbInput::from_yaml(&value.to_yaml()), Some(value));
    }
    assert_eq!(
        TorbInput::Array(vec![TorbInput::Numeric(TorbNumeric::Int(1))]).to_yaml(),
        yaml("[1]")
    );
}

#[test]
fn a_declaration_is_read_back_from_what_it_is_written_as() {
    let declarations = vec![
        TorbInputSpec::new("bool".to_string(), TorbInput::Bool(true), "debug".to_string()),
        TorbInputSpec::new(
            "string".to_string(),
            TorbInput::String("hello".to_string()),
            "greeting".to_string(),
        ),
        TorbInputSpec::new(
            "numeric".to_string(),
            TorbInput::Numeric(TorbNumeric::NegInt(-1)),
            "offset".to_string(),
        ),
        TorbInputSpec::new(
            "array".to_string(),
            TorbInput::Array(vec![TorbInput::Bool(true), TorbInput::String("x".to_string())]),
            "list".to_string(),
        ),
    ];
    for declaration in declarations {
        assert_eq!(TorbInputSpec::from_yaml(&declaration.to_yaml()), Ok(declaration));
    }
}

#[test]
fn the_nested_stack_goes_into_the_graph_and_the_artifact() {
    let (inner, _) = resolve_stack(
        &"name: inner\nversion: v1\nkind: stack\nservices:\n  db:\n    service: postgresql\n".to_string(),
        provenance(),
        &vec![loaded("postgresql", "service")],
    )
    .unwrap();
    let mut with_meta = provenance();
    with_meta.meta = Some(Box::new(inner));
    let (graph, _) = resolve_stack(&STACK.to_string(), with_meta, &stack_definitions()).unwrap();
    assert_eq!(graph.meta.as_ref().unwrap().name, "inner");
    let mut again = provenance();
    again.meta = graph.meta;
    let artifact =
        deserialize_stack_yaml_into_artifact(&STACK.to_string(), again, &stack_definitions())
            .unwrap();
    let meta = artifact.meta.unwrap();
    assert_eq!(meta.stack_name, "inner");
    assert_eq!(meta.nodes.key_list(), vec!["inner.service.db"]);
}

#[test]
fn a_stack_with_a_dependency_it_lacks_is_resolved_but_not_materialised() {
    let text = "name: s\nversion: v1\nkind: stack\nservices:\n  db:\n    service: postgresql\n    deps:\n      services: [ghost]\n";
    let definitions = vec![loaded("postgresql", "service")];
    assert!(resolve_stack(&text.to_string(), provenance(), &definitions).is_ok());
    match deserialize_stack_yaml_into_artifact(&text.to_string(), provenance(), &definitions) {
        Err(TorbMaterializeErrors::Artifact(error)) => assert_eq!(
            error,
            torb::artifacts::TorbArtifactErrors::UnknownDependency {
                fqn: "s.service.ghost".to_string()
            }
        ),
        other => panic!("expected a missing dependency, got {:?}", other),
    }
}
