use torb::artifacts::{walk_graph, ArtifactRepr};
use torb::builder::{execution_order, BuildAction, StackBuilder, TorbBuilderErrors};
use torb::collections::{OrderedMap, StringSet};
use torb::graph::StackGraph;
use torb::initializer::StackInitializer;
use torb::node::{ArtifactNodeRepr, BuildStep, NodeDependencies};
use torb::value::TorbInput;
use torb::watcher::WatcherConfig;

fn node(fqn: &str, services: Vec<&str>) -> ArtifactNodeRepr {
    let mut node = ArtifactNodeRepr::new(
        fqn.to_string(),
        "n".to_string(),
        "1".to_string(),
        "service".to_string(),
        None,
        None,
        None,
        OrderedMap::new(),
        OrderedMap::new(),
        OrderedMap::new(),
        Vec::new(),
        String::new(),
        None,
        String::new(),
        None,
        None,
    );
    if !services.is_empty() {
        node.dependency_names = NodeDependencies {
            services: Some(services.iter().map(|s| s.to_string()).collect()),
            projects: None,
            stacks: None,
        };
    }
    node
}

fn diamond() -> ArtifactRepr {
    let mut graph = StackGraph::new(
        "stack".to_string(),
        "stack".to_string(),
        "v1".to_string(),
        OrderedMap::new(),
        "tf".to_string(),
        "helm".to_string(),
        None,
        None,
        None,
        None,
        WatcherConfig::default(),
    );
    for n in vec![
        node("stack.service.a", vec!["c"]),
        node("stack.service.b", vec!["c", "d"]),
        node("stack.service.c", vec!["d"]),
        node("stack.service.d", vec![]),
    ] {
        graph.add_service(&n);
        graph.add_all_incoming_edges_downstream("stack".to_string(), &n);
    }
    walk_graph(&graph).unwrap()
}

fn names(set: &StringSet) -> Vec<String> {
    (0..set.len()).map(|i| set.item_at(i).clone()).collect()
}

#[test]
fn every_node_is_built_once_after_its_dependencies() {
    let artifact = diamond();
    let mut builder = StackBuilder::new(&artifact, "linux/amd64".to_string(), false, false);
    let order = builder.build();
    assert_eq!(
        order,
        vec!["stack.service.d", "stack.service.c", "stack.service.b", "stack.service.a"]
    );
    assert_eq!(names(&builder.built), order);
}

#[test]
fn exempt_nodes_are_passed_over_with_what_is_below_them() {
    let artifact = diamond();
    let mut builder = StackBuilder::new_with_exempt_list(
        &artifact,
        "linux/amd64".to_string(),
        false,
        false,
        vec!["stack.service.c".to_string(), "stack.service.c".to_string()],
    );
    assert_eq!(names(&builder.exempt), vec!["stack.service.c"]);
    assert_eq!(builder.build(), vec!["stack.service.d", "stack.service.b", "stack.service.a"]);
    let mut exempt = StringSet::new();
    exempt.insert("stack.service.b".to_string());
    assert_eq!(
        names(&execution_order(&artifact.deploys, &exempt)),
        vec!["stack.service.d", "stack.service.c", "stack.service.a"]
    );
}

#[test]
fn every_node_is_initialised_once() {
    let artifact = diamond();
    let mut initializer = StackInitializer::new(&artifact);
    assert_eq!(
        initializer.run_node_init_steps(),
        vec!["stack.service.d", "stack.service.c", "stack.service.b", "stack.service.a"]
    );
    assert_eq!(initializer.initialized.len(), 4);
}

#[test]
fn the_init_script_joins_the_resolved_lines() {
    let artifact = diamond();
    let initializer = StackInitializer::new(&artifact);
    let mut n = node("stack.service.a", vec![]);
    assert_eq!(initializer.initalize_node(&n), Ok(None));
    n.mapped_inputs.insert("name".to_string(), ("n".to_string(), TorbInput::String("x".to_string())));
    n.init_step = Some(vec!["echo TORB.inputs.name".to_string(), "ls".to_string()]);
    assert_eq!(initializer.initalize_node(&n), Ok(Some("echo \"x\";ls".to_string())));
    n.init_step = Some(vec!["echo TORB.inputs.none".to_string()]);
    assert!(initializer.initalize_node(&n).is_err());
}

#[test]
fn what_building_a_node_means() {
    let artifact = diamond();
    let builder = StackBuilder::new(&artifact, "linux/amd64".to_string(), true, false);
    let mut n = node("stack.service.a", vec![]);
    assert_eq!(builder.build_node(&n), Ok(BuildAction::Nothing));
    n.build_step = Some(BuildStep {
        dockerfile: "Dockerfile".to_string(),
        script_path: "build.sh".to_string(),
        tag: "latest".to_string(),
        registry: "local".to_string(),
    });
    assert_eq!(builder.build_node(&n), Ok(BuildAction::Dockerfile));
    n.build_step = Some(BuildStep {
        dockerfile: String::new(),
        script_path: "build.sh".to_string(),
        tag: String::new(),
        registry: String::new(),
    });
    assert_eq!(builder.build_node(&n), Ok(BuildAction::Script));
    n.build_step = Some(BuildStep::default());
    assert_eq!(
        builder.build_node(&n),
        Err(TorbBuilderErrors::MustDefineDockerfileOrBuildScript)
    );
}

#[test]
fn image_labels() {
    assert_eq!(StackBuilder::image_label("api", "v1", "registry.io/me"), "registry.io/me/api:v1");
    assert_eq!(StackBuilder::image_label("api", "v1", "local"), "api:v1");
    assert_eq!(StackBuilder::image_label("api", "v1", ""), "api:v1");
}

#[test]
fn docker_arguments_by_registry() {
    let artifact = diamond();
    let builder = StackBuilder::new(&artifact, "linux/amd64".to_string(), false, false);
    assert_eq!(
        builder.docker_arguments("r/api:v1", "Dockerfile", "r"),
        vec![
            "buildx", "--builder", "torb_builder", "build", "--platform", "linux/amd64", "-t",
            "r/api:v1", ".", "-f", "Dockerfile", "--push"
        ]
    );
    assert_eq!(
        builder.docker_arguments("api:v1", "Dockerfile", "local"),
        vec![
            "buildx", "--builder", "torb_builder", "build", "-t", "api:v1", ".", "-f",
            "Dockerfile", "--load"
        ]
    );
    let separate = StackBuilder::new(&artifact, "linux/amd64".to_string(), false, true);
    assert_eq!(
        separate.docker_arguments("r/api:v1", "Dockerfile", "r"),
        vec![
            "buildx", "--builder", "default", "build", "-t", "r/api:v1", ".", "-f", "Dockerfile",
            "--push"
        ]
    );
}

#[test]
fn builder_error_messages() {
    assert_eq!(
        TorbBuilderErrors::UnableToBuildDockerfile { response: "no".to_string() }.message(),
        "Unable to build from dockerfile, reason: no"
    );
    assert_eq!(
        TorbBuilderErrors::UnableToBuildBuildScript { response: "no".to_string() }.message(),
        "Unable to build from build script, reason: no"
    );
    assert_eq!(
        TorbBuilderErrors::MustDefineDockerfileOrBuildScript.message(),
        "Either dockerfile or script_path must be provided."
    );
    assert_eq!(
        TorbBuilderErrors::NodeAlreadyBuilt.message(),
        "The node has already been built. This theoretically should never be hit, so please ping the maintainers."
    );
}
