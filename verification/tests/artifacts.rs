use torb::artifacts::{
    find_node, get_build_file_info, get_start_nodes, load_build_file, stack_into_artifact,
    walk_graph, walk_nodes, ArtifactRepr, TorbArtifactErrors,
};
use torb::collections::OrderedMap;
use torb::graph::StackGraph;
use torb::node::{ArtifactNodeRepr, NodeDependencies};
use torb::utils::hash_of;
use torb::watcher::WatcherConfig;

fn node(fqn: &str, services: Vec<&str>, implicit: Vec<&str>) -> ArtifactNodeRepr {
    let name = fqn.rsplit('.').next().unwrap().to_string();
    let mut node = ArtifactNodeRepr::new(
        fqn.to_string(),
        name,
        "1".to_string(),
        "service".to_string(),
        None,
        None,
        None,
        OrderedMap::new(),
        OrderedMap::new(),
        OrderedMap::new(),
        Vec::new(),
        String::new(),
        None,
        String::new(),
        None,
        None,
    );
    if !services.is_empty() {
        node.dependency_names = NodeDependencies {
            services: Some(services.iter().map(|s| s.to_string()).collect()),
            projects: None,
            stacks: None,
        };
    }
    for fqn in implicit {
        node.implicit_dependency_fqns.insert(fqn.to_string());
    }
    node
}

fn graph_of(nodes: Vec<ArtifactNodeRepr>) -> StackGraph {
    let mut graph = StackGraph::new(
        "stack".to_string(),
        "stack".to_string(),
        "v1".to_string(),
        OrderedMap::new(),
        "tf".to_string(),
        "helm".to_string(),
        None,
        Some("shared".to_string()),
        Some("rel".to_string()),
        None,
        WatcherConfig::default(),
    );
    for node in nodes {
        if node.fqn.contains(".project.") {
            graph.add_project(&node);
        } else {
            graph.add_service(&node);
        }
        graph.add_all_incoming_edges_downstream("stack".to_string(), &node);
    }
    graph
}

fn diamond() -> StackGraph {
    graph_of(vec![
        node("stack.service.a", vec!["c"], vec![]),
        node("stack.service.b", vec!["c"], vec![]),
        node("stack.service.c", vec![], vec![]),
    ])
}

fn fqns(nodes: &Vec<ArtifactNodeRepr>) -> Vec<String> {
    nodes.iter().map(|n| n.fqn.clone()).collect()
}

#[test]
fn a_shared_dependency_stands_once_among_the_nodes() {
    let artifact = walk_graph(&diamond()).unwrap();
    assert_eq!(fqns(&artifact.deploys), vec!["stack.service.b", "stack.service.a"]);
    assert_eq!(fqns(&artifact.deploys[0].dependencies), vec!["stack.service.c"]);
    assert_eq!(fqns(&artifact.deploys[1].dependencies), vec!["stack.service.c"]);
    assert_eq!(
        artifact.nodes.key_list(),
        vec!["stack.service.c", "stack.service.b", "stack.service.a"]
    );
    let c_count = artifact.nodes.key_list().iter().filter(|k| *k == "stack.service.c").count();
    assert_eq!(c_count, 1);
    assert_eq!(artifact.nodes.get("stack.service.b"), Some(&artifact.deploys[0]));
    assert_eq!(artifact.nodes.get("stack.service.c"), Some(&artifact.deploys[1].dependencies[0]));
}

#[test]
fn the_artifact_carries_what_the_graph_says_of_the_stack() {
    let artifact = walk_graph(&diamond()).unwrap();
    assert_eq!(artifact.torb_version, "v1");
    assert_eq!(artifact.helm_version, "helm");
    assert_eq!(artifact.terraform_version, "tf");
    assert_eq!(artifact.stack_name, "stack");
    assert_eq!(artifact.namespace, Some("shared".to_string()));
    assert_eq!(artifact.release, Some("rel".to_string()));
    assert_eq!(artifact.repositories, None);
    assert_eq!(artifact.watcher, WatcherConfig::default());
    assert_eq!(artifact.meta, None);
}

#[test]
fn roots_are_the_nodes_nothing_depends_on_in_descending_order() {
    let graph = diamond();
    let roots = get_start_nodes(&graph).unwrap();
    let names: Vec<&str> = roots.iter().map(|n| n.fqn.as_str()).collect();
    assert_eq!(names, vec!["stack.service.b", "stack.service.a"]);
}

#[test]
fn implicit_dependencies_come_first_and_are_not_repeated() {
    let graph = graph_of(vec![
        node("stack.service.web", vec!["db", "cache"], vec!["stack.project.api", "stack.service.db"]),
        node("stack.project.api", vec![], vec![]),
        node("stack.service.db", vec![], vec![]),
        node("stack.service.cache", vec![], vec![]),
    ]);
    let mut map = OrderedMap::new();
    let web = find_node(&graph, "stack.service.web").unwrap();
    let tree = walk_nodes(web, &graph, &mut map, 4).unwrap();
    assert_eq!(
        fqns(&tree.dependencies),
        vec!["stack.project.api", "stack.service.db", "stack.service.cache"]
    );
    assert_eq!(
        map.key_list(),
        vec!["stack.project.api", "stack.service.db", "stack.service.cache", "stack.service.web"]
    );
}

#[test]
fn a_dependency_that_is_missing_is_an_error() {
    let graph = graph_of(vec![node("stack.service.a", vec![], vec!["stack.service.ghost"])]);
    let mut map = OrderedMap::new();
    let a = find_node(&graph, "stack.service.a").unwrap();
    assert_eq!(
        walk_nodes(a, &graph, &mut map, 5),
        Err(TorbArtifactErrors::UnknownDependency { fqn: "stack.service.ghost".to_string() })
    );
    let declared = graph_of(vec![node("stack.service.a", vec!["ghost"], vec![])]);
    assert_eq!(
        walk_graph(&declared),
        Err(TorbArtifactErrors::UnknownDependency { fqn: "stack.service.ghost".to_string() })
    );
}

#[test]
fn a_name_of_no_known_kind_is_an_error() {
    let graph = diamond();
    assert_eq!(
        find_node(&graph, "stack.thing.a"),
        Err(TorbArtifactErrors::UnknownKind { fqn: "stack.thing.a".to_string() })
    );
    assert_eq!(
        find_node(&graph, "nodots"),
        Err(TorbArtifactErrors::UnknownKind { fqn: "nodots".to_string() })
    );
}

#[test]
fn a_cycle_is_an_error() {
    let graph = graph_of(vec![
        node("stack.service.root", vec![], vec!["stack.service.x"]),
        node("stack.service.x", vec![], vec!["stack.service.y"]),
        node("stack.service.y", vec![], vec!["stack.service.x"]),
    ]);
    match walk_graph(&graph) {
        Err(TorbArtifactErrors::DependencyCycle { .. }) => {}
        other => panic!("expected a cycle, got {:?}", other),
    }
}

#[test]
fn a_chain_as_long_as_the_graph_is_no_cycle() {
    let graph = graph_of(vec![
        node("stack.service.a", vec!["b"], vec![]),
        node("stack.service.b", vec!["c"], vec![]),
        node("stack.service.c", vec![], vec![]),
    ]);
    let artifact = walk_graph(&graph).unwrap();
    assert_eq!(fqns(&artifact.deploys), vec!["stack.service.a"]);
    assert_eq!(
        artifact.nodes.key_list(),
        vec!["stack.service.c", "stack.service.b", "stack.service.a"]
    );
}

#[test]
fn the_nested_graph_is_materialised_too() {
    let mut graph = diamond();
    graph.meta = Some(Box::new(graph_of(vec![node("stack.service.m", vec![], vec![])])));
    let artifact = walk_graph(&graph).unwrap();
    let meta = artifact.meta.unwrap();
    assert_eq!(fqns(&meta.deploys), vec!["stack.service.m"]);
    assert_eq!(stack_into_artifact(&None), Ok(None));
}

#[test]
fn namespace_of_a_node() {
    let mut artifact = walk_graph(&diamond()).unwrap();
    let mut a = node("my_stack.service.a", vec![], vec![]);
    assert_eq!(artifact.namespace(&a), "shared");
    artifact.namespace = None;
    assert_eq!(artifact.namespace(&a), "my-stack");
    a.namespace = Some("own".to_string());
    assert_eq!(artifact.namespace(&a), "own");
    artifact.namespace = Some("shared".to_string());
    assert_eq!(artifact.namespace(&a), "own");
}

#[test]
fn release_name_of_an_artifact() {
    let mut artifact = walk_graph(&diamond()).unwrap();
    assert_eq!(artifact.release(), "rel");
    assert_eq!(artifact.release_or("generated".to_string()), "rel");
    artifact.release = None;
    assert_eq!(artifact.release_or("generated".to_string()), "generated");
    let generated = artifact.release();
    assert!(!generated.is_empty());
    assert!(generated.is_ascii());
}

#[test]
fn a_new_artifact_has_no_nodes() {
    let artifact = ArtifactRepr::new(
        "v".to_string(),
        "h".to_string(),
        "t".to_string(),
        OrderedMap::new(),
        "s".to_string(),
        None,
        None,
        None,
        None,
        WatcherConfig::default(),
    );
    assert_eq!(artifact.deploys.len(), 0);
    assert_eq!(artifact.nodes.len(), 0);
    assert_eq!(artifact.stack_name, "s");
}

#[test]
fn build_file_is_named_after_its_content() {
    let (hash, filename, content) = get_build_file_info("stack_name: demo\n".to_string());
    assert_eq!(hash, hash_of("stack_name: demo\n"));
    assert_eq!(filename, format!("{}_outfile.yaml", hash));
    assert_eq!(content, "stack_name: demo\n");
    assert_eq!(
        load_build_file(filename.clone(), content),
        Ok((hash, filename))
    );
}

#[test]
fn a_build_file_with_other_content_does_not_load() {
    let (_, filename, _) = get_build_file_info("stack_name: demo\n".to_string());
    assert_eq!(
        load_build_file(filename, "stack_name: edited\n".to_string()),
        Err(TorbArtifactErrors::LoadChecksumFailed)
    );
    assert_eq!(
        TorbArtifactErrors::LoadChecksumFailed.message(),
        "Hash of loaded build file does not match hash of file on disk."
    );
}
