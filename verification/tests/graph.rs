use torb::collections::OrderedMap;
use torb::graph::StackGraph;
use torb::node::{ArtifactNodeRepr, NodeDependencies};
use torb::watcher::WatcherConfig;

fn node(fqn: &str, projects: Option<Vec<&str>>, services: Option<Vec<&str>>) -> ArtifactNodeRepr {
    let mut node = ArtifactNodeRepr::new(
        fqn.to_string(),
        "n".to_string(),
        "1".to_string(),
        "service".to_string(),
        None,
        None,
        None,
        OrderedMap::new(),
        OrderedMap::new(),
        OrderedMap::new(),
        Vec::new(),
        String::new(),
        None,
        String::new(),
        None,
        None,
    );
    node.dependency_names = NodeDependencies {
        services: services.map(|list| list.iter().map(|s| s.to_string()).collect()),
        projects: projects.map(|list| list.iter().map(|s| s.to_string()).collect()),
        stacks: None,
    };
    node
}

fn empty_graph() -> StackGraph {
    StackGraph::new(
        "stack".to_string(),
        "stack".to_string(),
        "v1".to_string(),
        OrderedMap::new(),
        "tf".to_string(),
        "helm".to_string(),
        None,
        None,
        None,
        None,
        WatcherConfig::default(),
    )
}

fn edges(graph: &StackGraph, key: &str) -> Option<Vec<String>> {
    graph.incoming_edges.get(key).cloned()
}

#[test]
fn a_new_graph_is_empty() {
    let graph = empty_graph();
    assert_eq!(graph.services.len(), 0);
    assert_eq!(graph.projects.len(), 0);
    assert_eq!(graph.stacks.len(), 0);
    assert_eq!(graph.incoming_edges.len(), 0);
    assert_eq!(graph.name, "stack");
    assert_eq!(graph.kind, "stack");
    assert_eq!(graph.version, "v1");
    assert_eq!(graph.meta, None);
}

#[test]
fn nodes_are_recorded_under_their_names() {
    let mut graph = empty_graph();
    let db = node("stack.service.db", None, None);
    let api = node("stack.project.api", None, None);
    graph.add_service(&db);
    graph.add_project(&api);
    graph.add_stack(&node("stack.stack.inner", None, None));
    assert_eq!(graph.services.get("stack.service.db"), Some(&db));
    assert_eq!(graph.projects.get("stack.project.api"), Some(&api));
    assert_eq!(graph.stacks.len(), 1);
    graph.add_service(&db);
    assert_eq!(graph.services.len(), 1);
}

#[test]
fn a_node_without_dependencies_gets_an_empty_entry() {
    let mut graph = empty_graph();
    graph.add_all_incoming_edges_downstream("stack".to_string(), &node("stack.service.db", None, None));
    assert_eq!(edges(&graph, "stack.service.db"), Some(vec![]));
    assert_eq!(graph.incoming_edges.len(), 1);
}

#[test]
fn dependents_are_appended_to_every_declared_dependency() {
    let mut graph = empty_graph();
    let a = node("stack.service.a", Some(vec!["p"]), Some(vec!["c"]));
    let b = node("stack.service.b", None, Some(vec!["c"]));
    let c = node("stack.service.c", None, None);
    graph.add_all_incoming_edges_downstream("stack".to_string(), &a);
    graph.add_all_incoming_edges_downstream("stack".to_string(), &b);
    graph.add_all_incoming_edges_downstream("stack".to_string(), &c);
    assert_eq!(edges(&graph, "stack.service.a"), Some(vec![]));
    assert_eq!(edges(&graph, "stack.service.b"), Some(vec![]));
    assert_eq!(
        edges(&graph, "stack.service.c"),
        Some(vec!["stack.service.a".to_string(), "stack.service.b".to_string()])
    );
    assert_eq!(edges(&graph, "stack.project.p"), Some(vec!["stack.service.a".to_string()]));
    assert_eq!(
        graph.incoming_edges.key_list(),
        vec!["stack.service.a", "stack.project.p", "stack.service.c", "stack.service.b"]
    );
}
