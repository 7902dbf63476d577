//! The stack graph: the nodes of a stack by kind, and for every node the
//! nodes that depend on it.

use crate::collections::{entry_keys, stored, OrderedMap};
use crate::node::{fqn_for, fqn_text, nodes_view, ArtifactNodeRepr, DependenciesView};
use crate::text::{copy_strings, texts};
use crate::watcher::WatcherConfig;
use vstd::prelude::*;

verus! {

/// A stack, resolved but not yet flattened.
#[derive(Debug, PartialEq)]
pub struct StackGraph {
    pub services: OrderedMap<ArtifactNodeRepr>,
    pub projects: OrderedMap<ArtifactNodeRepr>,
    pub stacks: OrderedMap<ArtifactNodeRepr>,
    pub name: String,
    pub version: String,
    pub kind: String,
    pub commits: OrderedMap<String>,
    pub tf_version: String,
    pub helm_version: String,
    pub meta: Option<Box<StackGraph>>,
    pub incoming_edges: OrderedMap<Vec<String>>,
    pub namespace: Option<String>,
    pub release: Option<String>,
    pub repositories: Option<Vec<String>>,
    pub watcher: WatcherConfig,
}

/// The incoming edges: for every node's name, in the order in which the
/// names came up, the names of the nodes that depend on it.
pub open spec fn edges_view(edges: OrderedMap<Vec<String>>) -> Seq<(Seq<char>, Seq<Seq<char>>)> {
    edges.entries(|list: Vec<String>| texts(list@))
}

/// The nodes recorded as depending on `key`; none where `key` has no entry.
pub open spec fn dependents_of(edges: Seq<(Seq<char>, Seq<Seq<char>>)>, key: Seq<char>) -> Seq<
    Seq<char>,
> {
    if entry_keys(edges).contains(key) {
        edges[entry_keys(edges).index_of(key)].1
    } else {
        Seq::empty()
    }
}

/// The edges with an entry for `key`: an empty one where it had none.
pub open spec fn with_entry(edges: Seq<(Seq<char>, Seq<Seq<char>>)>, key: Seq<char>) -> Seq<
    (Seq<char>, Seq<Seq<char>>),
> {
    if entry_keys(edges).contains(key) {
        edges
    } else {
        edges.push((key, Seq::empty()))
    }
}

/// The edges with `dependent` appended to the nodes that depend on `key`.
pub open spec fn with_edge(
    edges: Seq<(Seq<char>, Seq<Seq<char>>)>,
    key: Seq<char>,
    dependent: Seq<char>,
) -> Seq<(Seq<char>, Seq<Seq<char>>)> {
    stored(edges, key, dependents_of(edges, key).push(dependent))
}

/// The edges with `dependent` recorded for the first `n` of `names`, each
/// taken as the name of a node of kind `kind` in the stack.
pub open spec fn with_edges(
    edges: Seq<(Seq<char>, Seq<Seq<char>>)>,
    stack_name: Seq<char>,
    kind: Seq<char>,
    names: Seq<Seq<char>>,
    dependent: Seq<char>,
    n: int,
) -> Seq<(Seq<char>, Seq<Seq<char>>)>
    decreases n,
{
    if n <= 0 {
        edges
    } else {
        with_edge(
            with_edges(edges, stack_name, kind, names, dependent, n - 1),
            fqn_text(stack_name, kind, names[n - 1]),
            dependent,
        )
    }
}

/// The names of an optional list; none where there is no list.
pub open spec fn listed(names: Option<Seq<Seq<char>>>) -> Seq<Seq<char>> {
    match names {
        Some(names) => names,
        None => Seq::empty(),
    }
}

/// The edges after a node was recorded: the node has an entry, and is
/// appended to the dependents of every project, service and stack it
/// declares as a dependency, in that order.
pub open spec fn with_dependencies(
    edges: Seq<(Seq<char>, Seq<Seq<char>>)>,
    stack_name: Seq<char>,
    declared: DependenciesView,
    dependent: Seq<char>,
) -> Seq<(Seq<char>, Seq<Seq<char>>)> {
    let own = with_entry(edges, dependent);
    let projects = with_edges(
        own,
        stack_name,
        "project"@,
        listed(declared.projects),
        dependent,
        listed(declared.projects).len() as int,
    );
    let services = with_edges(
        projects,
        stack_name,
        "service"@,
        listed(declared.services),
        dependent,
        listed(declared.services).len() as int,
    );
    with_edges(
        services,
        stack_name,
        "stack"@,
        listed(declared.stacks),
        dependent,
        listed(declared.stacks).len() as int,
    )
}

/// Makes sure `key` has an entry.
fn ensure_entry(edges: &mut OrderedMap<Vec<String>>, key: &String)
    ensures
        edges_view(*final(edges)) == with_entry(edges_view(*old(edges)), key@),
{
    let ghost view = |list: Vec<String>| texts(list@);
    if !edges.contains_key(key.as_str()) {
        let empty: Vec<String> = Vec::new();
        edges.insert(key.clone(), empty);
        proof {
            edges.lemma_update_entries(*old(edges), key@, view);
            assert(texts(empty@) =~= Seq::<Seq<char>>::empty());
        }
    } else {
        edges.note_shape();
        proof {
            assert(entry_keys(edges.entries(view)) =~= edges.keys());
        }
    }
}

/// Appends `dependent` to the nodes that depend on `key`.
fn add_edge(edges: &mut OrderedMap<Vec<String>>, key: String, dependent: &String)
    ensures
        edges_view(*final(edges)) == with_edge(edges_view(*old(edges)), key@, dependent@),
{
    let ghost view = |list: Vec<String>| texts(list@);
    match edges.index_of(key.as_str()) {
        Some(at) => {
            edges.note_shape();
            let mut list = copy_strings(edges.value_at(at));
            list.push(dependent.clone());
            edges.set_value_at(at, list);
            proof {
                edges.lemma_update_entries(*old(edges), key@, view);
                let before = old(edges).entries(view);
                assert(entry_keys(before).index_of(key@) == at) by {
                    let p = old(edges).keys().index_of(key@);
                    assert(old(edges).keys()[p] == key@);
                }
                assert(texts(list@) =~= dependents_of(before, key@).push(dependent@));
            }
        },
        None => {
            let mut list: Vec<String> = Vec::new();
            list.push(dependent.clone());
            edges.insert(key, list);
            proof {
                edges.lemma_update_entries(*old(edges), key@, view);
                assert(texts(list@) =~= Seq::<Seq<char>>::empty().push(dependent@));
            }
        },
    }
}

/// Records `dependent` for every one of `names`.
fn add_edges(
    edges: &mut OrderedMap<Vec<String>>,
    stack_name: &str,
    kind: &str,
    names: &Option<Vec<String>>,
    dependent: &String,
)
    ensures
        edges_view(*final(edges)) == with_edges(
            edges_view(*old(edges)),
            stack_name@,
            kind@,
            listed(crate::text::opt_texts(*names)),
            dependent@,
            listed(crate::text::opt_texts(*names)).len() as int,
        ),
{
    match names {
        Some(names) => {
            let mut i: usize = 0;
            while i < names.len()
                invariant
                    i <= names@.len(),
                    edges_view(*edges) == with_edges(
                        edges_view(*old(edges)),
                        stack_name@,
                        kind@,
                        texts(names@),
                        dependent@,
                        i as int,
                    ),
                decreases names@.len() - i,
            {
                let key = fqn_for(stack_name, kind, names[i].as_str());
                add_edge(edges, key, dependent);
                i += 1;
            }
        },
        None => {},
    }
}

impl StackGraph {
    pub fn new(
        name: String,
        kind: String,
        version: String,
        commits: OrderedMap<String>,
        tf_version: String,
        helm_version: String,
        meta: Option<Box<StackGraph>>,
        namespace: Option<String>,
        release: Option<String>,
        repositories: Option<Vec<String>>,
        watcher: WatcherConfig,
    ) -> (graph: StackGraph)
        ensures
            graph.services.keys().len() == 0,
            graph.projects.keys().len() == 0,
            graph.stacks.keys().len() == 0,
            graph.incoming_edges.keys().len() == 0,
            graph.name == name,
            graph.kind == kind,
            graph.version == version,
            graph.commits == commits,
            graph.tf_version == tf_version,
            graph.helm_version == helm_version,
            graph.meta == meta,
            graph.namespace == namespace,
            graph.release == release,
            graph.repositories == repositories,
            graph.watcher == watcher,
    {
        StackGraph {
            services: OrderedMap::new(),
            projects: OrderedMap::new(),
            stacks: OrderedMap::new(),
            name,
            version,
            kind,
            tf_version,
            helm_version,
            commits,
            meta,
            incoming_edges: OrderedMap::new(),
            namespace,
            release,
            repositories,
            watcher,
        }
    }

    /// Records a copy of `node` among the services, under its name.
    pub fn add_service(&mut self, node: &ArtifactNodeRepr)
        ensures
            *final(self) == (StackGraph { services: final(self).services, ..*old(self) }),
            final(self).services.is_update_of(old(self).services, node.fqn@),
            final(self).services.value_of(node.fqn@)@ == node@,
            nodes_view(final(self).services) == stored(nodes_view(old(self).services), node.fqn@, node@),
    {
        self.services.insert(node.fqn.clone(), node.duplicate());
        proof {
            self.services.lemma_update_entries(
                old(self).services,
                node.fqn@,
                |node: ArtifactNodeRepr| node@,
            );
        }
    }

    /// Records a copy of `node` among the projects, under its name.
    pub fn add_project(&mut self, node: &ArtifactNodeRepr)
        ensures
            *final(self) == (StackGraph { projects: final(self).projects, ..*old(self) }),
            final(self).projects.is_update_of(old(self).projects, node.fqn@),
            final(self).projects.value_of(node.fqn@)@ == node@,
            nodes_view(final(self).projects) == stored(nodes_view(old(self).projects), node.fqn@, node@),
    {
        self.projects.insert(node.fqn.clone(), node.duplicate());
        proof {
            self.projects.lemma_update_entries(
                old(self).projects,
                node.fqn@,
                |node: ArtifactNodeRepr| node@,
            );
        }
    }

    /// Records a copy of `node` among the nested stacks, under its name.
    pub fn add_stack(&mut self, node: &ArtifactNodeRepr)
        ensures
            *final(self) == (StackGraph { stacks: final(self).stacks, ..*old(self) }),
            final(self).stacks.is_update_of(old(self).stacks, node.fqn@),
            final(self).stacks.value_of(node.fqn@)@ == node@,
            nodes_view(final(self).stacks) == stored(nodes_view(old(self).stacks), node.fqn@, node@),
    {
        self.stacks.insert(node.fqn.clone(), node.duplicate());
        proof {
            self.stacks.lemma_update_entries(
                old(self).stacks,
                node.fqn@,
                |node: ArtifactNodeRepr| node@,
            );
        }
    }

    /// Records the edges that `node` brings: an entry of its own, so that it
    /// counts as a root while nothing depends on it, and itself as a
    /// dependent of everything it declares as a dependency.
    pub fn add_all_incoming_edges_downstream(&mut self, stack_name: String, node: &ArtifactNodeRepr)
        ensures
            *final(self) == (StackGraph {
                incoming_edges: final(self).incoming_edges,
                ..*old(self)
            }),
            edges_view(final(self).incoming_edges) == with_dependencies(
                edges_view(old(self).incoming_edges),
                stack_name@,
                node.dependency_names@,
                node.fqn@,
            ),
    {
        ensure_entry(&mut self.incoming_edges, &node.fqn);
        add_edges(
            &mut self.incoming_edges,
            stack_name.as_str(),
            "project",
            &node.dependency_names.projects,
            &node.fqn,
        );
        add_edges(
            &mut self.incoming_edges,
            stack_name.as_str(),
            "service",
            &node.dependency_names.services,
            &node.fqn,
        );
        add_edges(
            &mut self.incoming_edges,
            stack_name.as_str(),
            "stack",
            &node.dependency_names.stacks,
            &node.fqn,
        );
    }
}

} // verus!
