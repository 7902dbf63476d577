//! Materialisation of a stack graph: the tree of every root node with its
//! dependencies, and all nodes once each under their names.

use crate::collections::{entry_keys, stored, OrderedMap};
use crate::graph::{edges_view, StackGraph};
use crate::resolver::{
    definition_views, is_graph_of, resolve_stack, text_problem, LoadedDefinition, Provenance,
    TorbResolverErrors,
};
use crate::yaml::yaml_parsed;
use crate::node::{
    copy_text, fqn_for, fqn_text, lemma_dependencies_view, node_views, nodes_view, ArtifactNodeRepr,
    NodeView,
};
use crate::text::{
    concat3, copy_opt_string, copy_opt_strings, opt_text, opt_texts, replace_char, replaced,
    sort_descending, sorted_descending, split, split_on, texts,
};
use crate::utils::{checksum, content_hash, hash_of};
use crate::value::str_eq;
use crate::watcher::WatcherConfig;
use vstd::prelude::*;

verus! {

/// What can go wrong while an artifact is made or loaded.
#[derive(Debug, PartialEq)]
pub enum TorbArtifactErrors {
    /// The content of a build file does not hash to the name of the file.
    LoadChecksumFailed,
    /// A node depends on a node that the stack does not have.
    UnknownDependency { fqn: String },
    /// A name does not say whether it names a project, a service or a
    /// stack.
    UnknownKind { fqn: String },
    /// The dependencies of a node lead back to it.
    DependencyCycle { fqn: String },
}

/// What stops the walk over a graph.
pub enum WalkProblem {
    UnknownDependency(Seq<char>),
    UnknownKind(Seq<char>),
    Cycle(Seq<char>),
}

impl TorbArtifactErrors {
    /// The problem that an error reports, if it reports one of the walk.
    pub open spec fn problem(self) -> Option<WalkProblem> {
        match self {
            TorbArtifactErrors::LoadChecksumFailed => None,
            TorbArtifactErrors::UnknownDependency { fqn } => Some(
                WalkProblem::UnknownDependency(fqn@),
            ),
            TorbArtifactErrors::UnknownKind { fqn } => Some(WalkProblem::UnknownKind(fqn@)),
            TorbArtifactErrors::DependencyCycle { fqn } => Some(WalkProblem::Cycle(fqn@)),
        }
    }

    /// The sentence shown for the error.
    pub fn message(&self) -> (text: String)
        ensures
            text@ == match *self {
                TorbArtifactErrors::LoadChecksumFailed =>
                    "Hash of loaded build file does not match hash of file on disk."@,
                TorbArtifactErrors::UnknownDependency { fqn } =>
                    "Unable to find the node "@ + fqn@ + " in the stack."@,
                TorbArtifactErrors::UnknownKind { fqn } =>
                    "Build artifact generation, unknown kind: "@ + fqn@ + ""@,
                TorbArtifactErrors::DependencyCycle { fqn } =>
                    "The dependencies of "@ + fqn@ + " lead back to it."@,
            },
    {
        match self {
            TorbArtifactErrors::LoadChecksumFailed => {
                "Hash of loaded build file does not match hash of file on disk.".to_owned()
            },
            TorbArtifactErrors::UnknownDependency { fqn } => concat3(
                "Unable to find the node ",
                fqn.as_str(),
                " in the stack.",
            ),
            TorbArtifactErrors::UnknownKind { fqn } => concat3(
                "Build artifact generation, unknown kind: ",
                fqn.as_str(),
                "",
            ),
            TorbArtifactErrors::DependencyCycle { fqn } => concat3(
                "The dependencies of ",
                fqn.as_str(),
                " lead back to it.",
            ),
        }
    }
}

/// The kind that a fully qualified name gives: its second segment.
pub open spec fn kind_of(fqn: Seq<char>) -> Option<Seq<char>> {
    let parts = split(fqn, '.');
    if parts.len() >= 2 {
        Some(parts[1])
    } else {
        None
    }
}

/// The node of the graph that `fqn` names.
pub open spec fn node_named(graph: StackGraph, fqn: Seq<char>) -> Result<
    ArtifactNodeRepr,
    WalkProblem,
> {
    match kind_of(fqn) {
        None => Err(WalkProblem::UnknownKind(fqn)),
        Some(kind) => {
            if kind == "project"@ {
                if graph.projects.has(fqn) {
                    Ok(graph.projects.value_of(fqn))
                } else {
                    Err(WalkProblem::UnknownDependency(fqn))
                }
            } else if kind == "service"@ {
                if graph.services.has(fqn) {
                    Ok(graph.services.value_of(fqn))
                } else {
                    Err(WalkProblem::UnknownDependency(fqn))
                }
            } else if kind == "stack"@ {
                if graph.stacks.has(fqn) {
                    Ok(graph.stacks.value_of(fqn))
                } else {
                    Err(WalkProblem::UnknownDependency(fqn))
                }
            } else {
                Err(WalkProblem::UnknownKind(fqn))
            }
        },
    }
}

/// Finds the node that `fqn` names.
pub fn find_node<'a>(graph: &'a StackGraph, fqn: &str) -> (found: Result<
    &'a ArtifactNodeRepr,
    TorbArtifactErrors,
>)
    ensures
        found is Ok == node_named(*graph, fqn@) is Ok,
        found is Ok ==> *found->Ok_0 == node_named(*graph, fqn@)->Ok_0,
        found is Err ==> found->Err_0.problem() == Some(node_named(*graph, fqn@)->Err_0),
{
    let parts = split_on(fqn, '.');
    if parts.len() < 2 {
        return Err(TorbArtifactErrors::UnknownKind { fqn: fqn.to_owned() });
    }
    assert(texts(parts@)[1] == parts@[1]@);
    let kind = parts[1].as_str();
    let map = if str_eq(kind, "project") {
        &graph.projects
    } else if str_eq(kind, "service") {
        &graph.services
    } else if str_eq(kind, "stack") {
        &graph.stacks
    } else {
        return Err(TorbArtifactErrors::UnknownKind { fqn: fqn.to_owned() });
    };
    match map.get(fqn) {
        Some(node) => Ok(node),
        None => Err(TorbArtifactErrors::UnknownDependency { fqn: fqn.to_owned() }),
    }
}

/// The names, as nodes of kind `kind`, of the first `n` of `names` that are
/// not among `implicit`.
pub open spec fn undiscovered(
    stack_name: Seq<char>,
    kind: Seq<char>,
    names: Seq<Seq<char>>,
    implicit: Seq<Seq<char>>,
    n: int,
) -> Seq<Seq<char>>
    decreases n,
{
    if n <= 0 {
        Seq::empty()
    } else {
        let before = undiscovered(stack_name, kind, names, implicit, n - 1);
        let fqn = fqn_text(stack_name, kind, names[n - 1]);
        if implicit.contains(fqn) {
            before
        } else {
            before.push(fqn)
        }
    }
}

/// The nodes that a node's tree goes on with: its implicit dependencies,
/// then the projects and the services it declares, as far as they are not
/// implicit dependencies already.
pub open spec fn child_names(stack_name: Seq<char>, node: ArtifactNodeRepr) -> Seq<Seq<char>> {
    let implicit = node.implicit_dependency_fqns@;
    let projects = crate::graph::listed(node.dependency_names@.projects);
    let services = crate::graph::listed(node.dependency_names@.services);
    implicit + undiscovered(stack_name, "project"@, projects, implicit, projects.len() as int)
        + undiscovered(stack_name, "service"@, services, implicit, services.len() as int)
}

/// Appends to `out` the declared names that are not implicit dependencies.
fn push_undiscovered(
    out: &mut Vec<String>,
    stack_name: &str,
    kind: &str,
    names: &Option<Vec<String>>,
    node: &ArtifactNodeRepr,
)
    ensures
        texts(final(out)@) == texts(old(out)@) + undiscovered(
            stack_name@,
            kind@,
            crate::graph::listed(crate::text::opt_texts(*names)),
            node.implicit_dependency_fqns@,
            crate::graph::listed(crate::text::opt_texts(*names)).len() as int,
        ),
{
    match names {
        Some(names) => {
            let mut i: usize = 0;
            assert(texts(out@) =~= texts(old(out)@) + Seq::<Seq<char>>::empty());
            while i < names.len()
                invariant
                    i <= names@.len(),
                    texts(out@) == texts(old(out)@) + undiscovered(
                        stack_name@,
                        kind@,
                        texts(names@),
                        node.implicit_dependency_fqns@,
                        i as int,
                    ),
                decreases names@.len() - i,
            {
                let fqn = fqn_for(stack_name, kind, names[i].as_str());
                if !node.implicit_dependency_fqns.contains(fqn.as_str()) {
                    let ghost before = out@;
                    out.push(fqn);
                    assert(texts(out@) =~= texts(before).push(fqn@));
                    assert(texts(out@) =~= texts(old(out)@) + undiscovered(
                        stack_name@,
                        kind@,
                        texts(names@),
                        node.implicit_dependency_fqns@,
                        i as int,
                    ).push(fqn@));
                }
                i += 1;
            }
        },
        None => {
            assert(texts(out@) =~= texts(old(out)@) + Seq::<Seq<char>>::empty());
        },
    }
}

/// The names of the nodes that a node's tree goes on with.
pub fn child_fqns(stack_name: &str, node: &ArtifactNodeRepr) -> (names: Vec<String>)
    ensures
        texts(names@) == child_names(stack_name@, *node),
{
    let mut names: Vec<String> = Vec::new();
    let n = node.implicit_dependency_fqns.len();
    let mut i: usize = 0;
    while i < n
        invariant
            i <= n,
            n == node.implicit_dependency_fqns@.len(),
            names@.len() == i,
            forall|j: int| 0 <= j < i ==> names@[j]@ == node.implicit_dependency_fqns@[j],
        decreases n - i,
    {
        names.push(node.implicit_dependency_fqns.item_at(i).clone());
        i += 1;
    }
    assert(texts(names@) =~= node.implicit_dependency_fqns@);
    push_undiscovered(&mut names, stack_name, "project", &node.dependency_names.projects, node);
    push_undiscovered(&mut names, stack_name, "service", &node.dependency_names.services, node);
    names
}

/// The tree of `node`: the node with, as its dependencies, the trees of the
/// nodes it goes on with. `fuel` bounds the depth of the tree: a branch
/// that is deeper is taken for a cycle.
pub open spec fn walked(graph: StackGraph, node: ArtifactNodeRepr, fuel: nat) -> Result<
    NodeView,
    WalkProblem,
>
    decreases fuel, 0nat, 0nat,
{
    if fuel == 0 {
        Err(WalkProblem::Cycle(node.fqn@))
    } else {
        let names = child_names(graph.name@, node);
        match walked_children(graph, names, (fuel - 1) as nat, names.len()) {
            Err(problem) => Err(problem),
            Ok(children) => Ok(NodeView { dependencies: children, ..node@ }),
        }
    }
}

/// The trees of the first `n` of the nodes named `names`; the problem of
/// the first of them that has one.
pub open spec fn walked_children(
    graph: StackGraph,
    names: Seq<Seq<char>>,
    fuel: nat,
    n: nat,
) -> Result<Seq<NodeView>, WalkProblem>
    decreases fuel, 1nat, n,
{
    if n == 0 {
        Ok(Seq::empty())
    } else {
        match walked_children(graph, names, fuel, (n - 1) as nat) {
            Err(problem) => Err(problem),
            Ok(before) => match node_named(graph, names[n - 1]) {
                Err(problem) => Err(problem),
                Ok(child) => match walked(graph, child, fuel) {
                    Err(problem) => Err(problem),
                    Ok(tree) => Ok(before.push(tree)),
                },
            },
        }
    }
}

/// A problem among the first children is the problem of them all.
pub proof fn lemma_problem_stays(
    graph: StackGraph,
    names: Seq<Seq<char>>,
    fuel: nat,
    n: nat,
    m: nat,
)
    requires
        n <= m,
        walked_children(graph, names, fuel, n) is Err,
    ensures
        walked_children(graph, names, fuel, m) == walked_children(graph, names, fuel, n),
    decreases m,
{
    if n < m {
        lemma_problem_stays(graph, names, fuel, n, (m - 1) as nat);
    }
}

/// A tree that is built within some depth is the same within any greater
/// depth: the bound decides only whether a branch is taken for a cycle.
pub proof fn lemma_deeper_bound_same_tree(
    graph: StackGraph,
    node: ArtifactNodeRepr,
    fuel: nat,
    more: nat,
)
    requires
        fuel <= more,
        walked(graph, node, fuel) is Ok,
    ensures
        walked(graph, node, more) == walked(graph, node, fuel),
    decreases fuel, 0nat, 0nat,
{
    let names = child_names(graph.name@, node);
    lemma_deeper_bound_same_trees(
        graph,
        names,
        (fuel - 1) as nat,
        (more - 1) as nat,
        names.len(),
    );
}

/// The trees of a list of nodes that are built within some depth are the
/// same within any greater depth.
pub proof fn lemma_deeper_bound_same_trees(
    graph: StackGraph,
    names: Seq<Seq<char>>,
    fuel: nat,
    more: nat,
    n: nat,
)
    requires
        fuel <= more,
        walked_children(graph, names, fuel, n) is Ok,
    ensures
        walked_children(graph, names, more, n) == walked_children(graph, names, fuel, n),
    decreases fuel, 1nat, n,
{
    if n > 0 {
        lemma_deeper_bound_same_trees(graph, names, fuel, more, (n - 1) as nat);
        lemma_deeper_bound_same_tree(graph, node_named(graph, names[n - 1])->Ok_0, fuel, more);
    }
}

/// A tree and all the trees inside it, every tree after those of its
/// dependencies.
pub open spec fn subtrees(tree: NodeView) -> Seq<NodeView>
    decreases tree, 0nat,
{
    subtrees_of(tree.dependencies, tree.dependencies.len()).push(tree)
}

/// The trees of `subtrees` for the first `n` of a list of trees.
pub open spec fn subtrees_of(list: Seq<NodeView>, n: nat) -> Seq<NodeView>
    decreases list, n,
{
    if n == 0 || n > list.len() {
        Seq::empty()
    } else {
        subtrees_of(list, (n - 1) as nat) + subtrees(list[n - 1])
    }
}

/// The entries with every one of `trees` stored under its name, in turn: a
/// later tree takes the place of an earlier one of the same name.
pub open spec fn stored_all(entries: Seq<(Seq<char>, NodeView)>, trees: Seq<NodeView>) -> Seq<
    (Seq<char>, NodeView),
>
    decreases trees.len(),
{
    if trees.len() == 0 {
        entries
    } else {
        stored(stored_all(entries, trees.drop_last()), trees.last().fqn, trees.last())
    }
}

/// Storing two lists of trees one after the other is storing their
/// concatenation.
pub proof fn lemma_stored_concat(
    entries: Seq<(Seq<char>, NodeView)>,
    first: Seq<NodeView>,
    second: Seq<NodeView>,
)
    ensures
        stored_all(entries, first + second) == stored_all(stored_all(entries, first), second),
    decreases second.len(),
{
    if second.len() == 0 {
        assert(first + second =~= first);
    } else {
        lemma_stored_concat(entries, first, second.drop_last());
        assert((first + second).drop_last() =~= first + second.drop_last());
        assert((first + second).last() == second.last());
    }
}

/// Builds the tree of `node` and stores every tree in it under its name in
/// `node_map`.
pub fn walk_nodes(
    node: &ArtifactNodeRepr,
    graph: &StackGraph,
    node_map: &mut OrderedMap<ArtifactNodeRepr>,
    fuel: usize,
) -> (built: Result<ArtifactNodeRepr, TorbArtifactErrors>)
    ensures
        built is Ok == walked(*graph, *node, fuel as nat) is Ok,
        built is Ok ==> built->Ok_0@ == walked(*graph, *node, fuel as nat)->Ok_0,
        built is Ok ==> nodes_view(*final(node_map)) == stored_all(
            nodes_view(*old(node_map)),
            subtrees(built->Ok_0@),
        ),
        built is Err ==> built->Err_0.problem() == Some(
            walked(*graph, *node, fuel as nat)->Err_0,
        ),
    decreases fuel,
{
    if fuel == 0 {
        return Err(TorbArtifactErrors::DependencyCycle { fqn: node.fqn.clone() });
    }
    let names = child_fqns(graph.name.as_str(), node);
    let ghost wanted = child_names(graph.name@, *node);
    let ghost before_all = nodes_view(*node_map);
    let mut dependencies: Vec<ArtifactNodeRepr> = Vec::new();
    let mut i: usize = 0;
    proof {
        assert(node_views(dependencies@) =~= Seq::<NodeView>::empty());
    }
    while i < names.len()
        invariant
            fuel > 0,
            i <= names@.len(),
            texts(names@) == wanted,
            wanted == child_names(graph.name@, *node),
            before_all == nodes_view(*old(node_map)),
            dependencies@.len() == i,
            walked_children(*graph, wanted, (fuel - 1) as nat, i as nat) == Ok::<
                Seq<NodeView>,
                WalkProblem,
            >(node_views(dependencies@)),
            nodes_view(*node_map) == stored_all(
                before_all,
                subtrees_of(node_views(dependencies@), i as nat),
            ),
        decreases names@.len() - i,
    {
        assert(wanted[i as int] == names@[i as int]@);
        let child = match find_node(graph, names[i].as_str()) {
            Ok(child) => child,
            Err(e) => {
                proof {
                    lemma_problem_stays(
                        *graph,
                        wanted,
                        (fuel - 1) as nat,
                        (i + 1) as nat,
                        wanted.len(),
                    );
                }
                return Err(e);
            },
        };
        let ghost stored_before = nodes_view(*node_map);
        let tree = match walk_nodes(child, graph, node_map, fuel - 1) {
            Ok(tree) => tree,
            Err(e) => {
                proof {
                    lemma_problem_stays(
                        *graph,
                        wanted,
                        (fuel - 1) as nat,
                        (i + 1) as nat,
                        wanted.len(),
                    );
                }
                return Err(e);
            },
        };
        let ghost views_before = node_views(dependencies@);
        dependencies.push(tree);
        proof {
            let views = node_views(dependencies@);
            assert(views =~= views_before.push(tree@));
            lemma_subtrees_prefix(views_before, views, i as nat);
            lemma_stored_concat(before_all, subtrees_of(views_before, i as nat), subtrees(tree@));
        }
        i += 1;
    }
    let built = node.duplicate_with(dependencies);
    let stored_copy = built.duplicate();
    proof {
        lemma_dependencies_view(built);
        assert(walked(*graph, *node, fuel as nat) == Ok::<NodeView, WalkProblem>(built@));
    }
    let ghost before_insert = *node_map;
    node_map.insert(node.fqn.clone(), stored_copy);
    proof {
        node_map.lemma_update_entries(before_insert, node.fqn@, |node: ArtifactNodeRepr| node@);
        let inner = subtrees_of(built@.dependencies, built@.dependencies.len());
        assert(subtrees(built@).drop_last() =~= inner);
        assert(subtrees(built@).last() == built@);
    }
    Ok(built)
}

/// The trees listed for a prefix of a list do not change when the list is
/// extended.
pub proof fn lemma_subtrees_prefix(shorter: Seq<NodeView>, longer: Seq<NodeView>, n: nat)
    requires
        n <= shorter.len() <= longer.len(),
        forall|i: int| 0 <= i < shorter.len() ==> shorter[i] == longer[i],
    ensures
        subtrees_of(shorter, n) == subtrees_of(longer, n),
    decreases n,
{
    if n > 0 {
        lemma_subtrees_prefix(shorter, longer, (n - 1) as nat);
    }
}

/// A materialised stack: the trees of its root nodes, and every node once
/// under its name.
#[derive(Debug, PartialEq)]
pub struct ArtifactRepr {
    pub torb_version: String,
    pub helm_version: String,
    pub terraform_version: String,
    pub commits: OrderedMap<String>,
    pub stack_name: String,
    pub meta: Option<Box<ArtifactRepr>>,
    pub deploys: Vec<ArtifactNodeRepr>,
    pub nodes: OrderedMap<ArtifactNodeRepr>,
    pub namespace: Option<String>,
    pub release: Option<String>,
    pub repositories: Option<Vec<String>>,
    pub watcher: WatcherConfig,
}

/// The names, among the first `n` entries of the edges, that nothing
/// depends on.
pub open spec fn root_names(edges: Seq<(Seq<char>, Seq<Seq<char>>)>, n: int) -> Seq<Seq<char>>
    decreases n,
{
    if n <= 0 {
        Seq::empty()
    } else {
        let before = root_names(edges, n - 1);
        if edges[n - 1].1.len() == 0 {
            before.push(edges[n - 1].0)
        } else {
            before
        }
    }
}

/// The problem of the first name, among the first `n` that have edges,
/// that names no node of the graph.
pub open spec fn first_missing(graph: StackGraph, n: int) -> Option<WalkProblem>
    decreases n,
{
    if n <= 0 {
        None
    } else {
        match first_missing(graph, n - 1) {
            Some(problem) => Some(problem),
            None => match node_named(graph, graph.incoming_edges.keys()[n - 1]) {
                Err(problem) => Some(problem),
                Ok(_) => None,
            },
        }
    }
}

/// The roots of a graph, in descending order of their names.
pub open spec fn root_order(graph: StackGraph) -> Seq<Seq<char>> {
    sorted_descending(
        root_names(edges_view(graph.incoming_edges), graph.incoming_edges.keys().len() as int),
    )
}

/// The depth up to which trees are built: the number of nodes of the graph,
/// which no branch without a cycle exceeds.
pub open spec fn fuel_of(graph: StackGraph) -> nat {
    let count = graph.services.keys().len() + graph.projects.keys().len()
        + graph.stacks.keys().len();
    if count > usize::MAX {
        usize::MAX as nat
    } else {
        count
    }
}

/// The trees of the roots of a graph, or what stops their making.
pub open spec fn deploy_trees(graph: StackGraph) -> Result<Seq<NodeView>, WalkProblem> {
    match first_missing(graph, graph.incoming_edges.keys().len() as int) {
        Some(problem) => Err(problem),
        None => walked_children(graph, root_order(graph), fuel_of(graph), root_order(graph).len()),
    }
}

/// What stops the materialisation of a graph, if anything: a name with
/// edges and without a node, a problem of the nested graph, or a problem
/// with a tree.
pub open spec fn graph_problem(graph: StackGraph) -> Option<WalkProblem>
    decreases graph,
{
    if first_missing(graph, graph.incoming_edges.keys().len() as int) is Some {
        first_missing(graph, graph.incoming_edges.keys().len() as int)
    } else if graph.meta is Some && graph_problem(*graph.meta->0) is Some {
        graph_problem(*graph.meta->0)
    } else {
        match deploy_trees(graph) {
            Err(problem) => Some(problem),
            Ok(_) => None,
        }
    }
}

/// Whether `artifact` is the materialisation of `graph`.
pub open spec fn is_artifact_of(artifact: ArtifactRepr, graph: StackGraph) -> bool
    decreases graph,
{
    &&& artifact.torb_version@ == graph.version@
    &&& artifact.helm_version@ == graph.helm_version@
    &&& artifact.terraform_version@ == graph.tf_version@
    &&& artifact.commits.entries(|v: String| v@) == graph.commits.entries(|v: String| v@)
    &&& artifact.stack_name@ == graph.name@
    &&& opt_text(artifact.namespace) == opt_text(graph.namespace)
    &&& opt_text(artifact.release) == opt_text(graph.release)
    &&& opt_texts(artifact.repositories) == opt_texts(graph.repositories)
    &&& artifact.watcher@ == graph.watcher@
    &&& deploy_trees(graph) == Ok::<Seq<NodeView>, WalkProblem>(node_views(artifact.deploys@))
    &&& nodes_view(artifact.nodes) == stored_all(
        Seq::empty(),
        subtrees_of(node_views(artifact.deploys@), artifact.deploys@.len()),
    )
    &&& match graph.meta {
        None => artifact.meta is None,
        Some(meta) => artifact.meta is Some && is_artifact_of(*artifact.meta->0, *meta),
    }
}

/// Storing under a key keeps the keys distinct and keeps every key that was
/// there.
pub proof fn lemma_stored_keys<W>(entries: Seq<(Seq<char>, W)>, key: Seq<char>, value: W)
    requires
        entry_keys(entries).no_duplicates(),
    ensures
        entry_keys(stored(entries, key, value)).no_duplicates(),
        entry_keys(stored(entries, key, value)).contains(key),
        forall|k: Seq<char>|
            entry_keys(entries).contains(k) ==> entry_keys(stored(entries, key, value)).contains(k),
{
    let keys = entry_keys(entries);
    let after = entry_keys(stored(entries, key, value));
    if keys.contains(key) {
        let at = keys.index_of(key);
        assert(keys[at] == key);
        assert(after =~= keys);
    } else {
        assert(after =~= keys.push(key));
        crate::collections::lemma_push_keeps_distinct(keys, key);
        assert(after[keys.len() as int] == key);
        assert forall|k: Seq<char>| keys.contains(k) implies after.contains(k) by {
            let i = choose|i: int| 0 <= i < keys.len() && keys[i] == k;
            assert(after[i] == k);
        }
    }
}

/// After a list of trees was stored, the keys are distinct, and the name of
/// every tree of the list is among them: every node is there exactly once,
/// however often it was reached.
pub proof fn lemma_every_tree_stored_once(
    entries: Seq<(Seq<char>, NodeView)>,
    trees: Seq<NodeView>,
)
    requires
        entry_keys(entries).no_duplicates(),
    ensures
        entry_keys(stored_all(entries, trees)).no_duplicates(),
        forall|k: Seq<char>|
            entry_keys(entries).contains(k) ==> entry_keys(stored_all(entries, trees)).contains(k),
        forall|i: int|
            0 <= i < trees.len() ==> entry_keys(stored_all(entries, trees)).contains(
                #[trigger] trees[i].fqn,
            ),
    decreases trees.len(),
{
    if trees.len() > 0 {
        let shorter = trees.drop_last();
        lemma_every_tree_stored_once(entries, shorter);
        lemma_stored_keys(stored_all(entries, shorter), trees.last().fqn, trees.last());
        assert forall|i: int| 0 <= i < trees.len() implies entry_keys(
            stored_all(entries, trees),
        ).contains(#[trigger] trees[i].fqn) by {
            if i < shorter.len() {
                assert(shorter[i] == trees[i]);
            }
        }
    }
}

/// In the materialisation of a graph every node of every tree stands in
/// `nodes` under its name, and no name stands there twice.
pub proof fn lemma_nodes_hold_each_node_once(artifact: ArtifactRepr, graph: StackGraph)
    requires
        is_artifact_of(artifact, graph),
    ensures
        entry_keys(nodes_view(artifact.nodes)).no_duplicates(),
        forall|i: int|
            #![trigger subtrees_of(node_views(artifact.deploys@), artifact.deploys@.len())[i]]
            0 <= i < subtrees_of(node_views(artifact.deploys@), artifact.deploys@.len()).len()
                ==> entry_keys(nodes_view(artifact.nodes)).contains(
                subtrees_of(node_views(artifact.deploys@), artifact.deploys@.len())[i].fqn,
            ),
{
    let none = Seq::<(Seq<char>, NodeView)>::empty();
    assert(entry_keys(none) =~= Seq::<Seq<char>>::empty());
    lemma_every_tree_stored_once(
        none,
        subtrees_of(node_views(artifact.deploys@), artifact.deploys@.len()),
    );
}

/// The namespace a node is deployed to: the node's own, else the one
/// shared by the stack, else the first segment of the node's name with `_`
/// turned into `-`.
pub open spec fn namespace_text(shared: Option<Seq<char>>, node: NodeView) -> Seq<char> {
    if node.namespace is Some {
        node.namespace->0
    } else if shared is Some {
        shared->0
    } else {
        replaced(split(node.fqn, '.')[0], '_', "-"@)
    }
}

/// `memorable_wordlist::kebab_case` with sixteen bits: words picked by
/// chance, with `-` between them.
#[verifier::external_body]
fn random_release_name() -> (name: String) {
    memorable_wordlist::kebab_case(16)
}

impl ArtifactRepr {
    pub fn new(
        torb_version: String,
        helm_version: String,
        terraform_version: String,
        commits: OrderedMap<String>,
        stack_name: String,
        meta: Option<Box<ArtifactRepr>>,
        namespace: Option<String>,
        release: Option<String>,
        repositories: Option<Vec<String>>,
        watcher: WatcherConfig,
    ) -> (artifact: ArtifactRepr)
        ensures
            artifact.torb_version == torb_version,
            artifact.helm_version == helm_version,
            artifact.terraform_version == terraform_version,
            artifact.commits == commits,
            artifact.stack_name == stack_name,
            artifact.meta == meta,
            artifact.deploys@.len() == 0,
            artifact.nodes.keys().len() == 0,
            artifact.namespace == namespace,
            artifact.release == release,
            artifact.repositories == repositories,
            artifact.watcher == watcher,
    {
        ArtifactRepr {
            torb_version,
            helm_version,
            terraform_version,
            commits,
            stack_name,
            meta,
            deploys: Vec::new(),
            nodes: OrderedMap::new(),
            namespace,
            release,
            repositories,
            watcher,
        }
    }

    /// The namespace that `node` is deployed to.
    pub fn namespace(&self, node: &ArtifactNodeRepr) -> (namespace: String)
        ensures
            namespace@ == namespace_text(opt_text(self.namespace), node@),
    {
        match &node.namespace {
            Some(own) => own.clone(),
            None => match &self.namespace {
                Some(shared) => shared.clone(),
                None => {
                    let parts = split_on(node.fqn.as_str(), '.');
                    assert(texts(parts@)[0] == parts@[0]@);
                    replace_char(parts[0].as_str(), '_', "-")
                },
            },
        }
    }

    /// The release name: the one the stack gives, else `generated`.
    pub fn release_or(&self, generated: String) -> (name: String)
        ensures
            name@ == match self.release {
                Some(given) => given@,
                None => generated@,
            },
    {
        match &self.release {
            Some(given) => given.clone(),
            None => generated,
        }
    }

    /// The release name: the one the stack gives, else a name made of words
    /// picked by chance.
    pub fn release(&self) -> (name: String)
        ensures
            self.release is Some ==> name@ == self.release->0@,
    {
        match &self.release {
            Some(given) => given.clone(),
            None => self.release_or(random_release_name()),
        }
    }
}

/// How deep the trees of a graph are built.
pub fn fuel_for(graph: &StackGraph) -> (fuel: usize)
    ensures
        fuel == fuel_of(*graph),
{
    let a = graph.services.len();
    let b = graph.projects.len();
    let c = graph.stacks.len();
    let ab = if a > usize::MAX - b {
        usize::MAX
    } else {
        a + b
    };
    if ab > usize::MAX - c {
        usize::MAX
    } else {
        ab + c
    }
}

/// The names of the roots of a graph, in descending order. Every name that
/// has edges must name a node of the graph.
pub fn get_start_names(graph: &StackGraph) -> (roots: Result<Vec<String>, TorbArtifactErrors>)
    ensures
        roots is Err == first_missing(*graph, graph.incoming_edges.keys().len() as int) is Some,
        roots is Err ==> roots->Err_0.problem() == first_missing(
            *graph,
            graph.incoming_edges.keys().len() as int,
        ),
        roots is Ok ==> texts(roots->Ok_0@) == root_order(*graph),
        roots is Ok ==> forall|i: int|
            0 <= i < roots->Ok_0@.len() ==> node_named(*graph, #[trigger] roots->Ok_0@[i]@) is Ok,
{
    let n = graph.incoming_edges.len();
    let ghost edges = edges_view(graph.incoming_edges);
    let mut names: Vec<String> = Vec::new();
    let mut i: usize = 0;
    proof {
        graph.incoming_edges.lemma_entries(|list: Vec<String>| texts(list@));
        assert(texts(names@) =~= root_names(edges, 0));
    }
    while i < n
        invariant
            i <= n,
            n == graph.incoming_edges.keys().len(),
            n == graph.incoming_edges.values().len(),
            edges == edges_view(graph.incoming_edges),
            forall|j: int|
                0 <= j < n ==> #[trigger] edges[j] == (
                    graph.incoming_edges.keys()[j],
                    texts(graph.incoming_edges.values()[j]@),
                ),
            first_missing(*graph, i as int) is None,
            texts(names@) == root_names(edges, i as int),
            forall|j: int|
                0 <= j < names@.len() ==> node_named(*graph, #[trigger] texts(names@)[j]) is Ok,
        decreases n - i,
    {
        let fqn = graph.incoming_edges.key_at(i);
        match find_node(graph, fqn.as_str()) {
            Ok(_) => {},
            Err(e) => {
                proof {
                    lemma_missing_stays(*graph, (i + 1) as int, n as int);
                }
                return Err(e);
            },
        }
        if graph.incoming_edges.value_at(i).len() == 0 {
            let ghost before = texts(names@);
            names.push(fqn.clone());
            assert(texts(names@) =~= before.push(fqn@));
        }
        i += 1;
    }
    let sorted = sort_descending(&names);
    proof {
        assert forall|k: int| 0 <= k < sorted@.len() implies node_named(
            *graph,
            #[trigger] sorted@[k]@,
        ) is Ok by {
            let name = texts(sorted@)[k];
            texts(sorted@).to_multiset_ensures();
            texts(names@).to_multiset_ensures();
            assert(texts(sorted@).contains(name));
            assert(texts(names@).to_multiset().count(name) > 0);
            assert(texts(names@).contains(name));
            let j = choose|j: int| 0 <= j < texts(names@).len() && texts(names@)[j] == name;
            assert(node_named(*graph, texts(names@)[j]) is Ok);
        }
    }
    Ok(sorted)
}

/// A name without a node among the first names is the first such name
/// among them all.
pub proof fn lemma_missing_stays(graph: StackGraph, n: int, m: int)
    requires
        0 <= n <= m,
        first_missing(graph, n) is Some,
    ensures
        first_missing(graph, m) == first_missing(graph, n),
    decreases m,
{
    if n < m {
        lemma_missing_stays(graph, n, m - 1);
    }
}

/// The roots of a graph: the nodes that nothing depends on, in descending
/// order of their names.
pub fn get_start_nodes<'a>(graph: &'a StackGraph) -> (roots: Result<
    Vec<&'a ArtifactNodeRepr>,
    TorbArtifactErrors,
>)
    ensures
        roots is Err == first_missing(*graph, graph.incoming_edges.keys().len() as int) is Some,
        roots is Err ==> roots->Err_0.problem() == first_missing(
            *graph,
            graph.incoming_edges.keys().len() as int,
        ),
        roots is Ok ==> roots->Ok_0@.len() == root_order(*graph).len(),
        roots is Ok ==> forall|i: int|
            0 <= i < roots->Ok_0@.len() ==> node_named(*graph, root_order(*graph)[i]) == Ok::<
                ArtifactNodeRepr,
                WalkProblem,
            >(*#[trigger] roots->Ok_0@[i]),
{
    let names = match get_start_names(graph) {
        Ok(names) => names,
        Err(e) => {
            return Err(e);
        },
    };
    let mut nodes: Vec<&'a ArtifactNodeRepr> = Vec::new();
    let mut i: usize = 0;
    while i < names.len()
        invariant
            i <= names@.len(),
            nodes@.len() == i,
            texts(names@) == root_order(*graph),
            first_missing(*graph, graph.incoming_edges.keys().len() as int) is None,
            forall|j: int|
                0 <= j < names@.len() ==> node_named(*graph, #[trigger] names@[j]@) is Ok,
            forall|j: int|
                0 <= j < i ==> node_named(*graph, root_order(*graph)[j]) == Ok::<
                    ArtifactNodeRepr,
                    WalkProblem,
                >(*#[trigger] nodes@[j]),
        decreases names@.len() - i,
    {
        assert(texts(names@)[i as int] == names@[i as int]@);
        match find_node(graph, names[i].as_str()) {
            Ok(node) => {
                nodes.push(node);
            },
            Err(e) => {
                assert(false);
                return Err(e);
            },
        }
        i += 1;
    }
    Ok(nodes)
}

/// A copy of the commits of every repository.
pub fn copy_commits(commits: &OrderedMap<String>) -> (copy: OrderedMap<String>)
    ensures
        copy.entries(|v: String| v@) == commits.entries(|v: String| v@),
{
    let copy = commits.map_values(copy_text);
    assert(copy.entries(|v: String| v@) =~= commits.entries(|v: String| v@));
    copy
}

/// Materialises a graph: builds the tree of every root, in descending order
/// of the roots' names, and gathers every node once under its name.
pub fn walk_graph(graph: &StackGraph) -> (made: Result<ArtifactRepr, TorbArtifactErrors>)
    ensures
        made is Ok == graph_problem(*graph) is None,
        made is Ok ==> is_artifact_of(made->Ok_0, *graph),
        made is Err ==> made->Err_0.problem() == graph_problem(*graph),
    decreases graph, 1nat,
{
    let start_nodes = match get_start_nodes(graph) {
        Ok(nodes) => nodes,
        Err(e) => {
            return Err(e);
        },
    };
    let meta = match stack_into_artifact(&graph.meta) {
        Ok(meta) => meta,
        Err(e) => {
            return Err(e);
        },
    };
    let mut artifact = ArtifactRepr::new(
        graph.version.clone(),
        graph.helm_version.clone(),
        graph.tf_version.clone(),
        copy_commits(&graph.commits),
        graph.name.clone(),
        meta,
        copy_opt_string(&graph.namespace),
        copy_opt_string(&graph.release),
        copy_opt_strings(&graph.repositories),
        graph.watcher.duplicate(),
    );
    let fuel = fuel_for(graph);
    let ghost order = root_order(*graph);
    let mut node_map: OrderedMap<ArtifactNodeRepr> = OrderedMap::new();
    let mut deploys: Vec<ArtifactNodeRepr> = Vec::new();
    let mut i: usize = 0;
    proof {
        assert(node_views(deploys@) =~= Seq::<NodeView>::empty());
        assert(nodes_view(node_map) =~= Seq::<(Seq<char>, NodeView)>::empty());
    }
    while i < start_nodes.len()
        invariant
            i <= start_nodes@.len(),
            fuel == fuel_of(*graph),
            order == root_order(*graph),
            first_missing(*graph, graph.incoming_edges.keys().len() as int) is None,
            graph.meta is Some ==> graph_problem(*graph.meta->0) is None,
            start_nodes@.len() == order.len(),
            deploys@.len() == i,
            forall|j: int|
                0 <= j < start_nodes@.len() ==> node_named(*graph, order[j]) == Ok::<
                    ArtifactNodeRepr,
                    WalkProblem,
                >(*#[trigger] start_nodes@[j]),
            walked_children(*graph, order, fuel as nat, i as nat) == Ok::<
                Seq<NodeView>,
                WalkProblem,
            >(node_views(deploys@)),
            nodes_view(node_map) == stored_all(
                Seq::empty(),
                subtrees_of(node_views(deploys@), i as nat),
            ),
        decreases start_nodes@.len() - i,
    {
        let node = start_nodes[i];
        let tree = match walk_nodes(node, graph, &mut node_map, fuel) {
            Ok(tree) => tree,
            Err(e) => {
                proof {
                    assert(walked_children(*graph, order, fuel as nat, (i + 1) as nat) is Err);
                    lemma_problem_stays(*graph, order, fuel as nat, (i + 1) as nat, order.len());
                }
                return Err(e);
            },
        };
        let ghost views_before = node_views(deploys@);
        deploys.push(tree);
        proof {
            let views = node_views(deploys@);
            assert(views =~= views_before.push(tree@));
            lemma_subtrees_prefix(views_before, views, i as nat);
            lemma_stored_concat(
                Seq::empty(),
                subtrees_of(views_before, i as nat),
                subtrees(tree@),
            );
        }
        i += 1;
    }
    artifact.deploys = deploys;
    artifact.nodes = node_map;
    Ok(artifact)
}

/// Materialises the nested graph of a stack, where it has one.
pub fn stack_into_artifact(meta: &Option<Box<StackGraph>>) -> (made: Result<
    Option<Box<ArtifactRepr>>,
    TorbArtifactErrors,
>)
    ensures
        made is Ok == (meta is None || graph_problem(*meta->0) is None),
        made is Ok ==> (made->Ok_0 is Some) == (meta is Some),
        made is Ok && meta is Some ==> is_artifact_of(*made->Ok_0->0, *meta->0),
        made is Err ==> made->Err_0.problem() == graph_problem(*meta->0),
    decreases meta, 0nat,
{
    match meta {
        Some(graph) => {
            match walk_graph(graph) {
                Ok(artifact) => Ok(Some(Box::new(artifact))),
                Err(e) => Err(e),
            }
        },
        None => Ok(None),
    }
}

/// The name of the build file for a content with the given hash.
pub open spec fn build_file_name(hash: Seq<char>) -> Seq<char> {
    hash + "_"@ + "outfile"@ + ".yaml"@
}

/// The hash that a build file's name carries: what stands before the first
/// `_`.
pub open spec fn hash_in_name(filename: Seq<char>) -> Seq<char> {
    split(filename, '_')[0]
}

/// For the serialised form of an artifact: its hash, the name of its build
/// file, and the form itself.
pub fn get_build_file_info(serialized: String) -> (info: (String, String, String))
    ensures
        info.0@ == content_hash(serialized@),
        info.1@ == build_file_name(content_hash(serialized@)),
        info.2@ == serialized@,
        hash_in_name(info.1@) == info.0@,
{
    let hash = hash_of(serialized.as_str());
    proof {
        lemma_named_after_content_loads(serialized@);
    }
    let mut filename = concat3(hash.as_str(), "_", "outfile");
    filename.append(".yaml");
    (hash, filename, serialized)
}

/// Checks the content of a build file against its name. `content` is the
/// serialised form of the artifact that was read from the file named
/// `filename`; it must hash to what the name carries.
pub fn load_build_file(filename: String, content: String) -> (loaded: Result<
    (String, String),
    TorbArtifactErrors,
>)
    ensures
        loaded is Ok == (content_hash(content@) == hash_in_name(filename@)),
        loaded is Ok ==> loaded->Ok_0.0@ == hash_in_name(filename@) && loaded->Ok_0.1@
            == filename@,
        loaded is Err ==> loaded->Err_0 is LoadChecksumFailed,
{
    let parts = split_on(filename.as_str(), '_');
    assert(texts(parts@)[0] == parts@[0]@);
    let hash = parts[0].clone();
    if checksum(content, hash.clone()) {
        Ok((hash, filename))
    } else {
        Err(TorbArtifactErrors::LoadChecksumFailed)
    }
}

/// A build file that is named after its content loads.
pub proof fn lemma_named_after_content_loads(serialized: Seq<char>)
    requires
        !content_hash(serialized).contains('_'),
    ensures
        hash_in_name(build_file_name(content_hash(serialized))) == content_hash(serialized),
{
    let hash = content_hash(serialized);
    let name = build_file_name(hash);
    reveal_strlit("_");
    reveal_strlit("outfile");
    reveal_strlit(".yaml");
    assert(name[hash.len() as int] == '_');
    lemma_run_to(name, '_', 0, hash.len() as int);
    assert(name.subrange(0, hash.len() as int) =~= hash);
}

/// Where nothing between `from` and `to` is the delimiter and `to` is, the
/// first delimiter from `from` on is at `to`.
pub proof fn lemma_run_to(s: Seq<char>, c: char, from: int, to: int)
    requires
        0 <= from <= to < s.len(),
        forall|k: int| from <= k < to ==> s[k] != c,
        s[to] == c,
    ensures
        crate::text::first_of(s, c, c, from) == to,
    decreases to - from,
{
    if from < to {
        lemma_run_to(s, c, from + 1, to);
    }
}

/// What can go wrong on the way from a stack document to an artifact.
#[derive(Debug, PartialEq)]
pub enum TorbMaterializeErrors {
    /// The stack could not be resolved.
    Resolver(TorbResolverErrors),
    /// The graph of the stack could not be materialised.
    Artifact(TorbArtifactErrors),
}

/// Resolves the stack that a YAML text describes and materialises its
/// graph.
pub fn deserialize_stack_yaml_into_artifact(
    stack_yaml: &String,
    provenance: Provenance,
    definitions: &Vec<LoadedDefinition>,
) -> (made: Result<ArtifactRepr, TorbMaterializeErrors>)
    ensures
        match made {
            Ok(artifact) => {
                &&& text_problem(stack_yaml@, definition_views(definitions@)) is None
                &&& exists|graph: StackGraph|
                    is_graph_of(
                        graph,
                        crate::utils::normalized(
                            crate::resolver::text_if_string(
                                yaml_parsed(stack_yaml@)->0,
                                "name"@,
                            )->0,
                        ),
                        yaml_parsed(stack_yaml@)->0,
                        provenance,
                        definition_views(definitions@),
                    ) && graph_problem(graph) is None && is_artifact_of(artifact, graph)
            },
            Err(TorbMaterializeErrors::Resolver(e)) => Some(e.problem()) == text_problem(
                stack_yaml@,
                definition_views(definitions@),
            ),
            Err(TorbMaterializeErrors::Artifact(e)) => {
                &&& text_problem(stack_yaml@, definition_views(definitions@)) is None
                &&& exists|graph: StackGraph|
                    is_graph_of(
                        graph,
                        crate::utils::normalized(
                            crate::resolver::text_if_string(
                                yaml_parsed(stack_yaml@)->0,
                                "name"@,
                            )->0,
                        ),
                        yaml_parsed(stack_yaml@)->0,
                        provenance,
                        definition_views(definitions@),
                    ) && e.problem() == graph_problem(graph) && graph_problem(graph) is Some
            },
        },
{
    let graph = match resolve_stack(stack_yaml, provenance, definitions) {
        Ok(resolved) => resolved.0,
        Err(e) => {
            return Err(TorbMaterializeErrors::Resolver(e));
        },
    };
    match walk_graph(&graph) {
        Ok(artifact) => Ok(artifact),
        Err(e) => Err(TorbMaterializeErrors::Artifact(e)),
    }
}

} // verus!
