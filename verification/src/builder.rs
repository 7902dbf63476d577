//! The order in which the nodes of an artifact are built, and what is done
//! for each.

use crate::artifacts::ArtifactRepr;
use crate::collections::StringSet;
use crate::node::{node_views, ArtifactNodeRepr, NodeView};
use crate::text::{concat3, texts};
use crate::value::str_eq;
use vstd::prelude::*;

verus! {

/// What can go wrong while a stack is built.
#[derive(Debug, PartialEq)]
pub enum TorbBuilderErrors {
    UnableToBuildDockerfile { response: String },
    UnableToBuildBuildScript { response: String },
    MustDefineDockerfileOrBuildScript,
    NodeAlreadyBuilt,
}

impl TorbBuilderErrors {
    /// The sentence shown for the error.
    pub fn message(&self) -> (text: String)
        ensures
            text@ == match *self {
                TorbBuilderErrors::UnableToBuildDockerfile { response } =>
                    "Unable to build from dockerfile, reason: "@ + response@ + ""@,
                TorbBuilderErrors::UnableToBuildBuildScript { response } =>
                    "Unable to build from build script, reason: "@ + response@ + ""@,
                TorbBuilderErrors::MustDefineDockerfileOrBuildScript =>
                    "Either dockerfile or script_path must be provided."@,
                TorbBuilderErrors::NodeAlreadyBuilt =>
                    "The node has already been built. This theoretically should never be hit, so please ping the maintainers."@,
            },
    {
        match self {
            TorbBuilderErrors::UnableToBuildDockerfile { response } => concat3(
                "Unable to build from dockerfile, reason: ",
                response.as_str(),
                "",
            ),
            TorbBuilderErrors::UnableToBuildBuildScript { response } => concat3(
                "Unable to build from build script, reason: ",
                response.as_str(),
                "",
            ),
            TorbBuilderErrors::MustDefineDockerfileOrBuildScript => {
                "Either dockerfile or script_path must be provided.".to_owned()
            },
            TorbBuilderErrors::NodeAlreadyBuilt => {
                "The node has already been built. This theoretically should never be hit, so please ping the maintainers.".to_owned()
            },
        }
    }
}

/// The names of a tree in the order in which a walk reaches its nodes:
/// every node after its dependencies. A dependency that is exempt is passed
/// over with all that is below it.
pub open spec fn visits(tree: NodeView, exempt: Seq<Seq<char>>) -> Seq<Seq<char>>
    decreases tree, 0nat,
{
    visits_of(tree.dependencies, exempt, tree.dependencies.len()).push(tree.fqn)
}

/// The names that a walk reaches in the first `n` trees of a list.
pub open spec fn visits_of(list: Seq<NodeView>, exempt: Seq<Seq<char>>, n: nat) -> Seq<Seq<char>>
    decreases list, n,
{
    if n == 0 || n > list.len() {
        Seq::empty()
    } else {
        let before = visits_of(list, exempt, (n - 1) as nat);
        if exempt.contains(list[n - 1].fqn) {
            before
        } else {
            before + visits(list[n - 1], exempt)
        }
    }
}

/// `base`, extended by each of `names` in turn that is not yet there.
pub open spec fn once_onto(base: Seq<Seq<char>>, names: Seq<Seq<char>>) -> Seq<Seq<char>>
    decreases names.len(),
{
    if names.len() == 0 {
        base
    } else {
        let before = once_onto(base, names.drop_last());
        if before.contains(names.last()) {
            before
        } else {
            before.push(names.last())
        }
    }
}

/// Taking two lists of names in one after the other is taking in their
/// concatenation.
pub proof fn lemma_once_concat(base: Seq<Seq<char>>, first: Seq<Seq<char>>, second: Seq<Seq<char>>)
    ensures
        once_onto(base, first + second) == once_onto(once_onto(base, first), second),
    decreases second.len(),
{
    if second.len() == 0 {
        assert(first + second =~= first);
    } else {
        lemma_once_concat(base, first, second.drop_last());
        assert((first + second).drop_last() =~= first + second.drop_last());
        assert((first + second).last() == second.last());
    }
}

/// What was taken in holds no name twice, holds what the base held, and
/// holds every one of the names.
pub proof fn lemma_once_holds_all(base: Seq<Seq<char>>, names: Seq<Seq<char>>)
    requires
        base.no_duplicates(),
    ensures
        once_onto(base, names).no_duplicates(),
        forall|name: Seq<char>| base.contains(name) ==> once_onto(base, names).contains(name),
        forall|i: int| 0 <= i < names.len() ==> once_onto(base, names).contains(#[trigger] names[i]),
    decreases names.len(),
{
    if names.len() > 0 {
        let shorter = names.drop_last();
        let before = once_onto(base, shorter);
        lemma_once_holds_all(base, shorter);
        if !before.contains(names.last()) {
            let after = before.push(names.last());
            crate::collections::lemma_push_keeps_distinct(before, names.last());
            assert forall|name: Seq<char>| before.contains(name) implies after.contains(name) by {
                let i = choose|i: int| 0 <= i < before.len() && before[i] == name;
                assert(after[i] == name);
            }
            assert(after[before.len() as int] == names.last());
        }
        assert forall|i: int| 0 <= i < names.len() implies once_onto(base, names).contains(
            #[trigger] names[i],
        ) by {
            if i < shorter.len() {
                assert(shorter[i] == names[i]);
            }
        }
    }
}

/// The order in which the nodes of a list of trees are worked on: as a
/// walk reaches them, every node once, at its first visit.
pub open spec fn work_order(trees: Seq<NodeView>, exempt: Seq<Seq<char>>) -> Seq<Seq<char>> {
    once_onto(Seq::empty(), visits_of(trees, exempt, trees.len()))
}

/// Every node that a walk reaches is worked on, and none twice: a node that
/// several nodes depend on is still built and initialised once.
pub proof fn lemma_worked_on_once(trees: Seq<NodeView>, exempt: Seq<Seq<char>>)
    ensures
        work_order(trees, exempt).no_duplicates(),
        forall|i: int|
            0 <= i < visits_of(trees, exempt, trees.len()).len() ==> work_order(
                trees,
                exempt,
            ).contains(#[trigger] visits_of(trees, exempt, trees.len())[i]),
{
    lemma_once_holds_all(Seq::empty(), visits_of(trees, exempt, trees.len()));
}

/// Walks one tree and takes in the names it reaches.
fn visit_tree(node: &ArtifactNodeRepr, exempt: &StringSet, seen: &mut StringSet)
    ensures
        final(seen)@ == once_onto(old(seen)@, visits(node@, exempt@)),
    decreases node,
{
    visit_trees(&node.dependencies, exempt, seen);
    proof {
        crate::node::lemma_dependencies_view(*node);
        let inner = visits_of(node@.dependencies, exempt@, node@.dependencies.len());
        assert(visits(node@, exempt@).drop_last() =~= inner);
        assert(visits(node@, exempt@).last() == node.fqn@);
    }
    seen.insert(node.fqn.clone());
}

/// Walks a list of trees and takes in the names it reaches.
fn visit_trees(nodes: &Vec<ArtifactNodeRepr>, exempt: &StringSet, seen: &mut StringSet)
    ensures
        final(seen)@ == once_onto(
            old(seen)@,
            visits_of(node_views(nodes@), exempt@, nodes@.len() as nat),
        ),
    decreases nodes,
{
    let mut i: usize = 0;
    while i < nodes.len()
        invariant
            i <= nodes@.len(),
            seen@ == once_onto(old(seen)@, visits_of(node_views(nodes@), exempt@, i as nat)),
        decreases nodes@.len() - i,
    {
        if !exempt.contains(nodes[i].fqn.as_str()) {
            assert(decreases_to!(nodes => nodes[i as int]));
            visit_tree(&nodes[i], exempt, seen);
            proof {
                lemma_once_concat(
                    old(seen)@,
                    visits_of(node_views(nodes@), exempt@, i as nat),
                    visits(nodes@[i as int]@, exempt@),
                );
            }
        }
        i += 1;
    }
}

/// The names of the nodes to work on, in order: dependencies before what
/// depends on them, every node once.
pub fn execution_order(deploys: &Vec<ArtifactNodeRepr>, exempt: &StringSet) -> (order: StringSet)
    ensures
        order@ == work_order(node_views(deploys@), exempt@),
{
    let mut seen = StringSet::new();
    visit_trees(deploys, exempt, &mut seen);
    seen
}

/// What building a node means.
#[derive(Debug, PartialEq)]
pub enum BuildAction {
    /// Build an image from the dockerfile.
    Dockerfile,
    /// Run the build script.
    Script,
    /// The node has nothing to build.
    Nothing,
}

/// The image label for a build: with the registry in front unless the
/// registry is local or not given.
pub open spec fn image_label(registry: Seq<char>, name: Seq<char>, tag: Seq<char>) -> Seq<char> {
    if registry != "local"@ && registry != ""@ {
        registry + "/"@ + name + ":"@ + tag
    } else {
        name + ":"@ + tag
    }
}

/// Builds the nodes of an artifact.
pub struct StackBuilder<'a> {
    pub artifact: &'a ArtifactRepr,
    pub built: StringSet,
    pub dryrun: bool,
    pub build_platforms: String,
    pub separate_local_registry: bool,
    pub exempt: StringSet,
}

impl<'a> StackBuilder<'a> {
    pub fn new(
        artifact: &'a ArtifactRepr,
        build_platforms: String,
        dryrun: bool,
        separate_local_registry: bool,
    ) -> (builder: StackBuilder<'a>)
        ensures
            builder.artifact == artifact,
            builder.built@.len() == 0,
            builder.dryrun == dryrun,
            builder.build_platforms == build_platforms,
            builder.separate_local_registry == separate_local_registry,
            builder.exempt@.len() == 0,
    {
        StackBuilder {
            artifact,
            built: StringSet::new(),
            dryrun,
            build_platforms,
            separate_local_registry,
            exempt: StringSet::new(),
        }
    }

    pub fn new_with_exempt_list(
        artifact: &'a ArtifactRepr,
        build_platforms: String,
        dryrun: bool,
        separate_local_registry: bool,
        exempt: Vec<String>,
    ) -> (builder: StackBuilder<'a>)
        ensures
            builder.artifact == artifact,
            builder.built@.len() == 0,
            builder.dryrun == dryrun,
            builder.build_platforms == build_platforms,
            builder.separate_local_registry == separate_local_registry,
            builder.exempt@ == once_onto(Seq::empty(), texts(exempt@)),
    {
        let mut set = StringSet::new();
        let mut i: usize = 0;
        assert(texts(exempt@).take(0) =~= Seq::<Seq<char>>::empty());
        while i < exempt.len()
            invariant
                i <= exempt@.len(),
                set@ == once_onto(Seq::empty(), texts(exempt@).take(i as int)),
            decreases exempt@.len() - i,
        {
            set.insert(exempt[i].clone());
            proof {
                let upto = texts(exempt@).take(i + 1);
                assert(upto.drop_last() =~= texts(exempt@).take(i as int));
                assert(upto.last() == exempt@[i as int]@);
            }
            i += 1;
        }
        assert(texts(exempt@).take(i as int) =~= texts(exempt@));
        StackBuilder {
            artifact,
            built: StringSet::new(),
            dryrun,
            build_platforms,
            separate_local_registry,
            exempt: set,
        }
    }

    /// Settles the order of the build: records as built, in order, every
    /// node that is to be built, and returns their names.
    pub fn build(&mut self) -> (order: Vec<String>)
        ensures
            final(self).built@ == work_order(
                node_views(old(self).artifact.deploys@),
                old(self).exempt@,
            ),
            texts(order@) == final(self).built@,
            final(self).artifact == old(self).artifact,
            final(self).exempt == old(self).exempt,
    {
        let built = execution_order(&self.artifact.deploys, &self.exempt);
        let n = built.len();
        let mut order: Vec<String> = Vec::new();
        let mut i: usize = 0;
        while i < n
            invariant
                i <= n,
                n == built@.len(),
                order@.len() == i,
                forall|j: int| 0 <= j < i ==> order@[j]@ == built@[j],
            decreases n - i,
        {
            order.push(built.item_at(i).clone());
            i += 1;
        }
        assert(texts(order@) =~= built@);
        self.built = built;
        order
    }

    /// What building `node` means: an image where its build step names a
    /// dockerfile, else a script where it names one; a build step that
    /// names neither is an error.
    pub fn build_node(&self, node: &ArtifactNodeRepr) -> (action: Result<
        BuildAction,
        TorbBuilderErrors,
    >)
        ensures
            match node.build_step {
                None => action == Ok::<BuildAction, TorbBuilderErrors>(BuildAction::Nothing),
                Some(step) => if step.dockerfile@ != ""@ {
                    action == Ok::<BuildAction, TorbBuilderErrors>(BuildAction::Dockerfile)
                } else if step.script_path@ != ""@ {
                    action == Ok::<BuildAction, TorbBuilderErrors>(BuildAction::Script)
                } else {
                    action == Err::<BuildAction, TorbBuilderErrors>(
                        TorbBuilderErrors::MustDefineDockerfileOrBuildScript,
                    )
                },
            },
    {
        match &node.build_step {
            Some(step) => {
                if !str_eq(step.dockerfile.as_str(), "") {
                    Ok(BuildAction::Dockerfile)
                } else if !str_eq(step.script_path.as_str(), "") {
                    Ok(BuildAction::Script)
                } else {
                    Err(TorbBuilderErrors::MustDefineDockerfileOrBuildScript)
                }
            },
            None => Ok(BuildAction::Nothing),
        }
    }

    /// The arguments of the image build: on the default builder and pushed
    /// where a registry of its own stands beside the local one, on the
    /// stack's builder for the given platforms and pushed for any other
    /// registry, and on the stack's builder and loaded for the local
    /// registry.
    pub fn docker_arguments(&self, label: &str, dockerfile: &str, registry: &str) -> (arguments:
        Vec<String>)
        ensures
            texts(arguments@) == if registry@ != "local"@ {
                if self.separate_local_registry {
                    seq![
                        "buildx"@,
                        "--builder"@,
                        "default"@,
                        "build"@,
                        "-t"@,
                        label@,
                        "."@,
                        "-f"@,
                        dockerfile@,
                        "--push"@,
                    ]
                } else {
                    seq![
                        "buildx"@,
                        "--builder"@,
                        "torb_builder"@,
                        "build"@,
                        "--platform"@,
                        self.build_platforms@,
                        "-t"@,
                        label@,
                        "."@,
                        "-f"@,
                        dockerfile@,
                        "--push"@,
                    ]
                }
            } else {
                seq![
                    "buildx"@,
                    "--builder"@,
                    "torb_builder"@,
                    "build"@,
                    "-t"@,
                    label@,
                    "."@,
                    "-f"@,
                    dockerfile@,
                    "--load"@,
                ]
            },
    {
        let mut arguments: Vec<String> = Vec::new();
        arguments.push("buildx".to_owned());
        arguments.push("--builder".to_owned());
        let pushed = !str_eq(registry, "local");
        if pushed && self.separate_local_registry {
            arguments.push("default".to_owned());
        } else {
            arguments.push("torb_builder".to_owned());
        }
        arguments.push("build".to_owned());
        if pushed && !self.separate_local_registry {
            arguments.push("--platform".to_owned());
            arguments.push(self.build_platforms.clone());
        }
        arguments.push("-t".to_owned());
        arguments.push(label.to_owned());
        arguments.push(".".to_owned());
        arguments.push("-f".to_owned());
        arguments.push(dockerfile.to_owned());
        if pushed {
            arguments.push("--push".to_owned());
        } else {
            arguments.push("--load".to_owned());
        }
        proof {
            if pushed && self.separate_local_registry {
                assert(texts(arguments@) =~= seq![
                    "buildx"@,
                    "--builder"@,
                    "default"@,
                    "build"@,
                    "-t"@,
                    label@,
                    "."@,
                    "-f"@,
                    dockerfile@,
                    "--push"@,
                ]);
            } else if pushed {
                assert(texts(arguments@) =~= seq![
                    "buildx"@,
                    "--builder"@,
                    "torb_builder"@,
                    "build"@,
                    "--platform"@,
                    self.build_platforms@,
                    "-t"@,
                    label@,
                    "."@,
                    "-f"@,
                    dockerfile@,
                    "--push"@,
                ]);
            } else {
                assert(texts(arguments@) =~= seq![
                    "buildx"@,
                    "--builder"@,
                    "torb_builder"@,
                    "build"@,
                    "-t"@,
                    label@,
                    "."@,
                    "-f"@,
                    dockerfile@,
                    "--load"@,
                ]);
            }
        }
        arguments
    }

    /// The label of the image built for a node.
    pub fn image_label(name: &str, tag: &str, registry: &str) -> (label: String)
        ensures
            label@ == image_label(registry@, name@, tag@),
    {
        if !str_eq(registry, "local") && !str_eq(registry, "") {
            let mut label = concat3(registry, "/", name);
            label.append(":");
            label.append(tag);
            label
        } else {
            concat3(name, ":", tag)
        }
    }
}

} // verus!
