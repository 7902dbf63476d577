//! The initialisation of the nodes of an artifact: every node once, after
//! its dependencies, by the lines of its init script.

use crate::artifacts::ArtifactRepr;
use crate::builder::{execution_order, work_order};
use crate::collections::StringSet;
use crate::inputs::{
    first_unresolved_line, interpolate_line, interpolated, unresolved_from,
    TorbInputResolverErrors,
};
use crate::node::{mapped_view, node_views, ArtifactNodeRepr};
use crate::text::{join, joined, texts};
use vstd::prelude::*;

verus! {

/// Initialises the nodes of an artifact.
pub struct StackInitializer<'a> {
    pub artifact: &'a ArtifactRepr,
    pub initialized: StringSet,
}

/// The resolved lines of the first `n` lines of an init script.
pub open spec fn resolved_lines(
    steps: Seq<String>,
    inputs: Seq<(Seq<char>, (Seq<char>, crate::value::InputView))>,
    n: int,
) -> Seq<Seq<char>>
    decreases n,
{
    if n <= 0 {
        Seq::empty()
    } else {
        resolved_lines(steps, inputs, n - 1).push(interpolated(steps[n - 1]@, inputs)->0)
    }
}

/// The script that initialises a node: the lines of its init step with
/// their tokens resolved, with `;` between them.
pub open spec fn init_script_of(node: ArtifactNodeRepr) -> Seq<char> {
    joined(
        resolved_lines(
            node.init_step->0@,
            mapped_view(node.mapped_inputs),
            node.init_step->0@.len() as int,
        ),
        ";"@,
    )
}

impl<'a> StackInitializer<'a> {
    pub fn new(artifact: &'a ArtifactRepr) -> (initializer: StackInitializer<'a>)
        ensures
            initializer.artifact == artifact,
            initializer.initialized@.len() == 0,
    {
        StackInitializer { artifact, initialized: StringSet::new() }
    }

    /// Settles the order of the initialisation: records as initialised, in
    /// order, every node of the artifact, and returns their names.
    pub fn run_node_init_steps(&mut self) -> (order: Vec<String>)
        ensures
            final(self).initialized@ == work_order(
                node_views(old(self).artifact.deploys@),
                Seq::empty(),
            ),
            texts(order@) == final(self).initialized@,
            final(self).artifact == old(self).artifact,
    {
        let none = StringSet::new();
        let initialized = execution_order(&self.artifact.deploys, &none);
        let n = initialized.len();
        let mut order: Vec<String> = Vec::new();
        let mut i: usize = 0;
        while i < n
            invariant
                i <= n,
                n == initialized@.len(),
                order@.len() == i,
                forall|j: int| 0 <= j < i ==> order@[j]@ == initialized@[j],
            decreases n - i,
        {
            order.push(initialized.item_at(i).clone());
            i += 1;
        }
        assert(texts(order@) =~= initialized@);
        self.initialized = initialized;
        order
    }

    /// The script that initialises `node`; none where the node has no init
    /// step.
    pub fn initalize_node(&self, node: &ArtifactNodeRepr) -> (script: Result<
        Option<String>,
        TorbInputResolverErrors,
    >)
        ensures
            node.init_step is None ==> script is Ok && script->Ok_0 is None,
            node.init_step is Some ==> {
                &&& script is Ok == first_unresolved_line(
                    node.init_step->0@,
                    mapped_view(node.mapped_inputs),
                    0,
                ) is None
                &&& script is Ok ==> script->Ok_0 is Some && script->Ok_0->0@ == init_script_of(
                    *node,
                )
                &&& script is Err ==> script->Err_0 is UnresolvedInitToken && unresolved_from(
                    node.init_step->0@[first_unresolved_line(
                        node.init_step->0@,
                        mapped_view(node.mapped_inputs),
                        0,
                    )->0]@,
                    mapped_view(node.mapped_inputs),
                    0,
                ) == Some(script->Err_0->token@)
            },
    {
        let steps = match &node.init_step {
            Some(steps) => steps,
            None => {
                return Ok(None);
            },
        };
        let mut lines: Vec<String> = Vec::new();
        let mut i: usize = 0;
        assert(texts(lines@) =~= Seq::<Seq<char>>::empty());
        while i < steps.len()
            invariant
                node.init_step == Some(*steps),
                i <= steps@.len(),
                first_unresolved_line(steps@, mapped_view(node.mapped_inputs), 0)
                    == first_unresolved_line(steps@, mapped_view(node.mapped_inputs), i as int),
                texts(lines@) == resolved_lines(steps@, mapped_view(node.mapped_inputs), i as int),
            decreases steps@.len() - i,
        {
            match interpolate_line(&node.mapped_inputs, steps[i].as_str()) {
                Ok(line) => {
                    let ghost before = texts(lines@);
                    lines.push(line);
                    assert(texts(lines@) =~= before.push(line@));
                },
                Err(e) => {
                    return Err(e);
                },
            }
            i += 1;
        }
        Ok(Some(join(&lines, ";")))
    }
}

} // verus!
