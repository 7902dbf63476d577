//! Discovery of the dependencies a node has without declaring them: the
//! nodes that the addresses in its values and in its mapped inputs point
//! at.

use crate::address::{address_of_input, parse_address, InputAddress};
use crate::collections::{OrderedMap, StringSet};
use crate::inputs::{read_values, values_document};
use crate::node::{fqn_of, mapped_view, ArtifactNodeRepr};
use crate::text::{chars_of, has_prefix, starts_with};
use crate::value::{InputView, TorbInput};
use crate::yaml::{
    entry_views, lemma_mapping_view, lemma_sequence_view, yaml_views, YamlValue, YamlView,
};
use vstd::prelude::*;

verus! {

/// `base`, extended by each of `candidates` in turn that is neither `skip`
/// nor already there.
pub open spec fn gathered_onto(
    base: Seq<Seq<char>>,
    candidates: Seq<Seq<char>>,
    skip: Seq<char>,
) -> Seq<Seq<char>>
    decreases candidates.len(),
{
    if candidates.len() == 0 {
        base
    } else {
        let before = gathered_onto(base, candidates.drop_last(), skip);
        let candidate = candidates.last();
        if candidate == skip || before.contains(candidate) {
            before
        } else {
            before.push(candidate)
        }
    }
}

/// Gathering two lists one after the other is gathering their
/// concatenation.
pub proof fn lemma_gathered_concat(
    base: Seq<Seq<char>>,
    first: Seq<Seq<char>>,
    second: Seq<Seq<char>>,
    skip: Seq<char>,
)
    ensures
        gathered_onto(base, first + second, skip) == gathered_onto(
            gathered_onto(base, first, skip),
            second,
            skip,
        ),
    decreases second.len(),
{
    if second.len() == 0 {
        assert(first + second =~= first);
    } else {
        lemma_gathered_concat(base, first, second.drop_last(), skip);
        assert((first + second).drop_last() =~= first + second.drop_last());
        assert((first + second).last() == second.last());
    }
}

/// What is gathered holds a name exactly if the base held it, or it is a
/// candidate other than the one to skip.
pub proof fn lemma_gathered_holds(
    base: Seq<Seq<char>>,
    candidates: Seq<Seq<char>>,
    skip: Seq<char>,
    name: Seq<char>,
)
    ensures
        gathered_onto(base, candidates, skip).contains(name) <==> base.contains(name) || (
        candidates.contains(name) && name != skip),
    decreases candidates.len(),
{
    if candidates.len() > 0 {
        let shorter = candidates.drop_last();
        let before = gathered_onto(base, shorter, skip);
        let last = candidates.last();
        lemma_gathered_holds(base, shorter, skip, name);
        assert(candidates =~= shorter.push(last));
        assert(candidates.contains(name) <==> shorter.contains(name) || name == last) by {
            if candidates.contains(name) {
                let i = choose|i: int| 0 <= i < candidates.len() && candidates[i] == name;
                if i < shorter.len() {
                    assert(shorter[i] == name);
                }
            }
            if shorter.contains(name) {
                let i = choose|i: int| 0 <= i < shorter.len() && shorter[i] == name;
                assert(candidates[i] == name);
            }
            if name == last {
                assert(candidates[candidates.len() - 1] == name);
            }
        }
        if !(last == skip || before.contains(last)) {
            let after = before.push(last);
            assert(after.contains(name) <==> before.contains(name) || name == last) by {
                if after.contains(name) {
                    let i = choose|i: int| 0 <= i < after.len() && after[i] == name;
                    if i < before.len() {
                        assert(before[i] == name);
                    }
                }
                if before.contains(name) {
                    let i = choose|i: int| 0 <= i < before.len() && before[i] == name;
                    assert(after[i] == name);
                }
                if name == last {
                    assert(after[after.len() - 1] == name);
                }
            }
        }
    }
}

/// The nodes that the addresses in a YAML value point at, in document
/// order: one for every string that starts with `self.` and spells an
/// address.
pub open spec fn value_targets(graph_name: Seq<char>, value: YamlView) -> Seq<Seq<char>>
    decreases value, 0int,
{
    match value {
        YamlView::String(text) => if has_prefix(text, "self."@) && parse_address(text) is Some {
            seq![fqn_of(graph_name, parse_address(text)->0)]
        } else {
            Seq::empty()
        },
        YamlView::Sequence(items) => item_targets(graph_name, items, items.len() as int),
        YamlView::Mapping(entries) => entry_targets(graph_name, entries, entries.len() as int),
        _ => Seq::empty(),
    }
}

/// The targets of the first `n` items of a sequence.
pub open spec fn item_targets(graph_name: Seq<char>, items: Seq<YamlView>, n: int) -> Seq<
    Seq<char>,
>
    decreases items, n,
{
    if n <= 0 || n > items.len() {
        Seq::empty()
    } else {
        item_targets(graph_name, items, n - 1) + value_targets(graph_name, items[n - 1])
    }
}

/// The targets of the values of the first `n` entries of a mapping.
pub open spec fn entry_targets(
    graph_name: Seq<char>,
    entries: Seq<(YamlView, YamlView)>,
    n: int,
) -> Seq<Seq<char>>
    decreases entries, n,
{
    if n <= 0 || n > entries.len() {
        Seq::empty()
    } else {
        entry_targets(graph_name, entries, n - 1) + value_targets(graph_name, entries[n - 1].1)
    }
}

/// The nodes that the first `n` mapped inputs point at: one for every
/// value that spells an address.
pub open spec fn input_targets(
    graph_name: Seq<char>,
    inputs: Seq<(Seq<char>, (Seq<char>, InputView))>,
    n: int,
) -> Seq<Seq<char>>
    decreases n,
{
    if n <= 0 {
        Seq::empty()
    } else {
        let before = input_targets(graph_name, inputs, n - 1);
        match address_of_input(inputs[n - 1].1.1) {
            Some(address) => before.push(fqn_of(graph_name, address)),
            None => before,
        }
    }
}

/// The implicit dependencies of a node with the given name, mapped inputs
/// and values: the targets of its inputs, then those of its values, each
/// once and never the node itself.
pub open spec fn implicit_targets(
    graph_name: Seq<char>,
    own_fqn: Seq<char>,
    inputs: Seq<(Seq<char>, (Seq<char>, InputView))>,
    values: YamlView,
) -> Seq<Seq<char>> {
    gathered_onto(
        Seq::empty(),
        input_targets(graph_name, inputs, inputs.len() as int) + value_targets(
            graph_name,
            values,
        ),
        own_fqn,
    )
}

/// A node that an address in the values or in the mapped inputs points at
/// is among the implicit dependencies exactly if it is not the node
/// itself.
pub proof fn lemma_target_is_dependency(
    graph_name: Seq<char>,
    own_fqn: Seq<char>,
    inputs: Seq<(Seq<char>, (Seq<char>, InputView))>,
    values: YamlView,
    target: Seq<char>,
)
    requires
        input_targets(graph_name, inputs, inputs.len() as int).contains(target)
            || value_targets(graph_name, values).contains(target),
    ensures
        implicit_targets(graph_name, own_fqn, inputs, values).contains(target) <==> target
            != own_fqn,
{
    let a = input_targets(graph_name, inputs, inputs.len() as int);
    let b = value_targets(graph_name, values);
    lemma_gathered_holds(Seq::empty(), a + b, own_fqn, target);
    if a.contains(target) {
        let i = choose|i: int| 0 <= i < a.len() && a[i] == target;
        assert((a + b)[i] == target);
    } else {
        let i = choose|i: int| 0 <= i < b.len() && b[i] == target;
        assert((a + b)[a.len() + i] == target);
    }
}

/// Adds `target` to the set unless it is the node itself.
fn gather_one(set: &mut StringSet, target: String, own_fqn: &str)
    ensures
        final(set)@ == gathered_onto(old(set)@, seq![target@], own_fqn@),
{
    proof {
        let one = seq![target@];
        assert(one.drop_last() =~= Seq::<Seq<char>>::empty());
        assert(gathered_onto(set@, one.drop_last(), own_fqn@) == set@);
        assert(one.last() == target@);
    }
    if !crate::value::str_eq(target.as_str(), own_fqn) {
        set.insert(target);
    }
}

/// Adds the targets of a YAML value to the set.
pub fn gather_value_targets(
    set: &mut StringSet,
    graph_name: &String,
    own_fqn: &str,
    value: &YamlValue,
)
    ensures
        final(set)@ == gathered_onto(old(set)@, value_targets(graph_name@, value@), own_fqn@),
    decreases value,
{
    match value {
        YamlValue::String(text) => {
            let chars = chars_of(text.as_str());
            let prefix = chars_of("self.");
            if starts_with(&chars, &prefix) {
                let parsed = InputAddress::try_from(text.as_str());
                match ArtifactNodeRepr::address_to_fqn(graph_name, &parsed) {
                    Some(fqn) => {
                        gather_one(set, fqn, own_fqn);
                    },
                    None => {},
                }
            }
        },
        YamlValue::Sequence(items) => {
            proof {
                lemma_sequence_view(*items);
            }
            let mut i: usize = 0;
            while i < items.len()
                invariant
                    *value == YamlValue::Sequence(*items),
                    i <= items@.len(),
                    set@ == gathered_onto(
                        old(set)@,
                        item_targets(graph_name@, yaml_views(items@), i as int),
                        own_fqn@,
                    ),
                decreases items@.len() - i,
            {
                assert(decreases_to!(value => value->Sequence_0));
                assert(decreases_to!(value->Sequence_0 => value->Sequence_0[i as int]));
                let ghost before = set@;
                gather_value_targets(set, graph_name, own_fqn, &items[i]);
                proof {
                    lemma_gathered_concat(
                        old(set)@,
                        item_targets(graph_name@, yaml_views(items@), i as int),
                        value_targets(graph_name@, items@[i as int]@),
                        own_fqn@,
                    );
                }
                i += 1;
            }
        },
        YamlValue::Mapping(entries) => {
            proof {
                lemma_mapping_view(*entries);
            }
            let mut i: usize = 0;
            while i < entries.len()
                invariant
                    *value == YamlValue::Mapping(*entries),
                    i <= entries@.len(),
                    set@ == gathered_onto(
                        old(set)@,
                        entry_targets(graph_name@, entry_views(entries@), i as int),
                        own_fqn@,
                    ),
                decreases entries@.len() - i,
            {
                assert(decreases_to!(value => value->Mapping_0));
                assert(decreases_to!(value->Mapping_0 => value->Mapping_0[i as int]));
                assert(decreases_to!(value->Mapping_0[i as int] => value->Mapping_0[i as int].1));
                gather_value_targets(set, graph_name, own_fqn, &entries[i].1);
                proof {
                    lemma_gathered_concat(
                        old(set)@,
                        entry_targets(graph_name@, entry_views(entries@), i as int),
                        value_targets(graph_name@, entries@[i as int].1@),
                        own_fqn@,
                    );
                }
                i += 1;
            }
        },
        _ => {},
    }
}

/// Adds the targets of the mapped inputs to the set.
pub fn gather_input_targets(
    set: &mut StringSet,
    graph_name: &String,
    own_fqn: &str,
    inputs: &OrderedMap<(String, TorbInput)>,
)
    ensures
        final(set)@ == gathered_onto(
            old(set)@,
            input_targets(graph_name@, mapped_view(*inputs), mapped_view(*inputs).len() as int),
            own_fqn@,
        ),
{
    let n = inputs.len();
    let mut i: usize = 0;
    proof {
        inputs.lemma_entries(|v: (String, TorbInput)| (v.0@, v.1@));
    }
    while i < n
        invariant
            i <= n,
            n == inputs.keys().len(),
            n == inputs.values().len(),
            n == mapped_view(*inputs).len(),
            forall|j: int|
                0 <= j < n ==> #[trigger] mapped_view(*inputs)[j] == (
                    inputs.keys()[j],
                    (inputs.values()[j].0@, inputs.values()[j].1@),
                ),
            set@ == gathered_onto(
                old(set)@,
                input_targets(graph_name@, mapped_view(*inputs), i as int),
                own_fqn@,
            ),
        decreases n - i,
    {
        assert(mapped_view(*inputs)[i as int].1.1 == inputs.values()[i as int].1@);
        let parsed = InputAddress::try_from_input(&inputs.value_at(i).1);
        match ArtifactNodeRepr::address_to_fqn(graph_name, &parsed) {
            Some(fqn) => {
                proof {
                    let before = input_targets(graph_name@, mapped_view(*inputs), i as int);
                    assert(before.push(fqn@) =~= before + seq![fqn@]);
                    lemma_gathered_concat(old(set)@, before, seq![fqn@], own_fqn@);
                }
                gather_one(set, fqn, own_fqn);
            },
            None => {},
        }
        i += 1;
    }
}

/// The implicit dependencies of a node with the given name, mapped inputs
/// and values.
pub fn implicit_dependencies(
    graph_name: &String,
    own_fqn: &str,
    inputs: &OrderedMap<(String, TorbInput)>,
    values: &YamlValue,
) -> (found: StringSet)
    ensures
        found@ == implicit_targets(graph_name@, own_fqn@, mapped_view(*inputs), values@),
{
    let mut found = StringSet::new();
    gather_input_targets(&mut found, graph_name, own_fqn, inputs);
    gather_value_targets(&mut found, graph_name, own_fqn, values);
    proof {
        lemma_gathered_concat(
            Seq::empty(),
            input_targets(graph_name@, mapped_view(*inputs), mapped_view(*inputs).len() as int),
            value_targets(graph_name@, values@),
            own_fqn@,
        );
    }
    found
}

impl ArtifactNodeRepr {
    /// Sets the node's implicit dependencies from the addresses in its
    /// mapped inputs and in its values.
    pub fn discover_and_set_implicit_dependencies(&mut self, graph_name: &String)
        ensures
            *final(self) == (ArtifactNodeRepr {
                implicit_dependency_fqns: final(self).implicit_dependency_fqns,
                ..*old(self)
            }),
            final(self).implicit_dependency_fqns@ == implicit_targets(
                graph_name@,
                old(self).fqn@,
                mapped_view(old(self).mapped_inputs),
                values_document(old(self).values@),
            ),
    {
        let values = read_values(self.values.as_str());
        let found = implicit_dependencies(
            graph_name,
            self.fqn.as_str(),
            &self.mapped_inputs,
            &values,
        );
        self.implicit_dependency_fqns = found;
    }
}

} // verus!
