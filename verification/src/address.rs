//! Input addresses: dot-separated references to a property of a node.
//!
//! `self.<type>.<name>.<property>.<specifier>` names a property of another
//! node of the stack; `TORB.<property>.<specifier>` names, inside a node's
//! init script, one of the node's own inputs.

use crate::collections::{OrderedMap, StringSet};
use crate::text::{split, split_on, texts};
use crate::value::{str_eq, InputView, TorbInput};
use vstd::prelude::*;

verus! {

/// A reference to a property of a node.
#[derive(Debug, PartialEq)]
pub struct InputAddress {
    pub locality: String,
    pub node_type: String,
    pub node_name: String,
    pub node_property: String,
    pub property_specifier: String,
}

/// What an `InputAddress` holds.
pub struct AddressView {
    pub locality: Seq<char>,
    pub node_type: Seq<char>,
    pub node_name: Seq<char>,
    pub node_property: Seq<char>,
    pub property_specifier: Seq<char>,
}

impl View for InputAddress {
    type V = AddressView;

    open spec fn view(&self) -> AddressView {
        AddressView {
            locality: self.locality@,
            node_type: self.node_type@,
            node_name: self.node_name@,
            node_property: self.node_property@,
            property_specifier: self.property_specifier@,
        }
    }
}

/// The address made of three segments that start with `TORB`, if `parts` are
/// such segments.
pub open spec fn init_address(parts: Seq<Seq<char>>) -> Option<AddressView> {
    if parts.len() == 3 && parts[0] == "TORB"@ {
        Some(
            AddressView {
                locality: parts[0],
                node_type: Seq::empty(),
                node_name: Seq::empty(),
                node_property: parts[1],
                property_specifier: parts[2],
            },
        )
    } else {
        None
    }
}

/// The address made of five segments that start with `self`, if `parts` are
/// such segments.
pub open spec fn input_address(parts: Seq<Seq<char>>) -> Option<AddressView> {
    if parts.len() == 5 && parts[0] == "self"@ {
        Some(
            AddressView {
                locality: parts[0],
                node_type: parts[1],
                node_name: parts[2],
                node_property: parts[3],
                property_specifier: parts[4],
            },
        )
    } else {
        None
    }
}

/// The address that `text` spells, if it spells one.
pub open spec fn parse_address(text: Seq<char>) -> Option<AddressView> {
    let parts = split(text, '.');
    if init_address(parts) is Some {
        init_address(parts)
    } else {
        input_address(parts)
    }
}

/// The address that an input value spells: only a string can spell one.
pub open spec fn address_of_input(input: InputView) -> Option<AddressView> {
    match input {
        InputView::String(text) => parse_address(text),
        _ => None,
    }
}

/// The property specifiers that name something synthesized for a node, not
/// one of its mapped inputs.
pub open spec fn is_reserved(specifier: Seq<char>) -> bool {
    specifier == "host"@
}

/// The reserved property specifiers, each with its description.
pub fn reserved_outputs() -> (reserved: OrderedMap<String>)
    ensures
        reserved.keys() == seq!["host"@],
        reserved.values().len() == 1,
        reserved.values()[0]@ == ""@,
{
    let mut reserved: OrderedMap<String> = OrderedMap::new();
    reserved.insert("host".to_owned(), "".to_owned());
    assert(reserved.keys() =~= seq!["host"@]);
    reserved
}

/// Whether `specifier` is reserved.
pub fn is_reserved_output(specifier: &str) -> (reserved: bool)
    ensures
        reserved == is_reserved(specifier@),
{
    str_eq(specifier, "host")
}

impl InputAddress {
    pub fn new(
        locality: String,
        node_type: String,
        node_name: String,
        node_property: String,
        property_specifier: String,
    ) -> (address: InputAddress)
        ensures
            address.locality == locality,
            address.node_type == node_type,
            address.node_name == node_name,
            address.node_property == node_property,
            address.property_specifier == property_specifier,
    {
        InputAddress { locality, node_type, node_name, node_property, property_specifier }
    }

    pub fn duplicate(&self) -> (copy: Self)
        ensures
            copy@ == self@,
    {
        InputAddress {
            locality: self.locality.clone(),
            node_type: self.node_type.clone(),
            node_name: self.node_name.clone(),
            node_property: self.node_property.clone(),
            property_specifier: self.property_specifier.clone(),
        }
    }

    /// The localities an address may start with.
    pub fn supported_localities() -> (localities: StringSet)
        ensures
            localities@ == seq!["self"@, "TORB"@],
    {
        let mut localities = StringSet::new();
        localities.insert("self".to_owned());
        proof {
            reveal_strlit("self");
            reveal_strlit("TORB");
            assert("self"@ != "TORB"@) by {
                assert("self"@[0] != "TORB"@[0]);
            }
            assert(!seq!["self"@].contains("TORB"@)) by {
                if seq!["self"@].contains("TORB"@) {
                    let i = choose|i: int| 0 <= i < 1 && seq!["self"@][i] == "TORB"@;
                }
            }
            assert(Seq::<Seq<char>>::empty().push("self"@) =~= seq!["self"@]);
        }
        localities.insert("TORB".to_owned());
        assert(localities@ =~= seq!["self"@, "TORB"@]);
        localities
    }

    /// The three-segment form `TORB.<property>.<specifier>`.
    pub fn is_init_address(vals: &Vec<String>) -> (found: Option<InputAddress>)
        ensures
            found is Some == init_address(texts(vals@)) is Some,
            found is Some ==> found->0@ == init_address(texts(vals@))->0,
    {
        if vals.len() == 3 && str_eq(vals[0].as_str(), "TORB") {
            Some(
                InputAddress::new(
                    vals[0].clone(),
                    String::new(),
                    String::new(),
                    vals[1].clone(),
                    vals[2].clone(),
                ),
            )
        } else {
            None
        }
    }

    /// The five-segment form `self.<type>.<name>.<property>.<specifier>`.
    pub fn is_input_address(vals: &Vec<String>) -> (found: Option<InputAddress>)
        ensures
            found is Some == input_address(texts(vals@)) is Some,
            found is Some ==> found->0@ == input_address(texts(vals@))->0,
    {
        if vals.len() == 5 && str_eq(vals[0].as_str(), "self") {
            Some(
                InputAddress::new(
                    vals[0].clone(),
                    vals[1].clone(),
                    vals[2].clone(),
                    vals[3].clone(),
                    vals[4].clone(),
                ),
            )
        } else {
            None
        }
    }

    /// Reads `input` as an address. Text that spells none comes back as a
    /// string value, so that the caller can take it literally.
    pub fn try_from(input: &str) -> (parsed: Result<InputAddress, TorbInput>)
        ensures
            parsed is Ok == parse_address(input@) is Some,
            parsed is Ok ==> parsed->Ok_0@ == parse_address(input@)->0,
            parsed is Err ==> parsed->Err_0@ == InputView::String(input@),
    {
        let vals = split_on(input, '.');
        let init = InputAddress::is_init_address(&vals);
        if init.is_some() {
            return Ok(init.unwrap());
        }
        let other = InputAddress::is_input_address(&vals);
        if other.is_some() {
            return Ok(other.unwrap());
        }
        Err(TorbInput::String(input.to_owned()))
    }

    /// Reads an input value as an address. A value that spells none comes
    /// back as it is.
    pub fn try_from_input(input: &TorbInput) -> (parsed: Result<InputAddress, TorbInput>)
        ensures
            parsed is Ok == address_of_input(input@) is Some,
            parsed is Ok ==> parsed->Ok_0@ == address_of_input(input@)->0,
            parsed is Err ==> parsed->Err_0@ == input@,
    {
        match input {
            TorbInput::String(text) => InputAddress::try_from(text.as_str()),
            _ => Err(input.duplicate()),
        }
    }
}

} // verus!
