use torb::address::InputAddress;
use torb::value::TorbInput;

#[test]
fn five_segment_address_parses() {
    let address = InputAddress::try_from("self.service.db.output.host").unwrap();
    assert_eq!(address.locality, "self");
    assert_eq!(address.node_type, "service");
    assert_eq!(address.node_name, "db");
    assert_eq!(address.node_property, "output");
    assert_eq!(address.property_specifier, "host");
}

#[test]
fn literal_text_is_handed_back() {
    match InputAddress::try_from("not-an-address") {
        Err(TorbInput::String(text)) => assert_eq!(text, "not-an-address"),
        _ => panic!("a literal must not parse as an address"),
    }
}

#[test]
fn three_segment_init_address_parses() {
    let address = InputAddress::try_from("TORB.inputs.port").unwrap();
    assert_eq!(address.locality, "TORB");
    assert_eq!(address.node_type, "");
    assert_eq!(address.node_name, "");
    assert_eq!(address.node_property, "inputs");
    assert_eq!(address.property_specifier, "port");
}

#[test]
fn four_segments_are_no_address() {
    assert!(InputAddress::try_from("self.a.b.c").is_err());
}

#[test]
fn an_address_needs_a_known_locality() {
    assert!(InputAddress::try_from("other.service.db.output.host").is_err());
    assert!(InputAddress::try_from("TORB.a.b.c.d").is_err());
    assert!(InputAddress::try_from("self.inputs.port").is_err());
    assert!(InputAddress::try_from("").is_err());
}

#[test]
fn only_a_string_value_can_spell_an_address() {
    let parsed =
        InputAddress::try_from_input(&TorbInput::String("self.project.api.output.url".to_string()))
            .unwrap();
    assert_eq!(parsed.node_type, "project");
    assert_eq!(parsed.node_name, "api");
    assert_eq!(InputAddress::try_from_input(&TorbInput::Bool(true)), Err(TorbInput::Bool(true)));
    assert_eq!(
        InputAddress::try_from_input(&TorbInput::String("literal".to_string())),
        Err(TorbInput::String("literal".to_string()))
    );
}

#[test]
fn localities_and_reserved_outputs() {
    let localities = InputAddress::supported_localities();
    assert_eq!(localities.len(), 2);
    assert!(localities.contains("self"));
    assert!(localities.contains("TORB"));
    assert!(!localities.contains("other"));
    let reserved = torb::address::reserved_outputs();
    assert_eq!(reserved.len(), 1);
    assert_eq!(reserved.get("host"), Some(&String::new()));
    assert!(torb::address::is_reserved_output("host"));
    assert!(!torb::address::is_reserved_output("port"));
}
