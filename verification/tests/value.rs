use torb::value::{known_kind_name, str_eq, TorbFloat, TorbInput, TorbInputSpec, TorbNumeric};

#[test]
fn json_text_of_every_kind_of_value() {
    assert_eq!(TorbInput::String("alice".to_string()).serialize_for_init(), "\"alice\"");
    assert_eq!(TorbInput::String("a\"b".to_string()).serialize_for_init(), "\"a\\\"b\"");
    assert_eq!(TorbInput::Bool(true).serialize_for_init(), "true");
    assert_eq!(TorbInput::Bool(false).serialize_for_init(), "false");
    assert_eq!(TorbInput::Numeric(TorbNumeric::Int(8080)).serialize_for_init(), "8080");
    assert_eq!(TorbInput::Numeric(TorbNumeric::Int(0)).serialize_for_init(), "0");
    assert_eq!(
        TorbInput::Numeric(TorbNumeric::Int(u64::MAX)).serialize_for_init(),
        "18446744073709551615"
    );
    assert_eq!(TorbInput::Numeric(TorbNumeric::NegInt(-3)).serialize_for_init(), "-3");
    assert_eq!(
        TorbInput::Numeric(TorbNumeric::NegInt(i64::MIN)).serialize_for_init(),
        "-9223372036854775808"
    );
    assert_eq!(
        TorbInput::Numeric(TorbNumeric::Float(TorbFloat::parse("1.5").unwrap())).serialize_for_init(),
        "1.5"
    );
}

#[test]
fn json_text_of_an_array() {
    let array = TorbInput::Array(vec![
        TorbInput::Numeric(TorbNumeric::Int(1)),
        TorbInput::String("a".to_string()),
        TorbInput::Bool(true),
    ]);
    assert_eq!(array.serialize_for_init(), "[1,\"a\",true]");
    assert_eq!(TorbInput::Array(vec![]).serialize_for_init(), "[]");
}

#[test]
fn kind_names() {
    assert_eq!(TorbInput::Bool(true).kind_name(), "bool");
    assert_eq!(TorbInput::String(String::new()).kind_name(), "string");
    assert_eq!(TorbInput::Numeric(TorbNumeric::Int(1)).kind_name(), "numeric");
    assert_eq!(TorbInput::Array(vec![]).kind_name(), "array");
    assert!(known_kind_name("bool"));
    assert!(known_kind_name("array"));
    assert!(known_kind_name("string"));
    assert!(known_kind_name("numeric"));
    assert!(!known_kind_name("map"));
    assert!(!known_kind_name(""));
}

#[test]
fn nested_arrays_are_not_flat() {
    assert!(TorbInput::Array(vec![TorbInput::Bool(true)]).is_flat());
    assert!(TorbInput::Bool(true).is_flat());
    assert!(!TorbInput::Array(vec![TorbInput::Bool(true), TorbInput::Array(vec![])]).is_flat());
}

#[test]
fn duplicates_hold_the_same_value() {
    let value = TorbInput::Array(vec![
        TorbInput::String("x".to_string()),
        TorbInput::Numeric(TorbNumeric::NegInt(-1)),
    ]);
    assert_eq!(value.duplicate(), value);
    let spec = TorbInputSpec::new("string".to_string(), value, "a.b".to_string());
    assert_eq!(spec.duplicate(), spec);
    assert_eq!(spec.typing, "string");
    assert_eq!(spec.mapping, "a.b");
}

#[test]
fn str_eq_compares_texts() {
    assert!(str_eq("a", "a"));
    assert!(!str_eq("a", "b"));
    assert!(str_eq("", ""));
}

#[test]
fn values_are_made_from_plain_values() {
    assert_eq!(TorbInput::from(true), TorbInput::Bool(true));
    assert_eq!(TorbInput::from(7u64), TorbInput::Numeric(TorbNumeric::Int(7)));
    assert_eq!(TorbInput::from(-7i64), TorbInput::Numeric(TorbNumeric::NegInt(-7)));
    assert_eq!(TorbInput::from("x".to_string()), TorbInput::String("x".to_string()));
}

#[test]
fn a_float_is_held_as_the_number_it_spells() {
    let half = TorbFloat::parse("0.5").unwrap();
    assert_eq!(half.text(), "0.5");
    assert_eq!(half.duplicate(), half);
    assert_eq!(TorbFloat::parse("1e3").unwrap().text(), "1000.0");
    assert_eq!(TorbFloat::parse("not a number"), None);
}
