use torb::value::{TorbNumeric, TorbFloat};
use torb::yaml::YamlValue;

fn text(s: &str) -> YamlValue {
    YamlValue::String(s.to_string())
}

#[test]
fn parse_reads_every_kind_of_value() {
    let parsed = YamlValue::parse("a: 1\nb: -2\nc: true\nd: text\ne: [x, 2]\nf: ~\ng: 1.5\n").unwrap();
    let expected = YamlValue::Mapping(vec![
        (text("a"), YamlValue::Number(TorbNumeric::Int(1))),
        (text("b"), YamlValue::Number(TorbNumeric::NegInt(-2))),
        (text("c"), YamlValue::Bool(true)),
        (text("d"), text("text")),
        (text("e"), YamlValue::Sequence(vec![text("x"), YamlValue::Number(TorbNumeric::Int(2))])),
        (text("f"), YamlValue::Null),
        (text("g"), YamlValue::Number(TorbNumeric::Float(TorbFloat::parse("1.5").unwrap()))),
    ]);
    assert_eq!(parsed, expected);
}

#[test]
fn parse_refuses_what_is_no_yaml() {
    assert_eq!(YamlValue::parse("a: [1, 2"), None);
}

#[test]
fn to_text_prints_a_document() {
    let value = YamlValue::Mapping(vec![
        (text("host"), text("db")),
        (text("port"), YamlValue::Number(TorbNumeric::Int(5432))),
    ]);
    assert_eq!(value.to_text().unwrap(), "---\nhost: db\nport: 5432\n");
    assert_eq!(YamlValue::Null.to_text().unwrap(), "---\n~\n");
    assert_eq!(
        YamlValue::Number(TorbNumeric::Float(TorbFloat::parse("1.5").unwrap())).to_text().unwrap(),
        "---\n1.5\n"
    );
}

#[test]
fn printed_text_parses_back() {
    let value = YamlValue::Mapping(vec![
        (text("list"), YamlValue::Sequence(vec![YamlValue::Bool(false), text("self.a.b.c.d")])),
        (text("n"), YamlValue::Number(TorbNumeric::NegInt(-7))),
    ]);
    let printed = value.to_text().unwrap();
    assert_eq!(YamlValue::parse(&printed).unwrap(), value);
}

#[test]
fn get_finds_the_value_under_a_string_key() {
    let value = YamlValue::Mapping(vec![(text("a"), text("1")), (text("b"), text("2"))]);
    assert_eq!(value.get("b"), Some(&text("2")));
    assert_eq!(value.get("c"), None);
    assert_eq!(text("a").get("a"), None);
    assert_eq!(text("a").as_str(), Some(&"a".to_string()));
    assert_eq!(YamlValue::Null.as_str(), None);
}

#[test]
fn yaml_duplicates_hold_the_same_value() {
    let value = YamlValue::Mapping(vec![(
        text("a"),
        YamlValue::Sequence(vec![YamlValue::Null, YamlValue::Bool(true)]),
    )]);
    assert_eq!(value.duplicate(), value);
}

#[test]
fn a_repeated_key_is_printed_once_with_its_last_value() {
    let value = YamlValue::Mapping(vec![
        (text("a"), text("first")),
        (text("b"), text("other")),
        (text("a"), text("last")),
    ]);
    assert_eq!(value.to_text().unwrap(), "---\na: last\nb: other\n");
}
