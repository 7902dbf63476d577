use torb::collections::{OrderedMap, StringSet};
use torb::discovery::{gather_value_targets, implicit_dependencies};
use torb::node::ArtifactNodeRepr;
use torb::value::TorbInput;
use torb::yaml::YamlValue;

fn node(fqn: &str, values: &str, inputs: Vec<(&str, &str)>) -> ArtifactNodeRepr {
    let mut mapped = OrderedMap::new();
    for (key, value) in inputs {
        mapped.insert(key.to_string(), (key.to_string(), TorbInput::String(value.to_string())));
    }
    ArtifactNodeRepr::new(
        fqn.to_string(),
        "n".to_string(),
        "1".to_string(),
        "service".to_string(),
        None,
        None,
        None,
        OrderedMap::new(),
        mapped,
        OrderedMap::new(),
        Vec::new(),
        String::new(),
        None,
        values.to_string(),
        None,
        None,
    )
}

fn names(set: &StringSet) -> Vec<String> {
    (0..set.len()).map(|i| set.item_at(i).clone()).collect()
}

#[test]
fn an_address_in_the_values_is_an_implicit_dependency() {
    let mut web = node("stack.service.web", "api:\n  url: self.project.api.output.url\n", vec![]);
    web.discover_and_set_implicit_dependencies(&"stack".to_string());
    assert_eq!(names(&web.implicit_dependency_fqns), vec!["stack.project.api"]);
}

#[test]
fn an_address_of_the_node_itself_is_no_dependency() {
    let mut api = node("stack.project.api", "url: self.project.api.output.url\n", vec![]);
    api.discover_and_set_implicit_dependencies(&"stack".to_string());
    assert_eq!(api.implicit_dependency_fqns.len(), 0);
}

#[test]
fn inputs_come_first_and_every_node_once() {
    let mut web = node(
        "stack.service.web",
        "a: self.service.db.output.host\nb:\n  - self.service.cache.output.host\n  - self.project.api.output.url\n",
        vec![
            ("api", "self.project.api.output.url"),
            ("plain", "value"),
            ("own", "self.service.web.output.port"),
            ("db", "self.service.db.output.port"),
        ],
    );
    web.discover_and_set_implicit_dependencies(&"stack".to_string());
    assert_eq!(
        names(&web.implicit_dependency_fqns),
        vec!["stack.project.api", "stack.service.db", "stack.service.cache"]
    );
}

#[test]
fn reserved_specifiers_still_make_a_dependency() {
    let mut web = node("stack.service.web", "host: self.service.db.output.host\n", vec![]);
    web.discover_and_set_implicit_dependencies(&"stack".to_string());
    assert!(web.implicit_dependency_fqns.contains("stack.service.db"));
}

#[test]
fn only_strings_that_start_with_self_count_in_values() {
    let values = YamlValue::parse("a: TORB.inputs.x\nb: self.not.an.address\nc: 5\n").unwrap();
    let found = implicit_dependencies(
        &"stack".to_string(),
        "stack.service.web",
        &OrderedMap::new(),
        &values,
    );
    assert_eq!(found.len(), 0);
}

#[test]
fn gathering_adds_to_what_is_there() {
    let mut set = StringSet::new();
    set.insert("stack.service.db".to_string());
    let values = YamlValue::parse("- self.service.db.output.a\n- self.service.x.output.a\n").unwrap();
    gather_value_targets(&mut set, &"stack".to_string(), "stack.service.web", &values);
    assert_eq!(names(&set), vec!["stack.service.db", "stack.service.x"]);
}
