use torb::text::{
    chars_of, comes_before, concat3, find_either, find_pattern, join, replace_char,
    sort_descending, split_on, starts_with,
};

fn strings(list: &[&str]) -> Vec<String> {
    list.iter().map(|s| s.to_string()).collect()
}

#[test]
fn split_cuts_at_every_separator() {
    assert_eq!(split_on("a.b.c", '.'), strings(&["a", "b", "c"]));
    assert_eq!(split_on("", '.'), strings(&[""]));
    assert_eq!(split_on("a.", '.'), strings(&["a", ""]));
    assert_eq!(split_on(".a", '.'), strings(&["", "a"]));
    assert_eq!(split_on("no-dots", '.'), strings(&["no-dots"]));
    assert_eq!(split_on("é.ü", '.'), strings(&["é", "ü"]));
}

#[test]
fn replace_char_replaces_every_occurrence() {
    assert_eq!(replace_char("a-b-c", '-', "_"), "a_b_c");
    assert_eq!(replace_char("a/b/", '/', ""), "ab");
    assert_eq!(replace_char("--", '-', "xy"), "xyxy");
    assert_eq!(replace_char("", '-', "_"), "");
    assert_eq!(replace_char("none", '-', "_"), "none");
}

#[test]
fn join_puts_the_separator_between_parts() {
    assert_eq!(join(&strings(&["a", "b", "c"]), ", "), "a, b, c");
    assert_eq!(join(&strings(&["only"]), ", "), "only");
    assert_eq!(join(&strings(&[]), ", "), "");
    assert_eq!(join(&strings(&["", ""]), ";"), ";");
}

#[test]
fn find_pattern_gives_the_first_occurrence() {
    let text = chars_of("echo TORB and TORB");
    let word = chars_of("TORB");
    assert_eq!(find_pattern(&text, &word, 0), Some(5));
    assert_eq!(find_pattern(&text, &word, 6), Some(14));
    assert_eq!(find_pattern(&text, &word, 15), None);
    assert_eq!(find_pattern(&chars_of("TOR"), &word, 0), None);
}

#[test]
fn find_either_stops_at_the_nearer_delimiter() {
    let text = chars_of("ab cd/ef");
    assert_eq!(find_either(&text, ' ', '/', 0), 2);
    assert_eq!(find_either(&text, ' ', '/', 3), 5);
    assert_eq!(find_either(&text, ' ', '/', 6), 8);
}

#[test]
fn starts_with_compares_the_prefix() {
    assert!(starts_with(&chars_of("self.a"), &chars_of("self.")));
    assert!(!starts_with(&chars_of("sel"), &chars_of("self.")));
    assert!(!starts_with(&chars_of("shelf.a"), &chars_of("self.")));
    assert!(starts_with(&chars_of("x"), &chars_of("")));
}

#[test]
fn order_is_by_code_point_with_prefixes_first() {
    assert!(comes_before(&chars_of("a"), &chars_of("b")));
    assert!(!comes_before(&chars_of("b"), &chars_of("a")));
    assert!(comes_before(&chars_of("ab"), &chars_of("abc")));
    assert!(!comes_before(&chars_of("abc"), &chars_of("ab")));
    assert!(!comes_before(&chars_of("same"), &chars_of("same")));
    assert!(comes_before(&chars_of("Z"), &chars_of("a")));
}

#[test]
fn sort_descending_orders_from_last_to_first() {
    let sorted = sort_descending(&strings(&["s.service.b", "s.project.a", "s.service.c"]));
    assert_eq!(sorted, strings(&["s.service.c", "s.service.b", "s.project.a"]));
    assert_eq!(sort_descending(&strings(&[])), strings(&[]));
    assert_eq!(sort_descending(&strings(&["a", "ab"])), strings(&["ab", "a"]));
}

#[test]
fn concat3_appends_in_order() {
    assert_eq!(concat3("a", "-", "b"), "a-b");
}
