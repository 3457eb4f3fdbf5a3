use http_server::query_string::{QueryString, Value};

fn expect_single<'a>(qs: &'a QueryString, key: &str) -> &'a str {
    match qs.get(key) {
        Some(Value::Single(s)) => s.as_str(),
        other => panic!("expected a single value for {:?}, got {:?}", key, other),
    }
}

fn expect_multiple<'a>(qs: &'a QueryString, key: &str) -> Vec<&'a str> {
    match qs.get(key) {
        Some(Value::Multiple(vs)) => vs.iter().map(|s| s.as_str()).collect(),
        other => panic!("expected multiple values for {:?}, got {:?}", key, other),
    }
}

#[test]
fn parses_distinct_keys_as_single_values() {
    let qs = QueryString::from("name=abc&sort=1");
    assert_eq!(expect_single(&qs, "name"), "abc");
    assert_eq!(expect_single(&qs, "sort"), "1");
}

#[test]
fn repeated_key_collects_values_in_order() {
    let qs = QueryString::from("a=1&a=2&a=3");
    assert_eq!(expect_multiple(&qs, "a"), vec!["1", "2", "3"]);
}

#[test]
fn second_occurrence_turns_single_into_multiple() {
    let qs = QueryString::from("a=1&a=2");
    assert_eq!(expect_multiple(&qs, "a"), vec!["1", "2"]);
}

#[test]
fn key_without_equals_maps_to_empty_value() {
    let qs = QueryString::from("flag");
    assert_eq!(expect_single(&qs, "flag"), "");
}

#[test]
fn splits_each_fragment_at_the_first_equals_only() {
    let qs = QueryString::from("a=b=c");
    assert_eq!(expect_single(&qs, "a"), "b=c");
}

#[test]
fn empty_input_maps_the_empty_key_to_the_empty_value() {
    let qs = QueryString::from("");
    assert_eq!(expect_single(&qs, ""), "");
}

#[test]
fn mixed_fragments_keep_their_kinds() {
    let qs = QueryString::from("x=1&flag&x=2&y=");
    assert_eq!(expect_multiple(&qs, "x"), vec!["1", "2"]);
    assert_eq!(expect_single(&qs, "flag"), "");
    assert_eq!(expect_single(&qs, "y"), "");
}

#[test]
fn absent_key_yields_none() {
    let qs = QueryString::from("name=abc");
    assert!(qs.get("nam").is_none());
    assert!(qs.get("name2").is_none());
    assert!(qs.get("abc").is_none());
}

#[test]
fn values_are_kept_byte_for_byte() {
    let qs = QueryString::from("q=a%20b+c");
    assert_eq!(expect_single(&qs, "q"), "a%20b+c");
}
