use ytermusic::crawl::{from_json, from_json_string};
use ytermusic::document::Document;

fn number(n: u64) -> Document {
    Document::Number(serde_json::Number::from(n))
}

fn text(s: &str) -> Document {
    Document::String(s.to_string())
}

fn object(entries: Vec<(&str, Document)>) -> Document {
    Document::Object(entries.into_iter().map(|(k, v)| (k.to_string(), v)).collect())
}

fn above_five(node: &Document) -> Option<u64> {
    match node {
        Document::Number(n) => n.as_u64().filter(|v| *v > 5),
        _ => None,
    }
}

fn mapping_with_x(node: &Document) -> Option<usize> {
    match node {
        Document::Object(entries) if entries.iter().any(|(k, _)| k == "x") => Some(entries.len()),
        _ => None,
    }
}

fn any_text(node: &Document) -> Option<String> {
    node.as_str().map(|s| s.to_string())
}

#[test]
fn crawl_collects_matches_in_pre_order() {
    let document = Document::Array(vec![
        number(1),
        Document::Array(vec![number(6), number(2)]),
        object(vec![("a", number(7)), ("b", number(3))]),
    ]);
    let found = from_json(&document, above_five).unwrap();
    assert_eq!(found, vec![6, 7]);
}

#[test]
fn crawl_of_parsed_text_collects_matches_in_pre_order() {
    let found = from_json_string("[1, [6, 2], {\"a\": 7, \"b\": 3}]", above_five).unwrap();
    assert_eq!(found, vec![6, 7]);
}

#[test]
fn crawl_does_not_descend_below_a_match() {
    let document = object(vec![("x", number(1)), ("y", object(vec![("x", number(2))]))]);
    let found = from_json(&document, mapping_with_x).unwrap();
    assert_eq!(found, vec![2]);
}

#[test]
fn crawl_visits_a_sibling_of_a_match() {
    let document = Document::Array(vec![
        object(vec![("x", number(1)), ("y", object(vec![("x", number(2))]))]),
        object(vec![("n", object(vec![("x", number(3)), ("a", number(0)), ("b", number(0))]))]),
    ]);
    let found = from_json(&document, mapping_with_x).unwrap();
    assert_eq!(found, vec![2, 3]);
}

#[test]
fn crawl_drops_a_match_that_it_has_already() {
    let document = Document::Array(vec![
        text("b"),
        object(vec![("k", text("a")), ("l", text("b"))]),
        text("a"),
        text("c"),
    ]);
    let found = from_json(&document, any_text).unwrap();
    assert_eq!(found, vec!["b".to_string(), "a".to_string(), "c".to_string()]);
}

#[test]
fn crawl_without_a_match_is_empty_and_no_failure() {
    let document = Document::Array(vec![text("a"), Document::Null, Document::Bool(true)]);
    let found = from_json(&document, above_five).unwrap();
    assert_eq!(found, Vec::<u64>::new());
    assert_eq!(from_json(&Document::Null, above_five).unwrap(), Vec::<u64>::new());
}

#[test]
fn crawl_matches_the_root_itself() {
    assert_eq!(from_json(&number(9), above_five).unwrap(), vec![9]);
}

#[test]
fn crawl_keeps_the_key_order_of_the_text() {
    let found = from_json_string("{\"z\": 9, \"a\": 8, \"m\": [7, 9]}", above_five).unwrap();
    assert_eq!(found, vec![9, 8, 7]);
}

#[test]
fn crawl_rejects_malformed_text() {
    assert!(from_json_string("[1, 2", above_five).is_err());
    assert!(from_json_string("", above_five).is_err());
    assert!(from_json_string("{\"a\": 1} trailing", above_five).is_err());
}

#[test]
fn parse_rebuilds_every_kind_of_node() {
    let parsed = Document::parse("{\"n\": null, \"b\": false, \"i\": 12, \"s\": \"t\", \"a\": [1, \"u\"], \"o\": {}}")
        .unwrap();
    let expected = object(vec![
        ("n", Document::Null),
        ("b", Document::Bool(false)),
        ("i", number(12)),
        ("s", text("t")),
        ("a", Document::Array(vec![number(1), text("u")])),
        ("o", object(vec![])),
    ]);
    assert_eq!(parsed, expected);
}

#[test]
fn get_finds_the_value_under_a_key() {
    let document = object(vec![("a", number(1)), ("b", text("x")), ("a", number(2))]);
    assert_eq!(document.get("b"), Some(&text("x")));
    assert_eq!(document.get("a"), Some(&number(1)));
    assert_eq!(document.get("c"), None);
    assert_eq!(text("a").get("a"), None);
    assert_eq!(Document::Array(vec![text("a")]).get("a"), None);
}

#[test]
fn accessors_tell_the_kinds_of_node_apart() {
    assert_eq!(text("a").as_str(), Some("a"));
    assert_eq!(number(1).as_str(), None);
    assert_eq!(Document::Array(vec![number(1)]).as_array(), Some(&vec![number(1)]));
    assert_eq!(text("a").as_array(), None);
    assert_eq!(object(vec![]).as_object(), Some(&vec![]));
    assert_eq!(Document::Null.as_object(), None);
}

#[test]
fn a_copy_of_a_document_is_the_same_document() {
    let document = Document::parse("{\"a\": [1, {\"b\": \"c\"}, null, true], \"d\": {}, \"e\": -2.5}").unwrap();
    let copy = document.clone();
    assert_eq!(copy, document);
    assert_eq!(number(3).clone(), number(3));
    assert_ne!(number(3).clone(), number(4));
}
