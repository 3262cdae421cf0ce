use ytermusic::document::Document;
use ytermusic::text::{get_text, join_clean, join_nonempty};

fn parse(json: &str) -> Document {
    Document::parse(json).unwrap()
}

fn strings(items: &[&str]) -> Vec<String> {
    items.iter().map(|s| s.to_string()).collect()
}

#[test]
fn runs_are_joined_with_a_space_and_blank_runs_dropped() {
    let node = parse("{\"runs\": [{\"text\": \"A\"}, {\"text\": \"  \"}, {\"text\": \"B\"}]}");
    assert_eq!(get_text(&node, false, false), Some("A B".to_string()));
}

#[test]
fn runs_are_joined_with_a_bullet() {
    let node = parse("{\"runs\": [{\"text\": \"A\"}, {\"text\": \"  \"}, {\"text\": \"B\"}]}");
    assert_eq!(get_text(&node, false, true), Some("A • B".to_string()));
    let marked = parse(
        "{\"runs\": [{\"text\": \"A\", \"k\": 1}, {\"text\": \"  \", \"k\": 1}, {\"text\": \"B\", \"k\": 1}]}",
    );
    assert_eq!(get_text(&marked, true, true), Some("A • B".to_string()));
}

#[test]
fn bare_markers_among_the_runs_are_suppressed() {
    let node = parse("{\"runs\": [{\"text\": \"A\"}, {\"text\": \"  \"}, {\"text\": \"B\"}]}");
    assert_eq!(get_text(&node, true, true), None);
    let mixed = parse(
        "{\"runs\": [{\"text\": \"Artist\", \"link\": {}}, {\"text\": \" • \"}, {\"text\": \"Album\", \"link\": {}}]}",
    );
    assert_eq!(get_text(&mixed, true, true), Some("Artist • Album".to_string()));
    assert_eq!(get_text(&mixed, false, false), Some("Artist • Album".to_string()));
    assert_eq!(get_text(&mixed, false, true), Some("Artist • • • Album".to_string()));
}

#[test]
fn a_string_is_its_own_text() {
    assert_eq!(get_text(&parse("\"plain\""), false, false), Some("plain".to_string()));
    assert_eq!(get_text(&parse("\"  kept as is \""), true, true), Some("  kept as is ".to_string()));
    assert_eq!(get_text(&parse("\"\""), true, false), Some(String::new()));
}

#[test]
fn a_wrapper_has_the_text_of_its_value() {
    assert_eq!(get_text(&parse("{\"text\": \"T\"}"), false, false), Some("T".to_string()));
    assert_eq!(get_text(&parse("{\"text\": \"T\"}"), true, false), None);
    assert_eq!(get_text(&parse("{\"text\": \"T\", \"more\": 1}"), true, false), Some("T".to_string()));
    assert_eq!(
        get_text(&parse("{\"text\": {\"text\": \"T\", \"more\": 1}, \"more\": 2}"), true, false),
        Some("T".to_string())
    );
    assert_eq!(get_text(&parse("{\"text\": {\"text\": \"T\"}, \"more\": 2}"), true, false), None);
    assert_eq!(get_text(&parse("{\"text\": 5, \"more\": 2}"), false, false), None);
}

#[test]
fn text_comes_before_runs() {
    let node = parse("{\"runs\": [{\"text\": \"R\"}], \"text\": \"T\"}");
    assert_eq!(get_text(&node, false, false), Some("T".to_string()));
}

#[test]
fn what_is_not_text_has_none() {
    assert_eq!(get_text(&parse("null"), false, false), None);
    assert_eq!(get_text(&parse("true"), false, false), None);
    assert_eq!(get_text(&parse("12"), false, false), None);
    assert_eq!(get_text(&parse("[\"a\"]"), false, false), None);
    assert_eq!(get_text(&parse("{}"), false, false), None);
    assert_eq!(get_text(&parse("{\"other\": \"a\"}"), false, false), None);
    assert_eq!(get_text(&parse("{\"runs\": \"a\"}"), false, false), None);
    assert_eq!(get_text(&parse("{\"runs\": {\"text\": \"a\"}}"), false, false), None);
}

#[test]
fn runs_without_any_text_have_none() {
    assert_eq!(get_text(&parse("{\"runs\": []}"), false, false), None);
    assert_eq!(get_text(&parse("{\"runs\": [1, null]}"), false, false), None);
    assert_eq!(get_text(&parse("{\"runs\": [{\"text\": \"  \"}, \"\\t\"]}"), false, true), None);
}

#[test]
fn runs_are_trimmed_before_they_are_joined() {
    let node = parse("{\"runs\": [\"  A \", {\"text\": \"\\n B\"}, {\"runs\": [\"C\", \"D \"]}]}");
    assert_eq!(get_text(&node, false, false), Some("A B C D".to_string()));
    assert_eq!(get_text(&node, false, true), Some("A • B • C • D".to_string()));
}

#[test]
fn join_clean_trims_drops_and_joins() {
    assert_eq!(join_clean(&strings(&["a", "b"]), false), "a b");
    assert_eq!(join_clean(&strings(&["a", "b"]), true), "a • b");
    assert_eq!(join_clean(&strings(&["  a ", "", " \t", "b\n", "c"]), false), "a b c");
    assert_eq!(join_clean(&strings(&["  a ", "", " \t", "b\n", "c"]), true), "a • b • c");
    assert_eq!(join_clean(&strings(&[" only "]), true), "only");
    assert_eq!(join_clean(&strings(&["", "  "]), false), "");
    assert_eq!(join_clean(&strings(&[]), true), "");
    assert_eq!(join_clean(&strings(&["a b", " c  d "]), false), "a b c  d");
}

#[test]
fn join_nonempty_drops_empty_parts_only() {
    assert_eq!(join_nonempty(&vec!["A", "", "B"], false), "A B");
    assert_eq!(join_nonempty(&vec!["A", "", "B"], true), "A • B");
    assert_eq!(join_nonempty(&vec![" A", " ", "B "], false), " A   B ");
    assert_eq!(join_nonempty(&vec!["", ""], true), "");
    assert_eq!(join_nonempty(&vec![], false), "");
}
