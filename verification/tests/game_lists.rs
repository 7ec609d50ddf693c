use viewer_report::game_list::{
    contains_name, dedup_names, parse_game_list, remove_known, render_game_list,
};

fn names(v: &[&str]) -> Vec<String> {
    v.iter().map(|s| s.to_string()).collect()
}

#[test]
fn parse_splits_on_newlines() {
    assert_eq!(parse_game_list("a\nb\n"), names(&["a", "b"]));
    assert_eq!(parse_game_list("a\nb"), names(&["a", "b"]));
    assert_eq!(parse_game_list(""), names(&[]));
    assert_eq!(parse_game_list("\n"), names(&[""]));
    assert_eq!(parse_game_list("a\n\nb"), names(&["a", "", "b"]));
}

#[test]
fn render_writes_one_name_per_line() {
    assert_eq!(render_game_list(&names(&["a", "b"])), "a\nb\n");
    assert_eq!(render_game_list(&names(&[])), "");
    assert_eq!(render_game_list(&names(&["Dwarf Fortress"])), "Dwarf Fortress\n");
}

#[test]
fn round_trip_returns_the_same_names() {
    let written = names(&["Factorio", "Rimworld", "Noita"]);
    let text = render_game_list(&written);
    assert_eq!(parse_game_list(&text), written);
}

#[test]
fn round_trip_collapses_duplicate_lines() {
    let written = names(&["x", "x", "y"]);
    let text = render_game_list(&written);
    let read = dedup_names(&parse_game_list(&text));
    assert_eq!(read, names(&["x", "y"]));
}

#[test]
fn dedup_keeps_first_occurrences() {
    let list = names(&["a", "b", "a", "c", "b"]);
    assert_eq!(dedup_names(&list), names(&["a", "b", "c"]));
}

#[test]
fn contains_name_finds_exact_matches_only() {
    let list = names(&["Foo", "Bar"]);
    assert!(contains_name(&list, &"Foo".to_string()));
    assert!(!contains_name(&list, &"foo".to_string()));
    assert!(!contains_name(&list, &"Baz".to_string()));
}

#[test]
fn remove_known_drops_only_listed_names() {
    let search = names(&["a", "b", "c", "b"]);
    let known = names(&["b", "d"]);
    assert_eq!(remove_known(&search, &known), names(&["a", "c"]));
}

#[test]
fn remove_known_with_empty_lists() {
    assert_eq!(remove_known(&names(&[]), &names(&["a"])), names(&[]));
    assert_eq!(remove_known(&names(&["a"]), &names(&[])), names(&["a"]));
}
