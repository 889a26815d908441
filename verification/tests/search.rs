use centerpiece::model::Entry;
use centerpiece::search::{keywords_of, search, sort_by_title};

fn entry(id: &str, title: &str, meta: &str) -> Entry {
    Entry {
        id: id.to_string(),
        title: title.to_string(),
        action: String::from("open"),
        meta: meta.to_string(),
        command: None,
    }
}

fn sample() -> Vec<Entry> {
    vec![
        entry("1", "Terminal", "Shell"),
        entry("2", "Firefox", "Web Browser"),
        entry("3", "Files", "Manager"),
        entry("4", "Firefox", "Second"),
    ]
}

#[test]
fn keywords_join_title_and_meta() {
    assert_eq!(keywords_of(&entry("x", "Files", "Manager")), "Files Manager");
}

#[test]
fn empty_query_lists_everything_by_title() {
    let r = search(sample(), &String::new());
    let ids: Vec<&str> = r.iter().map(|e| e.id.as_str()).collect();
    assert_eq!(ids, vec!["3", "2", "4", "1"]);
}

#[test]
fn sort_by_title_is_stable() {
    let r = sort_by_title(sample());
    let ids: Vec<&str> = r.iter().map(|e| e.id.as_str()).collect();
    assert_eq!(ids, vec!["3", "2", "4", "1"]);
}

#[test]
fn query_keeps_only_matches() {
    let r = search(sample(), &String::from("fox"));
    let ids: Vec<&str> = r.iter().map(|e| e.id.as_str()).collect();
    assert_eq!(ids.len(), 2);
    assert!(ids.contains(&"2") && ids.contains(&"4"));
}

#[test]
fn query_matches_meta_text() {
    let r = search(sample(), &String::from("shell"));
    let ids: Vec<&str> = r.iter().map(|e| e.id.as_str()).collect();
    assert_eq!(ids, vec!["1"]);
}

#[test]
fn query_without_matches_gives_nothing() {
    assert!(search(sample(), &String::from("zzzz")).is_empty());
}

#[test]
fn better_match_comes_first() {
    let entries = vec![entry("loose", "f_i_r_e_x", ""), entry("tight", "fire", "")];
    let r = search(entries, &String::from("fire"));
    assert_eq!(r[0].id, "tight");
}
