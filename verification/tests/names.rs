use appmeta::names::{add_name, contains_name, dedup_names};

fn list(items: &[&str]) -> Vec<String> {
    items.iter().map(|s| s.to_string()).collect()
}

#[test]
fn add_name_appends_new_name() {
    let out = add_name(list(&["a", "b"]), "c".to_string());
    assert_eq!(out, list(&["a", "b", "c"]));
}

#[test]
fn add_name_keeps_known_name_once() {
    let out = add_name(list(&["a", "b"]), "a".to_string());
    assert_eq!(out, list(&["a", "b"]));
}

#[test]
fn dedup_names_keeps_first_occurrences() {
    let out = dedup_names(&list(&["b", "a", "b", "c", "a"]));
    assert_eq!(out, list(&["b", "a", "c"]));
}

#[test]
fn contains_name_finds_exact_text_only() {
    let names = list(&["alpha", "beta"]);
    assert!(contains_name(&names, "beta"));
    assert!(!contains_name(&names, "bet"));
    assert!(!contains_name(&names, ""));
}

#[test]
fn two_adds_in_a_row_keep_both_names() {
    let once = add_name(list(&["x"]), "svc1".to_string());
    let twice = add_name(once, "svc2".to_string());
    assert_eq!(twice, list(&["x", "svc1", "svc2"]));
    let again = add_name(twice, "svc1".to_string());
    assert_eq!(again, list(&["x", "svc1", "svc2"]));
}
