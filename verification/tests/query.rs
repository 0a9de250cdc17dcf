use jmdict_fast::query::filter_passes;

fn s(v: &[&str]) -> Vec<String> {
    v.iter().map(|x| x.to_string()).collect()
}

#[test]
fn filter_passes_empty_filter_always_matches() {
    assert!(filter_passes(&[], &s(&[])));
    assert!(filter_passes(&[], &s(&["v1"])));
}

#[test]
fn filter_passes_substring_match() {
    // "v" catches every verb POS code that contains "v"
    assert!(filter_passes(&s(&["v"]), &s(&["v1"])));
    assert!(filter_passes(&s(&["v"]), &s(&["v5k", "vt"])));
    // "v1" is more selective
    assert!(filter_passes(&s(&["v1"]), &s(&["v1", "vt"])));
    assert!(!filter_passes(&s(&["v1"]), &s(&["v5k"])));
}

#[test]
fn filter_passes_misses_when_no_haystack_value_matches() {
    assert!(!filter_passes(&s(&["v"]), &s(&["n"])));
    assert!(!filter_passes(&s(&["v"]), &s(&[])));
}
