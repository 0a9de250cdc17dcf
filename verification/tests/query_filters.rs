use jmdict_fast::model::{Entry, KanaEntry, SenseEntry};
use jmdict_fast::query::{clamp_distance, filter_passes, ResultFilter, MAX_FUZZY_DISTANCE};

fn strings(v: &[&str]) -> Vec<String> {
    v.iter().map(|x| x.to_string()).collect()
}

fn sense(pos: &[&str], misc: &[&str]) -> SenseEntry {
    SenseEntry {
        part_of_speech: strings(pos),
        applies_to_kanji: Vec::new(),
        applies_to_kana: Vec::new(),
        related: Vec::new(),
        antonym: Vec::new(),
        field: Vec::new(),
        dialect: Vec::new(),
        misc: strings(misc),
        info: Vec::new(),
        language_source: Vec::new(),
        gloss: Vec::new(),
    }
}

fn entry(common: bool, sense: Vec<SenseEntry>) -> Entry {
    Entry {
        id: "1".into(),
        kanji: Vec::new(),
        kana: vec![KanaEntry {
            common,
            text: "ねこ".into(),
            tags: Vec::new(),
            applies_to_kanji: Vec::new(),
        }],
        sense,
    }
}

#[test]
fn substring_filter_is_case_sensitive() {
    assert!(!filter_passes(&strings(&["V"]), &strings(&["v1"])));
    assert!(filter_passes(&strings(&["x", "5k"]), &strings(&["v5k"])));
}

#[test]
fn distance_is_clamped() {
    assert_eq!(clamp_distance(10), MAX_FUZZY_DISTANCE);
    assert_eq!(clamp_distance(4), 4);
    assert_eq!(clamp_distance(1), 1);
}

#[test]
fn no_filter_admits_everything() {
    let f = ResultFilter::new();
    assert!(f.admits(&entry(false, Vec::new())));
    assert!(!f.limit_reached(1000));
}

#[test]
fn common_only_needs_a_common_form() {
    let mut f = ResultFilter::new();
    f.common_only = true;
    assert!(f.admits(&entry(true, Vec::new())));
    assert!(!f.admits(&entry(false, Vec::new())));
}

#[test]
fn sense_filters_are_conjunctive_within_a_sense() {
    let mut f = ResultFilter::new();
    f.pos_filter = strings(&["v"]);
    f.misc_filter = strings(&["abbr"]);
    // a verb sense and an abbreviation sense, but no verb abbreviation
    let split = entry(false, vec![sense(&["v1"], &[]), sense(&["n"], &["abbr"])]);
    assert!(!f.admits(&split));
    let both = entry(false, vec![sense(&["n"], &[]), sense(&["v5k"], &["abbr"])]);
    assert!(f.admits(&both));
    // with sense filters set, an entry without senses is not kept
    assert!(!f.admits(&entry(false, Vec::new())));
}

#[test]
fn limit_counts_yielded_results() {
    let mut f = ResultFilter::new();
    f.limit = Some(2);
    assert!(!f.limit_reached(1));
    assert!(f.limit_reached(2));
}
