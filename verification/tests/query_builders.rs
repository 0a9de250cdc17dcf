use jmdict_fast::blob::encode_blob;
use jmdict_fast::dict::Dict;
use jmdict_fast::error::JmdictError;
use jmdict_fast::index::{build_index, index_fst_bytes};
use jmdict_fast::model::{MatchMode, MatchType};
use jmdict_fast::query::{QueryBuilder, MAX_FUZZY_DISTANCE};

fn index(v: &[(&str, u64)]) -> Vec<u8> {
    index_fst_bytes(&build_index(v.iter().map(|(k, i)| (k.to_string(), *i)).collect()))
}

fn sample() -> Dict {
    let payloads: Vec<Vec<u8>> = vec![b"0".to_vec(), b"1".to_vec(), b"2".to_vec()];
    let blob = encode_blob("3.6.1", "2025-01-01", &payloads);
    Dict::from_slices(
        &blob,
        &index(&[("たべる", 0), ("ねこ", 1), ("ねこぜ", 2)]),
        &index(&[("猫", 1), ("猫背", 2), ("食べる", 0)]),
        &index(&[("neko", 1), ("nekoze", 2), ("taberu", 0)]),
        &index(&[("1000", 0), ("1001", 1), ("1002", 2)]),
    )
    .expect("sample data loads")
}

fn ids(q: QueryBuilder) -> Vec<(u64, MatchType)> {
    q.candidates().unwrap().iter().map(|c| (c.id, c.match_type)).collect()
}

#[test]
fn query_builder_defaults() {
    let d = sample();
    let q = d.lookup("ねこ");
    assert_eq!(q.term, "ねこ");
    assert_eq!(q.mode, MatchMode::Exact);
    assert!(!q.filter.common_only);
    assert!(q.filter.pos_filter.is_empty());
    assert_eq!(q.filter.limit, None);
    assert_eq!(q.max_distance, 2);
}

#[test]
fn query_builder_setters() {
    let d = sample();
    let q = d
        .lookup("neko")
        .mode(MatchMode::Fuzzy)
        .common_only(true)
        .pos(&["v1", "n"])
        .misc(&["uk"])
        .field(&["med"])
        .dialect(&["ksb"])
        .max_distance(100)
        .limit(3);
    assert_eq!(q.mode, MatchMode::Fuzzy);
    assert!(q.filter.common_only);
    assert_eq!(q.filter.pos_filter, vec!["v1".to_string(), "n".to_string()]);
    assert_eq!(q.filter.misc_filter, vec!["uk".to_string()]);
    assert_eq!(q.filter.field_filter, vec!["med".to_string()]);
    assert_eq!(q.filter.dialect_filter, vec!["ksb".to_string()]);
    assert_eq!(q.max_distance, MAX_FUZZY_DISTANCE);
    assert_eq!(q.filter.limit, Some(3));
    assert_eq!(d.lookup("x").max_distance(1).max_distance, 1);
}

#[test]
fn query_candidates_follow_the_mode() {
    let d = sample();
    assert_eq!(ids(d.lookup("ねこ")), vec![(1, MatchType::Exact)]);
    assert_eq!(
        ids(d.lookup("ねこ").mode(MatchMode::Prefix)),
        vec![(1, MatchType::Exact), (2, MatchType::Prefix)]
    );
    assert_eq!(ids(d.lookup("食べます").mode(MatchMode::Deinflect)), vec![(0, MatchType::Deinflected)]);
    assert_eq!(
        ids(d.lookup("neko").mode(MatchMode::Fuzzy).max_distance(2)),
        vec![(1, MatchType::Exact), (2, MatchType::Fuzzy)]
    );
    let long = "abcdefghijklmnopqrstuvwxyzABCDEFGHIJKLMNOPQRSTUVWXYZ0123456789";
    let mut q = d.lookup(long).mode(MatchMode::Fuzzy);
    q.max_distance = 6;
    assert!(matches!(q.candidates(), Err(JmdictError::InvalidQuery)));
}

#[test]
fn batch_query_is_the_single_query_of_each_term() {
    let d = sample();
    let b = d
        .lookup_batch(&["ねこ", "食べます"])
        .mode(MatchMode::Deinflect)
        .pos(&["n"])
        .limit(2)
        .max_distance(9);
    assert_eq!(b.terms, vec!["ねこ".to_string(), "食べます".to_string()]);
    for (i, term) in ["ねこ", "食べます"].iter().enumerate() {
        let one = b.query_for(i);
        let single = d.lookup(term).mode(MatchMode::Deinflect).pos(&["n"]).limit(2).max_distance(9);
        assert_eq!(one.term, single.term);
        assert_eq!(one.mode, single.mode);
        assert_eq!(one.filter.pos_filter, single.filter.pos_filter);
        assert_eq!(one.filter.limit, single.filter.limit);
        assert_eq!(one.max_distance, single.max_distance);
        assert_eq!(ids(one), ids(single));
    }
}
