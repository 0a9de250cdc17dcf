use jmdict_fast::blob::encode_blob;
use jmdict_fast::dict::{keyed_candidates, reason_name, Dict};
use jmdict_fast::deinflector::Reason;
use jmdict_fast::error::JmdictError;
use jmdict_fast::model::MatchType;

fn fst_bytes(pairs: &[(&str, u64)]) -> Vec<u8> {
    let mut b = fst::MapBuilder::memory();
    for (k, v) in pairs {
        b.insert(k, *v).unwrap();
    }
    b.into_inner().unwrap()
}

fn sample() -> Dict {
    let payloads: Vec<Vec<u8>> = vec![b"taberu".to_vec(), b"neko".to_vec(), b"nekoze".to_vec()];
    let blob = encode_blob("3.6.1", "2025-01-01", &payloads);
    let kana = fst_bytes(&[("たべる", 0), ("ねこ", 1), ("ねこぜ", 2)]);
    let kanji = fst_bytes(&[("猫", 1), ("猫背", 2), ("食べる", 0)]);
    let romaji = fst_bytes(&[("neko", 1), ("nekoze", 2), ("taberu", 0)]);
    let ids = fst_bytes(&[("1000", 0), ("1001", 1), ("1002", 2)]);
    Dict::from_slices(&blob, &kana, &kanji, &romaji, &ids).expect("sample data loads")
}

#[test]
fn loads_version_and_count() {
    let d = sample();
    assert!(d.can_read_count());
    assert_eq!(d.entry_count(), 3);
    let v = d.version();
    assert_eq!(v.format_version, 4);
    assert_eq!(v.jmdict_version, "3.6.1");
    assert_eq!(v.generated_at, "2025-01-01");
}

#[test]
fn entry_bytes_are_the_stored_payloads() {
    let d = sample();
    assert!(d.can_locate(1));
    assert_eq!(d.entry_bytes(1), Some(b"neko".to_vec()));
    assert_eq!(d.entry_bytes(2), Some(b"nekoze".to_vec()));
    assert!(d.can_locate(7));
    assert_eq!(d.entry_bytes(7), None);
}

#[test]
fn exact_candidates_across_indexes() {
    let d = sample();
    let c = d.exact_candidates("ねこ");
    assert_eq!(c.len(), 1);
    assert_eq!(c[0].id, 1);
    assert_eq!(c[0].key, "ねこ");
    assert_eq!(c[0].match_type, MatchType::Exact);
    assert!(d.exact_candidates("いぬ").is_empty());
    assert_eq!(d.exact_candidates("neko")[0].id, 1);
}

#[test]
fn deinflected_candidates_record_how() {
    let d = sample();
    let c = d.deinflect_candidates("食べます");
    assert_eq!(c.len(), 1);
    assert_eq!(c[0].id, 0);
    assert_eq!(c[0].key, "食べる");
    assert_eq!(c[0].match_type, MatchType::Deinflected);
    let info = c[0].deinflection.as_ref().unwrap();
    assert_eq!(info.original_form, "食べます");
    assert_eq!(info.base_form, "食べる");
    assert_eq!(info.rules, vec!["Polite".to_string()]);
    // an exact hit wins over deinflection
    let e = d.deinflect_candidates("食べる");
    assert_eq!(e.len(), 1);
    assert_eq!(e[0].match_type, MatchType::Exact);
}

#[test]
fn prefix_candidates_put_exact_first() {
    let d = sample();
    let c = d.prefix_candidates("ねこ");
    let got: Vec<(u64, &str, MatchType)> =
        c.iter().map(|m| (m.id, m.key.as_str(), m.match_type)).collect();
    assert_eq!(got, vec![(1, "ねこ", MatchType::Exact), (2, "ねこぜ", MatchType::Prefix)]);
    let c = d.prefix_candidates("猫背");
    assert_eq!(c.len(), 1);
    assert_eq!(c[0].id, 2);
    assert_eq!(c[0].match_type, MatchType::Exact);
    assert!(d.prefix_candidates("x").is_empty());
}

#[test]
fn keyed_candidates_keep_first_key_per_id() {
    let pairs = vec![
        (b"neko".to_vec(), 1u64),
        (b"nekoze".to_vec(), 2),
        (b"ne".to_vec(), 1),
    ];
    let c = keyed_candidates(&pairs, "ne", MatchType::Fuzzy);
    assert_eq!(c.len(), 2);
    assert_eq!((c[0].id, c[0].key.as_str(), c[0].match_type), (1, "neko", MatchType::Fuzzy));
    assert_eq!((c[1].id, c[1].key.as_str()), (2, "nekoze"));
}

#[test]
fn broken_data_is_refused() {
    let blob = encode_blob("3.6.1", "now", &Vec::new());
    let good = fst_bytes(&[("a", 0)]);
    assert!(matches!(
        Dict::from_slices(b"nope", &good, &good, &good, &good),
        Err(JmdictError::DataCorrupted)
    ));
}

#[test]
fn reason_names_match_debug() {
    assert_eq!(reason_name(Reason::PolitePastNegative), format!("{:?}", Reason::PolitePastNegative));
    assert_eq!(reason_name(Reason::Irregular), "Irregular");
}

#[test]
fn fuzzy_candidates_within_distance() {
    let d = sample();
    let c = d.fuzzy_candidates("nekp", 1).expect("small automaton");
    assert_eq!(c.len(), 1);
    assert_eq!((c[0].id, c[0].key.as_str(), c[0].match_type), (1, "neko", MatchType::Fuzzy));
    let c = d.fuzzy_candidates("neko", 2).expect("small automaton");
    let got: Vec<(u64, &str, MatchType)> =
        c.iter().map(|m| (m.id, m.key.as_str(), m.match_type)).collect();
    assert_eq!(got, vec![(1, "neko", MatchType::Exact), (2, "nekoze", MatchType::Fuzzy)]);
    assert!(d.fuzzy_candidates("xyz", 0).unwrap().is_empty());
    let c = d.fuzzy_candidates("taberu", 0).unwrap();
    assert_eq!(c.len(), 1);
    assert_eq!((c[0].id, c[0].match_type), (0, MatchType::Exact));
}

#[test]
fn fuzzy_candidates_refuse_huge_automata() {
    let d = sample();
    let long = "abcdefghijklmnopqrstuvwxyzABCDEFGHIJKLMNOPQRSTUVWXYZ0123456789";
    assert!(matches!(d.fuzzy_candidates(long, 6), Err(JmdictError::InvalidQuery)));
}

#[test]
fn prefix_candidates_keep_the_best_match_per_id() {
    let payloads: Vec<Vec<u8>> = vec![b"x".to_vec(); 6];
    let blob = encode_blob("3.6.1", "2025-01-01", &payloads);
    let kana = fst_bytes(&[("ab", 5), ("ac", 4)]);
    let kanji = fst_bytes(&[("z", 0)]);
    let romaji = fst_bytes(&[("a", 5)]);
    let ids = fst_bytes(&[("1000", 0)]);
    let d = Dict::from_slices(&blob, &kana, &kanji, &romaji, &ids).expect("loads");
    let c = d.prefix_candidates("a");
    let got: Vec<(u64, &str, MatchType)> =
        c.iter().map(|m| (m.id, m.key.as_str(), m.match_type)).collect();
    assert_eq!(got, vec![(5, "a", MatchType::Exact), (4, "ac", MatchType::Prefix)]);
}

#[test]
fn dictionary_from_built_indexes() {
    let index = |v: &[(&str, u64)]| -> Vec<(String, u64)> {
        v.iter().map(|(k, i)| (k.to_string(), *i)).collect()
    };
    let payloads: Vec<Vec<u8>> = vec![b"0".to_vec(), b"1".to_vec()];
    let blob = encode_blob("3.6.1", "2025-01-01", &payloads);
    let d = Dict::from_indexes(
        &blob,
        &index(&[("いぬ", 0), ("ねこ", 1)]),
        &index(&[("猫", 1)]),
        &index(&[("neko", 1)]),
        &index(&[("1000", 0), ("1001", 1)]),
    )
    .expect("loads");
    assert_eq!(d.entry_count(), 2);
    assert_eq!(d.exact_candidates("猫")[0].id, 1);
    assert!(matches!(
        Dict::from_indexes(b"nope", &Vec::new(), &Vec::new(), &Vec::new(), &Vec::new()),
        Err(JmdictError::DataCorrupted)
    ));
}
