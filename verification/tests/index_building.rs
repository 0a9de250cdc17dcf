use jmdict_fast::blob::encode_blob;
use jmdict_fast::dict::Dict;
use jmdict_fast::index::{
    build_index, collect_index_keys, index_fst_bytes, parse_xref, romaji_of, XrefPart,
};
use jmdict_fast::model::{DemoHit, Entry, GlossEntry, KanaEntry, KanjiEntry, SenseEntry};
use jmdict_fast::model::into_demo_hit;

fn text(s: &str) -> XrefPart {
    XrefPart::Text(s.to_string())
}

#[test]
fn xref_term_reading_and_sense() {
    let x = parse_xref(&[text("猫"), text("ねこ"), XrefPart::Number(2)]);
    assert_eq!(x.term, "猫");
    assert_eq!(x.reading.as_deref(), Some("ねこ"));
    assert_eq!(x.sense_index, Some(2));

    let x = parse_xref(&[text("猫"), XrefPart::Number(1)]);
    assert_eq!(x.reading, None);
    assert_eq!(x.sense_index, Some(1));

    let x = parse_xref(&[XrefPart::Other]);
    assert_eq!(x.term, "");
    assert_eq!(x.sense_index, None);

    let x = parse_xref(&[text("a"), text("b"), XrefPart::Number(4_294_967_297)]);
    assert_eq!(x.sense_index, Some(1));
}

#[test]
fn romaji_keys_are_lowercase_ascii() {
    assert_eq!(romaji_of("ABC"), "abc");
    let k = romaji_of("ねこ");
    assert!(k.chars().all(|c| c.is_ascii() && !c.is_ascii_uppercase()));
}

fn entry(id: &str, kanji: &[&str], kana: &[&str]) -> Entry {
    Entry {
        id: id.into(),
        kanji: kanji
            .iter()
            .map(|t| KanjiEntry { common: false, text: t.to_string(), tags: Vec::new() })
            .collect(),
        kana: kana
            .iter()
            .map(|t| KanaEntry {
                common: false,
                text: t.to_string(),
                tags: Vec::new(),
                applies_to_kanji: Vec::new(),
            })
            .collect(),
        sense: Vec::new(),
    }
}

#[test]
fn index_keys_number_entries_by_position() {
    let entries = vec![entry("1002", &["猫"], &["ねこ"]), entry("1001", &[], &["ねこ", "KAT"])];
    let keys = collect_index_keys(&entries);
    assert_eq!(keys.kanji, vec![("猫".to_string(), 0)]);
    assert_eq!(
        keys.kana,
        vec![("ねこ".to_string(), 0), ("ねこ".to_string(), 1), ("KAT".to_string(), 1)]
    );
    assert_eq!(keys.ids, vec![("1002".to_string(), 0), ("1001".to_string(), 1)]);
    assert_eq!(keys.romaji.len(), 4);
    assert_eq!(keys.romaji[3], ("kat".to_string(), 1));
}

#[test]
fn index_is_sorted_with_the_smallest_id_per_key() {
    let pairs = vec![
        ("ねこ".to_string(), 5u64),
        ("いぬ".to_string(), 3),
        ("ねこ".to_string(), 1),
        ("a".to_string(), 9),
    ];
    assert_eq!(
        build_index(pairs),
        vec![("a".to_string(), 9), ("いぬ".to_string(), 3), ("ねこ".to_string(), 1)]
    );
    assert!(build_index(Vec::new()).is_empty());
}

#[test]
fn demo_hit_takes_first_forms_and_gloss() {
    let mut e = entry("1", &["猫"], &["ねこ"]);
    e.sense.push(SenseEntry {
        part_of_speech: Vec::new(),
        applies_to_kanji: Vec::new(),
        applies_to_kana: Vec::new(),
        related: Vec::new(),
        antonym: Vec::new(),
        field: Vec::new(),
        dialect: Vec::new(),
        misc: Vec::new(),
        info: Vec::new(),
        language_source: Vec::new(),
        gloss: vec![GlossEntry { lang: "eng".into(), gender: None, gloss_type: None, text: "cat".into() }],
    });
    let hit: DemoHit = into_demo_hit(&e);
    assert_eq!(hit.kanji.as_deref(), Some("猫"));
    assert_eq!(hit.kana.as_deref(), Some("ねこ"));
    assert_eq!(hit.gloss.as_deref(), Some("cat"));
    let bare: DemoHit = into_demo_hit(&entry("2", &[], &[]));
    assert!(bare.kanji.is_none() && bare.kana.is_none() && bare.gloss.is_none());
}

#[test]
fn built_index_files_find_what_was_indexed() {
    let keys = |v: &[(&str, u64)]| -> Vec<(String, u64)> {
        v.iter().map(|(k, i)| (k.to_string(), *i)).collect()
    };
    let kana = build_index(keys(&[("ねこ", 2), ("いぬ", 0), ("ねこ", 1), ("ねこぜ", 3)]));
    let kanji = build_index(keys(&[("猫", 1), ("犬", 0)]));
    let romaji = build_index(keys(&[("neko", 1), ("inu", 0), ("neko", 2)]));
    let ids = build_index(keys(&[("1000", 0), ("1001", 1), ("1002", 2), ("1003", 3)]));
    let payloads: Vec<Vec<u8>> = vec![b"a".to_vec(), b"b".to_vec(), b"c".to_vec(), b"d".to_vec()];
    let blob = encode_blob("3.6.1", "2025-01-01", &payloads);
    let d = Dict::from_slices(
        &blob,
        &index_fst_bytes(&kana),
        &index_fst_bytes(&kanji),
        &index_fst_bytes(&romaji),
        &index_fst_bytes(&ids),
    )
    .expect("built index files load");
    let found: Vec<u64> = d.exact_candidates("ねこ").iter().map(|c| c.id).collect();
    assert_eq!(found, vec![1]);
    let found: Vec<u64> = d.exact_candidates("neko").iter().map(|c| c.id).collect();
    assert_eq!(found, vec![1]);
    let found: Vec<u64> = d.exact_candidates("犬").iter().map(|c| c.id).collect();
    assert_eq!(found, vec![0]);
    assert_eq!(d.exact_candidates("ねこぜ")[0].id, 3);
    assert!(d.exact_candidates("とり").is_empty());
}

#[test]
fn index_fst_bytes_hold_the_index() {
    let index = build_index(vec![("b".to_string(), 7), ("a".to_string(), 9)]);
    let map = fst::Map::new(index_fst_bytes(&index)).expect("an fst map");
    assert_eq!(map.len(), 2);
    assert_eq!(map.get("a"), Some(9));
    assert_eq!(map.get("b"), Some(7));
    assert_eq!(map.get("c"), None);
}
