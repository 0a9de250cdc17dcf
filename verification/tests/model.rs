use jmdict_fast::model::{Entry, GlossEntry, KanaEntry, KanjiEntry, SenseEntry};

fn gloss(lang: &str, text: &str) -> GlossEntry {
    GlossEntry {
        lang: lang.into(),
        gender: None,
        gloss_type: None,
        text: text.into(),
    }
}

fn sense(pos: &[&str], glosses: Vec<GlossEntry>) -> SenseEntry {
    SenseEntry {
        part_of_speech: pos.iter().map(|s| s.to_string()).collect(),
        applies_to_kanji: Vec::new(),
        applies_to_kana: Vec::new(),
        related: Vec::new(),
        antonym: Vec::new(),
        field: Vec::new(),
        dialect: Vec::new(),
        misc: Vec::new(),
        info: Vec::new(),
        language_source: Vec::new(),
        gloss: glosses,
    }
}

fn kanji(text: &str, common: bool) -> KanjiEntry {
    KanjiEntry {
        common,
        text: text.into(),
        tags: Vec::new(),
    }
}

fn kana(text: &str, common: bool) -> KanaEntry {
    KanaEntry {
        common,
        text: text.into(),
        tags: Vec::new(),
        applies_to_kanji: Vec::new(),
    }
}

fn entry(kanji: Vec<KanjiEntry>, kana: Vec<KanaEntry>, sense: Vec<SenseEntry>) -> Entry {
    Entry {
        id: "test".into(),
        kanji,
        kana,
        sense,
    }
}

#[test]
fn primary_kanji_and_kana_first_element() {
    let e = entry(
        vec![kanji("猫", true), kanji("ねこ", false)],
        vec![kana("ねこ", true)],
        vec![],
    );
    assert_eq!(e.primary_kanji(), Some("猫"));
    assert_eq!(e.primary_kana(), Some("ねこ"));
}

#[test]
fn primary_kanji_none_when_kana_only() {
    let e = entry(vec![], vec![kana("にゃんこ", false)], vec![]);
    assert!(e.primary_kanji().is_none());
    assert_eq!(e.primary_kana(), Some("にゃんこ"));
}

#[test]
fn headword_prefers_kanji_falls_back_to_kana() {
    let with_kanji = entry(vec![kanji("猫", false)], vec![kana("ねこ", false)], vec![]);
    assert_eq!(with_kanji.headword(), Some("猫"));

    let kana_only = entry(vec![], vec![kana("にゃんこ", false)], vec![]);
    assert_eq!(kana_only.headword(), Some("にゃんこ"));

    let empty = entry(vec![], vec![], vec![]);
    assert!(empty.headword().is_none());
}

#[test]
fn is_common_true_if_any_form_is_common() {
    let kanji_common = entry(vec![kanji("猫", true)], vec![kana("ねこ", false)], vec![]);
    assert!(kanji_common.is_common());

    let kana_common = entry(vec![kanji("猫", false)], vec![kana("ねこ", true)], vec![]);
    assert!(kana_common.is_common());

    let neither = entry(vec![kanji("猫", false)], vec![kana("ねこ", false)], vec![]);
    assert!(!neither.is_common());
}

#[test]
fn glosses_filter_by_lang() {
    let e = entry(
        vec![],
        vec![kana("ねこ", false)],
        vec![sense(
            &["n"],
            vec![gloss("eng", "cat"), gloss("fre", "chat"), gloss("eng", "feline")],
        )],
    );
    let eng: Vec<&str> = e.glosses("eng");
    assert_eq!(eng, vec!["cat", "feline"]);

    let fre: Vec<&str> = e.glosses("fre");
    assert_eq!(fre, vec!["chat"]);

    let missing: Vec<&str> = e.glosses("jpn");
    assert!(missing.is_empty());
}

#[test]
fn parts_of_speech_dedup_in_first_seen_order() {
    let e = entry(
        vec![],
        vec![kana("ねこ", false)],
        vec![
            sense(&["v1", "vt"], vec![]),
            sense(&["vt", "vi"], vec![]),
            sense(&["v1"], vec![]),
        ],
    );
    assert_eq!(e.parts_of_speech(), vec!["v1", "vt", "vi"]);
}
