use jmdict_fast::deinflector::{Deinflector, WordType};

const ALL_FINAL: u32 = 127;

#[test]
fn input_word_comes_first_with_no_reasons() {
    let d = Deinflector::new();
    for word in ["食べました", "走ります", "ねこ", "", "abc", "来ない"] {
        let result = d.deinflect(word);
        assert!(!result.is_empty());
        assert_eq!(result[0].word, word);
        assert!(result[0].reason_chains.is_empty());
        assert_eq!(
            result[0].word_type,
            0xffff ^ (WordType::TaTeStem.as_u32() | WordType::DaDeStem.as_u32() | WordType::IrrealisStem.as_u32())
        );
    }
}

#[test]
fn every_result_has_a_dictionary_form_type() {
    let d = Deinflector::new();
    for word in ["食べさせられた", "行っておりました", "しなかった", "見られる"] {
        for c in d.deinflect(word) {
            assert_ne!(c.word_type & ALL_FINAL, 0, "{} has type {}", c.word, c.word_type);
        }
    }
}

#[test]
fn default_is_new() {
    let a = Deinflector::default().deinflect("食べた");
    let b = Deinflector::new().deinflect("食べた");
    assert_eq!(a, b);
}

#[test]
fn kana_folding_only_touches_katakana_letters() {
    let d = Deinflector::new();
    assert_eq!(d.kana_to_hiragana("ァンヴ"), "ぁんヴ");
    assert_eq!(d.kana_to_hiragana("abc漢字"), "abc漢字");
    assert_eq!(d.kana_to_hiragana(""), "");
}

#[test]
fn word_type_bits() {
    assert_eq!(WordType::IchidanVerb.as_u32(), 1);
    assert_eq!(WordType::All.as_u32(), 127);
    assert_eq!(WordType::IrrealisStem.as_u32(), 2048);
}
