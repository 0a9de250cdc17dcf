use jmdict_fast::kana::{is_hiragana, is_kana_word, is_katakana, is_katakana_word, to_hiragana, to_katakana, to_romaji};

#[test]
fn test_is_hiragana() {
    assert_eq!(is_hiragana('あ'), true);
    assert_eq!(is_hiragana('a'), false);
}

#[test]
fn test_is_kana_word() {
    assert_eq!(is_kana_word("あ"), true);
    assert_eq!(is_kana_word("漢字"), false);
}

#[test]
fn test_romaji_to_hiragana_basic() {
    assert_eq!(to_hiragana("ike"), "いけ");
    assert_eq!(to_hiragana("イケ"), "いけ");
    assert_eq!(to_hiragana("いけ"), "いけ");
    assert_eq!(to_hiragana("zubon"), "ずぼん");
    assert_eq!(to_hiragana("durai"), "づらい");
}

#[test]
fn test_romaji_to_hiragana_small_tsu() {
    assert_eq!(to_hiragana("itt"), "いっt");
    assert_eq!(to_hiragana("itte"), "いって");
    assert_eq!(to_hiragana("ittt"), "いっっt");
    assert_eq!(to_hiragana("ittte"), "いっって");
    assert_eq!(to_hiragana("itttte"), "いっっって");
}

#[test]
fn test_is_katakana() {
    assert!(is_katakana('ア'));
    assert!(is_katakana('ン'));
    assert!(!is_katakana('あ'));
    assert!(!is_katakana('a'));
}

#[test]
fn test_is_katakana_word() {
    assert!(is_katakana_word("ネコ"));
    assert!(!is_katakana_word("ねこ"));
    assert!(!is_katakana_word(""));
    assert!(!is_katakana_word("ネコa"));
}

#[test]
fn test_to_katakana() {
    assert_eq!(to_katakana("ねこ"), "ネコ");
    assert_eq!(to_katakana("ネコ"), "ネコ");
    assert_eq!(to_katakana("neko"), "ネコ");
}

#[test]
fn test_to_romaji_basic() {
    assert_eq!(to_romaji("ねこ"), "neko");
    assert_eq!(to_romaji("ネコ"), "neko");
    assert_eq!(to_romaji("たべる"), "taberu");
    assert_eq!(to_romaji("にほん"), "nihon");
}

#[test]
fn test_to_romaji_digraphs() {
    assert_eq!(to_romaji("きょう"), "kyou");
    assert_eq!(to_romaji("しゅみ"), "shumi");
}

#[test]
fn test_to_romaji_sokuon() {
    assert_eq!(to_romaji("いって"), "itte");
    assert_eq!(to_romaji("がっこう"), "gakkou");
}

#[test]
fn to_romaji_keeps_text_that_is_not_kana() {
    assert_eq!(to_romaji("kk"), "kk");
    assert_eq!(to_romaji("Cafe"), "Cafe");
    assert_eq!(to_romaji("ネコ au lait"), "neko au lait");
    assert_eq!(to_romaji("ねこ2匹"), "neko2匹");
}

#[test]
fn romaji_is_read_whatever_its_case() {
    assert_eq!(to_hiragana("NEKO"), "ねこ");
    assert_eq!(to_hiragana("Neko"), to_hiragana("neko"));
}
