use jmdict_fast::kanji::{is_kanji, is_kanji_word};

#[test]
fn test_is_kanji() {
    assert_eq!(is_kanji('漢'), true);
    assert_eq!(is_kanji('a'), false);
}

#[test]
fn test_is_kanji_word() {
    assert_eq!(is_kanji_word("漢字"), true);
    assert_eq!(is_kanji_word("あ"), false);
}
