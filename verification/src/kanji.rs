use vstd::prelude::*;

use crate::text::chars_of;

verus! {

/// A CJK unified ideograph in the basic block U+4E00..=U+9FFF.
pub open spec fn spec_is_kanji(c: char) -> bool {
    '\u{4E00}' <= c && c <= '\u{9FFF}'
}

/// Returns true if the character is a CJK unified ideograph (U+4E00..=U+9FFF).
pub fn is_kanji(c: char) -> (r: bool)
    ensures
        r == spec_is_kanji(c),
{
    '\u{4E00}' <= c && c <= '\u{9FFF}'
}

/// Returns true if every character of `word` is a kanji (vacuously true for
/// the empty word).
pub fn is_kanji_word(word: &str) -> (r: bool)
    ensures
        r == (forall|i: int| 0 <= i < word@.len() ==> spec_is_kanji(#[trigger] word@[i])),
{
    let chars = chars_of(word);
    let mut i: usize = 0;
    while i < chars.len()
        invariant
            0 <= i <= chars.len(),
            chars@ == word@,
            forall|j: int| 0 <= j < i ==> spec_is_kanji(#[trigger] chars@[j]),
        decreases chars.len() - i,
    {
        if !is_kanji(chars[i]) {
            return false;
        }
        i += 1;
    }
    true
}

} // verus!
