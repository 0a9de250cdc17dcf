use vstd::prelude::*;

use crate::kana_table::{
    kana_romaji1, kana_romaji1_exec, kana_romaji2, kana_romaji2_exec, romaji_kana1,
    romaji_kana1_exec, romaji_kana2, romaji_kana2_exec, romaji_kana3, romaji_kana3_exec,
    romaji_kana4,
};
use crate::text::{
    ascii_lower, char_from_u32, chars_of, has_known_lowercase, lowercase, push_char, push_chars,
    str_to_lowercase,
};

verus! {

// ---------------------------------------------------------------------------
// Character classes
// ---------------------------------------------------------------------------

/// Hiragana block, U+3040..=U+309F.
pub open spec fn spec_is_hiragana(c: char) -> bool {
    '\u{3040}' <= c && c <= '\u{309F}'
}

/// Katakana block, U+30A0..=U+30FF.
pub open spec fn spec_is_katakana(c: char) -> bool {
    '\u{30A0}' <= c && c <= '\u{30FF}'
}

/// The katakana letters that have a hiragana counterpart 0x60 below them
/// (U+30A1 ァ ..= U+30F6 ヶ).
pub open spec fn is_convertible_katakana(c: char) -> bool {
    '\u{30A1}' <= c && c <= '\u{30F6}'
}

/// Katakana letter to hiragana letter; other characters are kept.
pub open spec fn katakana_to_hiragana_char(c: char) -> char {
    if is_convertible_katakana(c) {
        ((c as u32) - 0x60) as char
    } else {
        c
    }
}

/// Hiragana to katakana (a fixed +0x60 shift); other characters are kept.
pub open spec fn hiragana_to_katakana_char(c: char) -> char {
    if spec_is_hiragana(c) {
        ((c as u32) + 0x60) as char
    } else {
        c
    }
}

pub open spec fn spec_is_consonant(c: char) -> bool {
    c == 'b' || c == 'c' || c == 'd' || c == 'f' || c == 'g' || c == 'h' || c == 'j' || c == 'k'
        || c == 'l' || c == 'm' || c == 'p' || c == 'q' || c == 'r' || c == 's' || c == 't' || c
        == 'v' || c == 'w' || c == 'x' || c == 'z'
}

pub open spec fn spec_is_vowel(c: char) -> bool {
    c == 'a' || c == 'i' || c == 'u' || c == 'e' || c == 'o'
}

// ---------------------------------------------------------------------------
// Tables
// ---------------------------------------------------------------------------

/// The romaji → hiragana table: the hiragana for a romaji spelling, if the
/// table has one.
pub open spec fn romaji_kana(k: Seq<char>) -> Option<Seq<char>> {
    if k.len() == 1 {
        romaji_kana1(k[0])
    } else if k.len() == 2 {
        romaji_kana2(k[0], k[1])
    } else if k.len() == 3 {
        romaji_kana3(k[0], k[1], k[2])
    } else if k.len() == 4 {
        romaji_kana4(k[0], k[1], k[2], k[3])
    } else {
        None
    }
}

/// The hiragana → romaji table (canonical Hepburn spelling per kana).
pub open spec fn kana_romaji(k: Seq<char>) -> Option<Seq<char>> {
    if k.len() == 1 {
        kana_romaji1(k[0])
    } else if k.len() == 2 {
        kana_romaji2(k[0], k[1])
    } else {
        None
    }
}

// ---------------------------------------------------------------------------
// Romaji → hiragana
// ---------------------------------------------------------------------------

/// One step of the greedy romaji conversion on a non-empty input: the
/// hiragana produced and how many input characters it consumed. The
/// longest table spelling (three letters, then two, then one) wins; a
/// doubled consonant other than `n` becomes a small tsu; an `n` not followed
/// by a vowel becomes ん; anything else is copied.
pub open spec fn romaji_step(s: Seq<char>) -> (Seq<char>, int) {
    if s.len() >= 3 && romaji_kana(s.take(3)) is Some {
        (romaji_kana(s.take(3)).unwrap(), 3)
    } else if s.len() >= 2 && romaji_kana(s.take(2)) is Some {
        (romaji_kana(s.take(2)).unwrap(), 2)
    } else if s.len() >= 1 && romaji_kana(s.take(1)) is Some {
        (romaji_kana(s.take(1)).unwrap(), 1)
    } else if s.len() >= 2 && s[0] == s[1] && spec_is_consonant(s[0]) && s[0] != 'n' {
        (seq!['っ'], 1)
    } else if s.len() >= 1 && s[0] == 'n' {
        if s.len() == 1 || !spec_is_vowel(s[1]) {
            (seq!['ん'], 1)
        } else {
            (seq![], 1)
        }
    } else if s.len() >= 1 {
        (seq![s[0]], 1)
    } else {
        (seq![], 1)
    }
}

pub proof fn lemma_romaji_step_consumes(s: Seq<char>)
    requires
        s.len() > 0,
    ensures
        1 <= romaji_step(s).1 <= s.len(),
{
}

/// Greedy conversion of (lowercase) romaji to hiragana.
pub open spec fn romaji_to_kana(s: Seq<char>) -> Seq<char>
    decreases s.len(),
{
    if s.len() == 0 {
        seq![]
    } else {
        proof {
            lemma_romaji_step_consumes(s);
        }
        romaji_step(s).0 + romaji_to_kana(s.skip(romaji_step(s).1))
    }
}

/// What `to_hiragana` returns: if the input holds a katakana letter, every
/// katakana letter is shifted to its hiragana and the rest is kept;
/// otherwise the lowercased input is read as romaji.
pub open spec fn spec_to_hiragana(s: Seq<char>) -> Seq<char> {
    if exists|i: int| 0 <= i < s.len() && is_convertible_katakana(#[trigger] s[i]) {
        s.map_values(|c: char| katakana_to_hiragana_char(c))
    } else {
        romaji_to_kana(str_to_lowercase(s))
    }
}

/// Whether every character is ASCII, kana or a CJK ideograph: text whose
/// lowercasing the library knows.
pub open spec fn ascii_kana_text(s: Seq<char>) -> bool {
    forall|i: int| 0 <= i < s.len() ==> has_known_lowercase(#[trigger] s[i])
}

/// Lowercasing ASCII twice is lowercasing it once, and keeps text ASCII,
/// kana or CJK: so `to_hiragana` reads such romaji the same whatever its
/// case (`to_hiragana("NEKO") == to_hiragana("neko")`).
pub proof fn lemma_ascii_lower_idempotent(s: Seq<char>)
    ensures
        s.map_values(|c: char| ascii_lower(c)).map_values(|c: char| ascii_lower(c))
            == s.map_values(|c: char| ascii_lower(c)),
        ascii_kana_text(s) ==> ascii_kana_text(s.map_values(|c: char| ascii_lower(c))),
        forall|i: int|
            0 <= i < s.len() ==> (is_convertible_katakana(#[trigger] s[i]) <==> is_convertible_katakana(
                s.map_values(|c: char| ascii_lower(c))[i],
            )),
{
    let m = s.map_values(|c: char| ascii_lower(c));
    assert(m.map_values(|c: char| ascii_lower(c)) =~= m);
}

/// What `to_katakana` returns.
pub open spec fn spec_to_katakana(s: Seq<char>) -> Seq<char> {
    spec_to_hiragana(s).map_values(|c: char| hiragana_to_katakana_char(c))
}

// ---------------------------------------------------------------------------
// Hiragana → romaji
// ---------------------------------------------------------------------------

/// Table lookup on the start of `sl`: the two-kana digraph first, then the
/// single kana. Returns the romaji (if any) and the number of kana consumed
/// (one when nothing matched).
pub open spec fn lookup_kana_spec(sl: Seq<char>) -> (Option<Seq<char>>, int) {
    if sl.len() >= 2 && kana_romaji(sl.take(2)) is Some {
        (kana_romaji(sl.take(2)), 2)
    } else if sl.len() >= 1 && kana_romaji(sl.take(1)) is Some {
        (kana_romaji(sl.take(1)), 1)
    } else {
        (None, 1)
    }
}

pub proof fn lemma_lookup_kana_consumes(sl: Seq<char>)
    ensures
        1 <= lookup_kana_spec(sl).1 <= 2,
        lookup_kana_spec(sl).0 is Some ==> lookup_kana_spec(sl).1 <= sl.len(),
{
}

/// Hepburn romaji of a hiragana string. A small tsu before a kana with a
/// romaji spelling doubles that spelling's first letter; characters without
/// a spelling are copied.
pub open spec fn kana_to_romaji(s: Seq<char>) -> Seq<char>
    decreases s.len(),
{
    if s.len() == 0 {
        seq![]
    } else if s[0] == 'っ' && s.len() >= 2 && lookup_kana_spec(s.skip(1)).0 is Some {
        let r = lookup_kana_spec(s.skip(1)).0.unwrap();
        let n = lookup_kana_spec(s.skip(1)).1;
        proof {
            lemma_lookup_kana_consumes(s.skip(1));
        }
        (if r.len() > 0 {
            seq![r[0]]
        } else {
            seq![]
        }) + r + kana_to_romaji(s.skip(1 + n))
    } else {
        let n = lookup_kana_spec(s).1;
        proof {
            lemma_lookup_kana_consumes(s);
        }
        match lookup_kana_spec(s).0 {
            Some(r) => r + kana_to_romaji(s.skip(n)),
            None => seq![s[0]] + kana_to_romaji(s.skip(1)),
        }
    }
}

/// Every spelling of the kana table starts with a hiragana letter.
proof fn lemma_table_keys_hiragana(a: char, b: char)
    ensures
        kana_romaji1(a) is Some ==> spec_is_hiragana(a),
        kana_romaji2(a, b) is Some ==> spec_is_hiragana(a),
{
}

/// Text without hiragana has no romaji spelling: it is kept as it is.
proof fn lemma_no_kana_kept(s: Seq<char>)
    requires
        forall|i: int| 0 <= i < s.len() ==> !spec_is_hiragana(#[trigger] s[i]),
    ensures
        kana_to_romaji(s) == s,
    decreases s.len(),
{
    if s.len() > 0 {
        if s.len() >= 2 {
            lemma_table_keys_hiragana(s[0], s[1]);
            assert(s.take(2)[0] == s[0] && s.take(2)[1] == s[1]);
        } else {
            lemma_table_keys_hiragana(s[0], s[0]);
        }
        assert(s.take(1)[0] == s[0]);
        assert(!spec_is_hiragana(s[0]));
        assert(lookup_kana_spec(s).0 is None);
        let t = s.skip(1);
        assert forall|i: int| 0 <= i < t.len() implies !spec_is_hiragana(#[trigger] t[i]) by {
            assert(t[i] == s[i + 1]);
        }
        lemma_no_kana_kept(t);
        assert(seq![s[0]] + t =~= s);
    }
}

/// What `to_romaji` returns: katakana read as hiragana, then each kana
/// spelled in romaji; characters that are not kana are kept as they are.
pub open spec fn spec_to_romaji(s: Seq<char>) -> Seq<char> {
    kana_to_romaji(s.map_values(|c: char| katakana_to_hiragana_char(c)))
}

// ---------------------------------------------------------------------------
// Executable functions
// ---------------------------------------------------------------------------

/// Convert katakana in `input` to hiragana; input without katakana is read
/// as romaji (case-insensitively) and converted to hiragana.
pub fn to_hiragana(input: &str) -> (r: String)
    ensures
        r@ == spec_to_hiragana(input@),
        ascii_kana_text(input@) && !(exists|i: int|
            0 <= i < input@.len() && is_convertible_katakana(#[trigger] input@[i])) ==> r@
            == romaji_to_kana(input@.map_values(|c: char| ascii_lower(c))),
{
    let chars = chars_of(input);
    let mut result = String::new();
    let mut is_katakana = false;
    let mut i: usize = 0;
    while i < chars.len()
        invariant
            0 <= i <= chars.len(),
            chars@ == input@,
            result@ == chars@.take(i as int).map_values(|c: char| katakana_to_hiragana_char(c)),
            is_katakana == exists|j: int| 0 <= j < i && is_convertible_katakana(#[trigger] chars@[j]),
        decreases chars.len() - i,
    {
        let c = chars[i];
        if '\u{30A1}' <= c && c <= '\u{30F6}' {
            let hira = match char_from_u32(c as u32 - 0x60) {
                Some(h) => h,
                None => c,
            };
            push_char(&mut result, hira);
            is_katakana = true;
        } else {
            push_char(&mut result, c);
        }
        i += 1;
        proof {
            assert(chars@.take(i as int) =~= chars@.take(i - 1).push(c));
            assert(result@ =~= chars@.take(i as int).map_values(|c: char| katakana_to_hiragana_char(c)));
        }
    }
    proof {
        assert(chars@.take(chars.len() as int) =~= chars@);
    }
    if is_katakana {
        return result;
    }
    romaji_to_hiragana(input)
}

fn is_consonant(c: char) -> (r: bool)
    ensures
        r == spec_is_consonant(c),
{
    c == 'b' || c == 'c' || c == 'd' || c == 'f' || c == 'g' || c == 'h' || c == 'j' || c == 'k'
        || c == 'l' || c == 'm' || c == 'p' || c == 'q' || c == 'r' || c == 's' || c == 't' || c
        == 'v' || c == 'w' || c == 'x' || c == 'z'
}

fn is_vowel(c: char) -> (r: bool)
    ensures
        r == spec_is_vowel(c),
{
    c == 'a' || c == 'i' || c == 'u' || c == 'e' || c == 'o'
}

/// Romaji table lookup on `chars[i..i + len]`.
fn romaji_lookup(chars: &Vec<char>, i: usize, len: usize) -> (r: Option<Vec<char>>)
    requires
        1 <= len <= 3,
        i + len <= chars.len(),
    ensures
        r.is_some() == romaji_kana(chars@.subrange(i as int, i + len)).is_some(),
        r matches Some(v) ==> romaji_kana(chars@.subrange(i as int, i + len)) == Some(v@),
{
    let ghost k = chars@.subrange(i as int, i + len);
    if len == 1 {
        romaji_kana1_exec(chars[i])
    } else if len == 2 {
        romaji_kana2_exec(chars[i], chars[i + 1])
    } else {
        romaji_kana3_exec(chars[i], chars[i + 1], chars[i + 2])
    }
}

fn romaji_to_hiragana(input: &str) -> (r: String)
    ensures
        r@ == romaji_to_kana(str_to_lowercase(input@)),
        ascii_kana_text(input@) ==> r@ == romaji_to_kana(input@.map_values(|c: char| ascii_lower(c))),
{
    let lower = lowercase(input);
    let chars = chars_of(lower.as_str());
    let ghost s = chars@;
    let mut result = String::new();
    let mut i: usize = 0;
    proof {
        assert(s.skip(0) =~= s);
    }
    while i < chars.len()
        invariant
            0 <= i <= chars.len(),
            s == chars@,
            romaji_to_kana(s) == result@ + romaji_to_kana(s.skip(i as int)),
        decreases chars.len() - i,
    {
        let ghost rest = s.skip(i as int);
        let ghost old_result = result@;
        proof {
            assert(rest.take(1) =~= s.subrange(i as int, i + 1));
            if rest.len() >= 2 {
                assert(rest.take(2) =~= s.subrange(i as int, i + 2));
            }
            if rest.len() >= 3 {
                assert(rest.take(3) =~= s.subrange(i as int, i + 3));
            }
        }
        let mut consumed: usize = 0;
        if chars.len() - i >= 3 {
            if let Some(h) = romaji_lookup(&chars, i, 3) {
                push_chars(&mut result, h.as_slice());
                consumed = 3;
            }
        }
        if consumed == 0 && chars.len() - i >= 2 {
            if let Some(h) = romaji_lookup(&chars, i, 2) {
                push_chars(&mut result, h.as_slice());
                consumed = 2;
            }
        }
        if consumed == 0 {
            if let Some(h) = romaji_lookup(&chars, i, 1) {
                push_chars(&mut result, h.as_slice());
                consumed = 1;
            }
        }
        if consumed == 0 {
            if i + 1 < chars.len() && chars[i] == chars[i + 1] && is_consonant(chars[i])
                && chars[i] != 'n' {
                push_char(&mut result, 'っ');
            } else if chars[i] == 'n' {
                if i + 1 == chars.len() || !is_vowel(chars[i + 1]) {
                    push_char(&mut result, 'ん');
                }
            } else {
                push_char(&mut result, chars[i]);
            }
            consumed = 1;
        }
        proof {
            assert(romaji_step(rest).1 == consumed);
            assert(result@ =~= old_result + romaji_step(rest).0);
            assert(rest.skip(consumed as int) =~= s.skip(i + consumed));
        }
        i += consumed;
    }
    proof {
        assert(s.skip(s.len() as int) =~= Seq::<char>::empty());
        assert(result@ =~= result@ + Seq::<char>::empty());
    }
    result
}

/// Returns true if the character is a hiragana character.
pub fn is_hiragana(c: char) -> (r: bool)
    ensures
        r == spec_is_hiragana(c),
{
    '\u{3040}' <= c && c <= '\u{309F}'
}

/// Returns true if the character is a katakana character.
///
/// Covers the standard Katakana block. Half-width katakana (U+FF66..=U+FF9F)
/// is intentionally excluded — callers that need it should normalize first.
pub fn is_katakana(c: char) -> (r: bool)
    ensures
        r == spec_is_katakana(c),
{
    '\u{30A0}' <= c && c <= '\u{30FF}'
}

/// Returns true if every character in `word` is hiragana.
pub fn is_kana_word(word: &str) -> (r: bool)
    ensures
        r == (forall|i: int| 0 <= i < word@.len() ==> spec_is_hiragana(#[trigger] word@[i])),
{
    let chars = chars_of(word);
    let mut i: usize = 0;
    while i < chars.len()
        invariant
            0 <= i <= chars.len(),
            chars@ == word@,
            forall|j: int| 0 <= j < i ==> spec_is_hiragana(#[trigger] chars@[j]),
        decreases chars.len() - i,
    {
        if !is_hiragana(chars[i]) {
            return false;
        }
        i += 1;
    }
    true
}

/// Returns true if `word` is non-empty and every character is katakana.
pub fn is_katakana_word(word: &str) -> (r: bool)
    ensures
        r == (word@.len() > 0 && forall|i: int|
            0 <= i < word@.len() ==> spec_is_katakana(#[trigger] word@[i])),
{
    let chars = chars_of(word);
    if chars.len() == 0 {
        return false;
    }
    let mut i: usize = 0;
    while i < chars.len()
        invariant
            0 <= i <= chars.len(),
            chars@ == word@,
            chars@.len() > 0,
            forall|j: int| 0 <= j < i ==> spec_is_katakana(#[trigger] chars@[j]),
        decreases chars.len() - i,
    {
        if !is_katakana(chars[i]) {
            return false;
        }
        i += 1;
    }
    true
}

/// Convert hiragana characters in `input` to katakana. Romaji and other
/// scripts are first run through [`to_hiragana`], so `to_katakana("neko")`
/// returns `"ネコ"`.
pub fn to_katakana(input: &str) -> (r: String)
    ensures
        r@ == spec_to_katakana(input@),
{
    let hira = to_hiragana(input);
    let chars = chars_of(hira.as_str());
    let mut out = String::new();
    let mut i: usize = 0;
    while i < chars.len()
        invariant
            0 <= i <= chars.len(),
            chars@ == spec_to_hiragana(input@),
            out@ == chars@.take(i as int).map_values(|c: char| hiragana_to_katakana_char(c)),
        decreases chars.len() - i,
    {
        let c = chars[i];
        if is_hiragana(c) {
            let k = match char_from_u32(c as u32 + 0x60) {
                Some(k) => k,
                None => c,
            };
            push_char(&mut out, k);
        } else {
            push_char(&mut out, c);
        }
        i += 1;
        proof {
            assert(chars@.take(i as int) =~= chars@.take(i - 1).push(c));
            assert(out@ =~= chars@.take(i as int).map_values(|c: char| hiragana_to_katakana_char(c)));
        }
    }
    proof {
        assert(chars@.take(chars.len() as int) =~= chars@);
    }
    out
}

/// Table lookup on `chars[start..]`: the digraph first, then the single
/// kana. Returns the romaji and how many kana it consumed.
fn lookup_kana(chars: &Vec<char>, start: usize) -> (r: (Option<Vec<char>>, usize))
    requires
        start < chars.len(),
    ensures
        r.1 as int == lookup_kana_spec(chars@.skip(start as int)).1,
        r.0.is_some() == lookup_kana_spec(chars@.skip(start as int)).0.is_some(),
        r.0 matches Some(v) ==> lookup_kana_spec(chars@.skip(start as int)).0 == Some(v@),
{
    let ghost sl = chars@.skip(start as int);
    if chars.len() - start >= 2 {
        proof {
            assert(sl.take(2) =~= seq![chars@[start as int], chars@[start + 1]]);
        }
        if let Some(rom) = kana_romaji2_exec(chars[start], chars[start + 1]) {
            return (Some(rom), 2);
        }
    }
    proof {
        assert(sl.take(1) =~= seq![chars@[start as int]]);
    }
    if let Some(rom) = kana_romaji1_exec(chars[start]) {
        return (Some(rom), 1);
    }
    (None, 1)
}

/// The characters of `input` with each katakana letter read as its
/// hiragana letter.
fn katakana_folded(input: &str) -> (r: Vec<char>)
    ensures
        r@ == input@.map_values(|c: char| katakana_to_hiragana_char(c)),
{
    let chars = chars_of(input);
    let mut r: Vec<char> = Vec::new();
    let mut i: usize = 0;
    while i < chars.len()
        invariant
            0 <= i <= chars.len(),
            chars@ == input@,
            r@ == chars@.take(i as int).map_values(|c: char| katakana_to_hiragana_char(c)),
        decreases chars.len() - i,
    {
        let c = chars[i];
        if '\u{30A1}' <= c && c <= '\u{30F6}' {
            let hira = match char_from_u32(c as u32 - 0x60) {
                Some(h) => h,
                None => c,
            };
            r.push(hira);
        } else {
            r.push(c);
        }
        i += 1;
        proof {
            assert(chars@.take(i as int) =~= chars@.take(i - 1).push(c));
            assert(r@ =~= chars@.take(i as int).map_values(|c: char| katakana_to_hiragana_char(c)));
        }
    }
    proof {
        assert(chars@.take(chars.len() as int) =~= chars@);
    }
    r
}

/// Convert kana characters in `input` to lowercase ASCII romaji (Hepburn).
///
/// This is the inverse of [`to_hiragana`] for the syllables in the lookup
/// table. Characters that are not kana are passed through unchanged, which
/// makes the function safe to call on mixed-script strings like `"カフェ au lait"`.
#[verifier::rlimit(40)]
pub fn to_romaji(input: &str) -> (r: String)
    ensures
        r@ == spec_to_romaji(input@),
        (forall|i: int|
            0 <= i < input@.len() ==> !spec_is_hiragana(#[trigger] input@[i]) && !spec_is_katakana(
                input@[i],
            )) ==> r@ == input@,
{
    proof {
        if forall|i: int|
            0 <= i < input@.len() ==> !spec_is_hiragana(#[trigger] input@[i]) && !spec_is_katakana(
                input@[i],
            ) {
            let f = input@.map_values(|c: char| katakana_to_hiragana_char(c));
            assert(f =~= input@);
            lemma_no_kana_kept(input@);
        }
    }
    let chars = katakana_folded(input);
    let ghost s = chars@;
    let mut out = String::new();
    let mut i: usize = 0;
    proof {
        assert(s.skip(0) =~= s);
    }
    while i < chars.len()
        invariant
            0 <= i <= chars.len(),
            s == chars@,
            s == input@.map_values(|c: char| katakana_to_hiragana_char(c)),
            kana_to_romaji(s) == out@ + kana_to_romaji(s.skip(i as int)),
        decreases chars.len() - i,
    {
        let ghost rest = s.skip(i as int);
        let ghost old_out = out@;
        if chars[i] == 'っ' && i + 1 < chars.len() {
            let (rom, consumed) = lookup_kana(&chars, i + 1);
            proof {
                assert(rest.skip(1) =~= s.skip(i + 1));
            }
            if let Some(rom) = rom {
                if rom.len() > 0 {
                    push_char(&mut out, rom[0]);
                }
                push_chars(&mut out, rom.as_slice());
                proof {
                    assert(rest.skip(1 + consumed as int) =~= s.skip(i + 1 + consumed));
                    assert(out@ =~= old_out + (if rom@.len() > 0 {
                        seq![rom@[0]]
                    } else {
                        seq![]
                    }) + rom@);
                }
                i += 1 + consumed;
                continue;
            }
        }
        let (rom, consumed) = lookup_kana(&chars, i);
        match rom {
            Some(rom) => {
                push_chars(&mut out, rom.as_slice());
                proof {
                    assert(rest.skip(consumed as int) =~= s.skip(i + consumed));
                }
                i += consumed;
            },
            None => {
                push_char(&mut out, chars[i]);
                proof {
                    assert(rest.skip(1) =~= s.skip(i + 1));
                    assert(out@ =~= old_out + seq![s[i as int]]);
                }
                i += 1;
            },
        }
    }
    proof {
        assert(s.skip(s.len() as int) =~= Seq::<char>::empty());
        assert(out@ =~= out@ + Seq::<char>::empty());
    }
    out
}

} // verus!
verus! {

// ---------------------------------------------------------------------------
// Round trip on the syllables of the table
// ---------------------------------------------------------------------------

/// A romaji string read in one step converts to that step's kana.
proof fn lemma_single_step(s: Seq<char>)
    requires
        s.len() > 0,
        romaji_step(s).1 == s.len(),
    ensures
        romaji_to_kana(s) == romaji_step(s).0,
{
    assert(s.skip(s.len() as int) =~= Seq::<char>::empty());
    assert(romaji_to_kana(s.skip(s.len() as int)) == Seq::<char>::empty());
    assert(romaji_step(s).0 + Seq::<char>::empty() =~= romaji_step(s).0);
}

#[verifier::rlimit(100)]
proof fn lemma_single_kana_step(a: char)
    requires
        kana_romaji1(a) is Some,
        a != 'ぢ',
        a != 'づ',
    ensures
        romaji_step(kana_romaji1(a).unwrap()) == (seq![a], kana_romaji1(a).unwrap().len() as int),
{
    let r = kana_romaji1(a).unwrap();
    assert(r.take(r.len() as int) =~= r);
}

#[verifier::rlimit(100)]
proof fn lemma_digraph_step(a: char, b: char)
    requires
        kana_romaji2(a, b) is Some,
    ensures
        romaji_step(kana_romaji2(a, b).unwrap()) == (seq![a, b], kana_romaji2(a, b).unwrap().len() as int),
{
    let r = kana_romaji2(a, b).unwrap();
    assert(r.take(r.len() as int) =~= r);
}

/// `to_romaji` is the inverse of `to_hiragana` on the syllables of the
/// table: reading a syllable's romaji back gives the syllable, and the
/// syllable's romaji is what the kana-to-romaji conversion writes for it.
/// The two exceptions are ぢ and づ, whose Hepburn spellings `ji` and `zu`
/// read back as じ and ず.
pub proof fn lemma_syllable_round_trip(h: Seq<char>)
    requires
        kana_romaji(h) is Some,
        h != seq!['ぢ'],
        h != seq!['づ'],
    ensures
        romaji_to_kana(kana_romaji(h).unwrap()) == h,
        kana_to_romaji(h) == kana_romaji(h).unwrap(),
{
    let r = kana_romaji(h).unwrap();
    if h.len() == 1 {
        assert(h =~= seq![h[0]]);
        lemma_single_kana_step(h[0]);
        assert(h.take(1) =~= h);
        assert(h.skip(1) =~= Seq::<char>::empty());
        assert(kana_to_romaji(h.skip(1)) == Seq::<char>::empty());
    } else {
        assert(h.len() == 2);
        assert(h =~= seq![h[0], h[1]]);
        lemma_digraph_step(h[0], h[1]);
        assert(h.take(2) =~= h);
        assert(h.skip(2) =~= Seq::<char>::empty());
        assert(kana_to_romaji(h.skip(2)) == Seq::<char>::empty());
        assert(h[0] != 'っ') by {
            assert(kana_romaji2('っ', h[1]) is None);
        }
    }
    assert(r.len() > 0);
    lemma_single_step(r);
    assert(r + Seq::<char>::empty() =~= r);
}

/// Whether a spelling is lowercase ASCII letters, at least one.
pub open spec fn is_lower_ascii_word(r: Seq<char>) -> bool {
    r.len() > 0 && forall|i: int| 0 <= i < r.len() ==> 'a' <= #[trigger] r[i] <= 'z'
}

#[verifier::rlimit(100)]
proof fn lemma_single_kana_inverts(a: char)
    requires
        kana_romaji1(a) is Some,
        a != 'ぢ',
        a != 'づ',
    ensures
        romaji_kana(kana_romaji1(a).unwrap()) == Some(seq![a]),
        is_lower_ascii_word(kana_romaji1(a).unwrap()),
{
}

#[verifier::rlimit(100)]
proof fn lemma_digraph_inverts(a: char, b: char)
    requires
        kana_romaji2(a, b) is Some,
    ensures
        romaji_kana(kana_romaji2(a, b).unwrap()) == Some(seq![a, b]),
        is_lower_ascii_word(kana_romaji2(a, b).unwrap()),
{
}

/// The two kana tables invert each other: every spelling of the kana →
/// romaji table is lowercase ASCII and the romaji → kana table maps it back
/// to its kana, but for ぢ and づ, whose spellings `ji` and `zu` belong to
/// じ and ず.
pub proof fn lemma_tables_invert(h: Seq<char>)
    requires
        kana_romaji(h) is Some,
        h != seq!['ぢ'],
        h != seq!['づ'],
    ensures
        romaji_kana(kana_romaji(h).unwrap()) == Some(h),
        is_lower_ascii_word(kana_romaji(h).unwrap()),
{
    if h.len() == 1 {
        assert(h =~= seq![h[0]]);
        lemma_single_kana_inverts(h[0]);
    } else {
        assert(h =~= seq![h[0], h[1]]);
        lemma_digraph_inverts(h[0], h[1]);
    }
}

// ---------------------------------------------------------------------------
// The syllables, against the Hepburn system
// ---------------------------------------------------------------------------

/// Whether `r` is a romaji syllable read as the kana `k`: the modified
/// Hepburn spellings of the gojuon, the voiced and half-voiced rows and the
/// youon digraphs, with the Nihon-shiki `di` and `du` for ぢ and づ, `n`
/// for ん and `vu` for ゔ.
pub open spec fn romaji_syllable(r: Seq<char>, k: Seq<char>) -> bool {
    ||| romaji_syllable_1(r, k)
    ||| romaji_syllable_2(r, k)
    ||| romaji_syllable_3(r, k)
    ||| romaji_syllable_4(r, k)
    ||| romaji_syllable_5(r, k)
    ||| romaji_syllable_6(r, k)
    ||| romaji_syllable_7(r, k)
}

/// Part 1 of [`romaji_syllable`].
pub open spec fn romaji_syllable_1(r: Seq<char>, k: Seq<char>) -> bool {
    ||| (r == seq!['a'] && k == seq!['あ'])
    ||| (r == seq!['i'] && k == seq!['い'])
    ||| (r == seq!['u'] && k == seq!['う'])
    ||| (r == seq!['e'] && k == seq!['え'])
    ||| (r == seq!['o'] && k == seq!['お'])
    ||| (r == seq!['k', 'a'] && k == seq!['か'])
    ||| (r == seq!['k', 'i'] && k == seq!['き'])
    ||| (r == seq!['k', 'u'] && k == seq!['く'])
    ||| (r == seq!['k', 'e'] && k == seq!['け'])
    ||| (r == seq!['k', 'o'] && k == seq!['こ'])
    ||| (r == seq!['k', 'y', 'a'] && k == seq!['き', 'ゃ'])
    ||| (r == seq!['k', 'y', 'u'] && k == seq!['き', 'ゅ'])
    ||| (r == seq!['k', 'y', 'o'] && k == seq!['き', 'ょ'])
    ||| (r == seq!['s', 'a'] && k == seq!['さ'])
    ||| (r == seq!['s', 'h', 'i'] && k == seq!['し'])
}

/// Part 2 of [`romaji_syllable`].
pub open spec fn romaji_syllable_2(r: Seq<char>, k: Seq<char>) -> bool {
    ||| (r == seq!['s', 'u'] && k == seq!['す'])
    ||| (r == seq!['s', 'e'] && k == seq!['せ'])
    ||| (r == seq!['s', 'o'] && k == seq!['そ'])
    ||| (r == seq!['s', 'h', 'a'] && k == seq!['し', 'ゃ'])
    ||| (r == seq!['s', 'h', 'u'] && k == seq!['し', 'ゅ'])
    ||| (r == seq!['s', 'h', 'o'] && k == seq!['し', 'ょ'])
    ||| (r == seq!['t', 'a'] && k == seq!['た'])
    ||| (r == seq!['c', 'h', 'i'] && k == seq!['ち'])
    ||| (r == seq!['t', 's', 'u'] && k == seq!['つ'])
    ||| (r == seq!['t', 'e'] && k == seq!['て'])
    ||| (r == seq!['t', 'o'] && k == seq!['と'])
    ||| (r == seq!['c', 'h', 'a'] && k == seq!['ち', 'ゃ'])
    ||| (r == seq!['c', 'h', 'u'] && k == seq!['ち', 'ゅ'])
    ||| (r == seq!['c', 'h', 'o'] && k == seq!['ち', 'ょ'])
    ||| (r == seq!['n', 'a'] && k == seq!['な'])
}

/// Part 3 of [`romaji_syllable`].
pub open spec fn romaji_syllable_3(r: Seq<char>, k: Seq<char>) -> bool {
    ||| (r == seq!['n', 'i'] && k == seq!['に'])
    ||| (r == seq!['n', 'u'] && k == seq!['ぬ'])
    ||| (r == seq!['n', 'e'] && k == seq!['ね'])
    ||| (r == seq!['n', 'o'] && k == seq!['の'])
    ||| (r == seq!['n', 'y', 'a'] && k == seq!['に', 'ゃ'])
    ||| (r == seq!['n', 'y', 'u'] && k == seq!['に', 'ゅ'])
    ||| (r == seq!['n', 'y', 'o'] && k == seq!['に', 'ょ'])
    ||| (r == seq!['h', 'a'] && k == seq!['は'])
    ||| (r == seq!['h', 'i'] && k == seq!['ひ'])
    ||| (r == seq!['f', 'u'] && k == seq!['ふ'])
    ||| (r == seq!['h', 'e'] && k == seq!['へ'])
    ||| (r == seq!['h', 'o'] && k == seq!['ほ'])
    ||| (r == seq!['h', 'y', 'a'] && k == seq!['ひ', 'ゃ'])
    ||| (r == seq!['h', 'y', 'u'] && k == seq!['ひ', 'ゅ'])
    ||| (r == seq!['h', 'y', 'o'] && k == seq!['ひ', 'ょ'])
}

/// Part 4 of [`romaji_syllable`].
pub open spec fn romaji_syllable_4(r: Seq<char>, k: Seq<char>) -> bool {
    ||| (r == seq!['m', 'a'] && k == seq!['ま'])
    ||| (r == seq!['m', 'i'] && k == seq!['み'])
    ||| (r == seq!['m', 'u'] && k == seq!['む'])
    ||| (r == seq!['m', 'e'] && k == seq!['め'])
    ||| (r == seq!['m', 'o'] && k == seq!['も'])
    ||| (r == seq!['m', 'y', 'a'] && k == seq!['み', 'ゃ'])
    ||| (r == seq!['m', 'y', 'u'] && k == seq!['み', 'ゅ'])
    ||| (r == seq!['m', 'y', 'o'] && k == seq!['み', 'ょ'])
    ||| (r == seq!['y', 'a'] && k == seq!['や'])
    ||| (r == seq!['y', 'u'] && k == seq!['ゆ'])
    ||| (r == seq!['y', 'o'] && k == seq!['よ'])
    ||| (r == seq!['r', 'a'] && k == seq!['ら'])
    ||| (r == seq!['r', 'i'] && k == seq!['り'])
    ||| (r == seq!['r', 'u'] && k == seq!['る'])
    ||| (r == seq!['r', 'e'] && k == seq!['れ'])
}

/// Part 5 of [`romaji_syllable`].
pub open spec fn romaji_syllable_5(r: Seq<char>, k: Seq<char>) -> bool {
    ||| (r == seq!['r', 'o'] && k == seq!['ろ'])
    ||| (r == seq!['r', 'y', 'a'] && k == seq!['り', 'ゃ'])
    ||| (r == seq!['r', 'y', 'u'] && k == seq!['り', 'ゅ'])
    ||| (r == seq!['r', 'y', 'o'] && k == seq!['り', 'ょ'])
    ||| (r == seq!['w', 'a'] && k == seq!['わ'])
    ||| (r == seq!['w', 'o'] && k == seq!['を'])
    ||| (r == seq!['g', 'a'] && k == seq!['が'])
    ||| (r == seq!['g', 'i'] && k == seq!['ぎ'])
    ||| (r == seq!['g', 'u'] && k == seq!['ぐ'])
    ||| (r == seq!['g', 'e'] && k == seq!['げ'])
    ||| (r == seq!['g', 'o'] && k == seq!['ご'])
    ||| (r == seq!['g', 'y', 'a'] && k == seq!['ぎ', 'ゃ'])
    ||| (r == seq!['g', 'y', 'u'] && k == seq!['ぎ', 'ゅ'])
    ||| (r == seq!['g', 'y', 'o'] && k == seq!['ぎ', 'ょ'])
    ||| (r == seq!['z', 'a'] && k == seq!['ざ'])
}

/// Part 6 of [`romaji_syllable`].
pub open spec fn romaji_syllable_6(r: Seq<char>, k: Seq<char>) -> bool {
    ||| (r == seq!['j', 'i'] && k == seq!['じ'])
    ||| (r == seq!['z', 'u'] && k == seq!['ず'])
    ||| (r == seq!['z', 'e'] && k == seq!['ぜ'])
    ||| (r == seq!['z', 'o'] && k == seq!['ぞ'])
    ||| (r == seq!['j', 'a'] && k == seq!['じ', 'ゃ'])
    ||| (r == seq!['j', 'u'] && k == seq!['じ', 'ゅ'])
    ||| (r == seq!['j', 'o'] && k == seq!['じ', 'ょ'])
    ||| (r == seq!['d', 'a'] && k == seq!['だ'])
    ||| (r == seq!['d', 'i'] && k == seq!['ぢ'])
    ||| (r == seq!['d', 'u'] && k == seq!['づ'])
    ||| (r == seq!['d', 'e'] && k == seq!['で'])
    ||| (r == seq!['d', 'o'] && k == seq!['ど'])
    ||| (r == seq!['b', 'a'] && k == seq!['ば'])
    ||| (r == seq!['b', 'i'] && k == seq!['び'])
    ||| (r == seq!['b', 'u'] && k == seq!['ぶ'])
}

/// Part 7 of [`romaji_syllable`].
pub open spec fn romaji_syllable_7(r: Seq<char>, k: Seq<char>) -> bool {
    ||| (r == seq!['b', 'e'] && k == seq!['べ'])
    ||| (r == seq!['b', 'o'] && k == seq!['ぼ'])
    ||| (r == seq!['b', 'y', 'a'] && k == seq!['び', 'ゃ'])
    ||| (r == seq!['b', 'y', 'u'] && k == seq!['び', 'ゅ'])
    ||| (r == seq!['b', 'y', 'o'] && k == seq!['び', 'ょ'])
    ||| (r == seq!['p', 'a'] && k == seq!['ぱ'])
    ||| (r == seq!['p', 'i'] && k == seq!['ぴ'])
    ||| (r == seq!['p', 'u'] && k == seq!['ぷ'])
    ||| (r == seq!['p', 'e'] && k == seq!['ぺ'])
    ||| (r == seq!['p', 'o'] && k == seq!['ぽ'])
    ||| (r == seq!['p', 'y', 'a'] && k == seq!['ぴ', 'ゃ'])
    ||| (r == seq!['p', 'y', 'u'] && k == seq!['ぴ', 'ゅ'])
    ||| (r == seq!['p', 'y', 'o'] && k == seq!['ぴ', 'ょ'])
    ||| (r == seq!['n'] && k == seq!['ん'])
    ||| (r == seq!['v', 'u'] && k == seq!['ゔ'])
}

/// Whether `r` is the Hepburn spelling of the kana syllable `k`; ぢ and
/// づ are spelled as じ and ず are, `ji` and `zu`.
pub open spec fn hepburn_spelling(k: Seq<char>, r: Seq<char>) -> bool {
    ||| hepburn_spelling_1(k, r)
    ||| hepburn_spelling_2(k, r)
    ||| hepburn_spelling_3(k, r)
    ||| hepburn_spelling_4(k, r)
    ||| hepburn_spelling_5(k, r)
    ||| hepburn_spelling_6(k, r)
    ||| hepburn_spelling_7(k, r)
}

/// Part 1 of [`hepburn_spelling`].
pub open spec fn hepburn_spelling_1(k: Seq<char>, r: Seq<char>) -> bool {
    ||| (k == seq!['あ'] && r == seq!['a'])
    ||| (k == seq!['い'] && r == seq!['i'])
    ||| (k == seq!['う'] && r == seq!['u'])
    ||| (k == seq!['え'] && r == seq!['e'])
    ||| (k == seq!['お'] && r == seq!['o'])
    ||| (k == seq!['か'] && r == seq!['k', 'a'])
    ||| (k == seq!['き'] && r == seq!['k', 'i'])
    ||| (k == seq!['く'] && r == seq!['k', 'u'])
    ||| (k == seq!['け'] && r == seq!['k', 'e'])
    ||| (k == seq!['こ'] && r == seq!['k', 'o'])
    ||| (k == seq!['き', 'ゃ'] && r == seq!['k', 'y', 'a'])
    ||| (k == seq!['き', 'ゅ'] && r == seq!['k', 'y', 'u'])
    ||| (k == seq!['き', 'ょ'] && r == seq!['k', 'y', 'o'])
    ||| (k == seq!['さ'] && r == seq!['s', 'a'])
    ||| (k == seq!['し'] && r == seq!['s', 'h', 'i'])
}

/// Part 2 of [`hepburn_spelling`].
pub open spec fn hepburn_spelling_2(k: Seq<char>, r: Seq<char>) -> bool {
    ||| (k == seq!['す'] && r == seq!['s', 'u'])
    ||| (k == seq!['せ'] && r == seq!['s', 'e'])
    ||| (k == seq!['そ'] && r == seq!['s', 'o'])
    ||| (k == seq!['し', 'ゃ'] && r == seq!['s', 'h', 'a'])
    ||| (k == seq!['し', 'ゅ'] && r == seq!['s', 'h', 'u'])
    ||| (k == seq!['し', 'ょ'] && r == seq!['s', 'h', 'o'])
    ||| (k == seq!['た'] && r == seq!['t', 'a'])
    ||| (k == seq!['ち'] && r == seq!['c', 'h', 'i'])
    ||| (k == seq!['つ'] && r == seq!['t', 's', 'u'])
    ||| (k == seq!['て'] && r == seq!['t', 'e'])
    ||| (k == seq!['と'] && r == seq!['t', 'o'])
    ||| (k == seq!['ち', 'ゃ'] && r == seq!['c', 'h', 'a'])
    ||| (k == seq!['ち', 'ゅ'] && r == seq!['c', 'h', 'u'])
    ||| (k == seq!['ち', 'ょ'] && r == seq!['c', 'h', 'o'])
    ||| (k == seq!['な'] && r == seq!['n', 'a'])
}

/// Part 3 of [`hepburn_spelling`].
pub open spec fn hepburn_spelling_3(k: Seq<char>, r: Seq<char>) -> bool {
    ||| (k == seq!['に'] && r == seq!['n', 'i'])
    ||| (k == seq!['ぬ'] && r == seq!['n', 'u'])
    ||| (k == seq!['ね'] && r == seq!['n', 'e'])
    ||| (k == seq!['の'] && r == seq!['n', 'o'])
    ||| (k == seq!['に', 'ゃ'] && r == seq!['n', 'y', 'a'])
    ||| (k == seq!['に', 'ゅ'] && r == seq!['n', 'y', 'u'])
    ||| (k == seq!['に', 'ょ'] && r == seq!['n', 'y', 'o'])
    ||| (k == seq!['は'] && r == seq!['h', 'a'])
    ||| (k == seq!['ひ'] && r == seq!['h', 'i'])
    ||| (k == seq!['ふ'] && r == seq!['f', 'u'])
    ||| (k == seq!['へ'] && r == seq!['h', 'e'])
    ||| (k == seq!['ほ'] && r == seq!['h', 'o'])
    ||| (k == seq!['ひ', 'ゃ'] && r == seq!['h', 'y', 'a'])
    ||| (k == seq!['ひ', 'ゅ'] && r == seq!['h', 'y', 'u'])
    ||| (k == seq!['ひ', 'ょ'] && r == seq!['h', 'y', 'o'])
}

/// Part 4 of [`hepburn_spelling`].
pub open spec fn hepburn_spelling_4(k: Seq<char>, r: Seq<char>) -> bool {
    ||| (k == seq!['ま'] && r == seq!['m', 'a'])
    ||| (k == seq!['み'] && r == seq!['m', 'i'])
    ||| (k == seq!['む'] && r == seq!['m', 'u'])
    ||| (k == seq!['め'] && r == seq!['m', 'e'])
    ||| (k == seq!['も'] && r == seq!['m', 'o'])
    ||| (k == seq!['み', 'ゃ'] && r == seq!['m', 'y', 'a'])
    ||| (k == seq!['み', 'ゅ'] && r == seq!['m', 'y', 'u'])
    ||| (k == seq!['み', 'ょ'] && r == seq!['m', 'y', 'o'])
    ||| (k == seq!['や'] && r == seq!['y', 'a'])
    ||| (k == seq!['ゆ'] && r == seq!['y', 'u'])
    ||| (k == seq!['よ'] && r == seq!['y', 'o'])
    ||| (k == seq!['ら'] && r == seq!['r', 'a'])
    ||| (k == seq!['り'] && r == seq!['r', 'i'])
    ||| (k == seq!['る'] && r == seq!['r', 'u'])
    ||| (k == seq!['れ'] && r == seq!['r', 'e'])
}

/// Part 5 of [`hepburn_spelling`].
pub open spec fn hepburn_spelling_5(k: Seq<char>, r: Seq<char>) -> bool {
    ||| (k == seq!['ろ'] && r == seq!['r', 'o'])
    ||| (k == seq!['り', 'ゃ'] && r == seq!['r', 'y', 'a'])
    ||| (k == seq!['り', 'ゅ'] && r == seq!['r', 'y', 'u'])
    ||| (k == seq!['り', 'ょ'] && r == seq!['r', 'y', 'o'])
    ||| (k == seq!['わ'] && r == seq!['w', 'a'])
    ||| (k == seq!['を'] && r == seq!['w', 'o'])
    ||| (k == seq!['ん'] && r == seq!['n'])
    ||| (k == seq!['が'] && r == seq!['g', 'a'])
    ||| (k == seq!['ぎ'] && r == seq!['g', 'i'])
    ||| (k == seq!['ぐ'] && r == seq!['g', 'u'])
    ||| (k == seq!['げ'] && r == seq!['g', 'e'])
    ||| (k == seq!['ご'] && r == seq!['g', 'o'])
    ||| (k == seq!['ぎ', 'ゃ'] && r == seq!['g', 'y', 'a'])
    ||| (k == seq!['ぎ', 'ゅ'] && r == seq!['g', 'y', 'u'])
    ||| (k == seq!['ぎ', 'ょ'] && r == seq!['g', 'y', 'o'])
}

/// Part 6 of [`hepburn_spelling`].
pub open spec fn hepburn_spelling_6(k: Seq<char>, r: Seq<char>) -> bool {
    ||| (k == seq!['ざ'] && r == seq!['z', 'a'])
    ||| (k == seq!['じ'] && r == seq!['j', 'i'])
    ||| (k == seq!['ず'] && r == seq!['z', 'u'])
    ||| (k == seq!['ぜ'] && r == seq!['z', 'e'])
    ||| (k == seq!['ぞ'] && r == seq!['z', 'o'])
    ||| (k == seq!['じ', 'ゃ'] && r == seq!['j', 'a'])
    ||| (k == seq!['じ', 'ゅ'] && r == seq!['j', 'u'])
    ||| (k == seq!['じ', 'ょ'] && r == seq!['j', 'o'])
    ||| (k == seq!['だ'] && r == seq!['d', 'a'])
    ||| (k == seq!['ぢ'] && r == seq!['j', 'i'])
    ||| (k == seq!['づ'] && r == seq!['z', 'u'])
    ||| (k == seq!['で'] && r == seq!['d', 'e'])
    ||| (k == seq!['ど'] && r == seq!['d', 'o'])
    ||| (k == seq!['ば'] && r == seq!['b', 'a'])
    ||| (k == seq!['び'] && r == seq!['b', 'i'])
}

/// Part 7 of [`hepburn_spelling`].
pub open spec fn hepburn_spelling_7(k: Seq<char>, r: Seq<char>) -> bool {
    ||| (k == seq!['ぶ'] && r == seq!['b', 'u'])
    ||| (k == seq!['べ'] && r == seq!['b', 'e'])
    ||| (k == seq!['ぼ'] && r == seq!['b', 'o'])
    ||| (k == seq!['び', 'ゃ'] && r == seq!['b', 'y', 'a'])
    ||| (k == seq!['び', 'ゅ'] && r == seq!['b', 'y', 'u'])
    ||| (k == seq!['び', 'ょ'] && r == seq!['b', 'y', 'o'])
    ||| (k == seq!['ぱ'] && r == seq!['p', 'a'])
    ||| (k == seq!['ぴ'] && r == seq!['p', 'i'])
    ||| (k == seq!['ぷ'] && r == seq!['p', 'u'])
    ||| (k == seq!['ぺ'] && r == seq!['p', 'e'])
    ||| (k == seq!['ぽ'] && r == seq!['p', 'o'])
    ||| (k == seq!['ぴ', 'ゃ'] && r == seq!['p', 'y', 'a'])
    ||| (k == seq!['ぴ', 'ゅ'] && r == seq!['p', 'y', 'u'])
    ||| (k == seq!['ぴ', 'ょ'] && r == seq!['p', 'y', 'o'])
    ||| (k == seq!['ゔ'] && r == seq!['v', 'u'])
}

/// A romaji syllable that the table reads in one step is converted whole.
proof fn lemma_one_syllable(r: Seq<char>)
    requires
        1 <= r.len() <= 3,
        romaji_kana(r) is Some,
    ensures
        romaji_to_kana(r) == romaji_kana(r).unwrap(),
{
    assert(r.take(r.len() as int) =~= r);
    assert(romaji_step(r) == (romaji_kana(r).unwrap(), r.len() as int));
    lemma_single_step(r);
}

#[verifier::rlimit(100)]
proof fn lemma_romaji_syllables_1()
    ensures
        forall|r: Seq<char>, k: Seq<char>|
            #[trigger] romaji_syllable_1(r, k) ==> 1 <= r.len() <= 3 && romaji_kana(r) == Some(k),
{
}

#[verifier::rlimit(100)]
proof fn lemma_hepburn_spellings_1()
    ensures
        forall|k: Seq<char>, r: Seq<char>|
            #[trigger] hepburn_spelling_1(k, r) ==> kana_romaji(k) == Some(r),
{
}

#[verifier::rlimit(100)]
proof fn lemma_romaji_syllables_2()
    ensures
        forall|r: Seq<char>, k: Seq<char>|
            #[trigger] romaji_syllable_2(r, k) ==> 1 <= r.len() <= 3 && romaji_kana(r) == Some(k),
{
}

#[verifier::rlimit(100)]
proof fn lemma_hepburn_spellings_2()
    ensures
        forall|k: Seq<char>, r: Seq<char>|
            #[trigger] hepburn_spelling_2(k, r) ==> kana_romaji(k) == Some(r),
{
}

#[verifier::rlimit(100)]
proof fn lemma_romaji_syllables_3()
    ensures
        forall|r: Seq<char>, k: Seq<char>|
            #[trigger] romaji_syllable_3(r, k) ==> 1 <= r.len() <= 3 && romaji_kana(r) == Some(k),
{
}

#[verifier::rlimit(100)]
proof fn lemma_hepburn_spellings_3()
    ensures
        forall|k: Seq<char>, r: Seq<char>|
            #[trigger] hepburn_spelling_3(k, r) ==> kana_romaji(k) == Some(r),
{
}

#[verifier::rlimit(100)]
proof fn lemma_romaji_syllables_4()
    ensures
        forall|r: Seq<char>, k: Seq<char>|
            #[trigger] romaji_syllable_4(r, k) ==> 1 <= r.len() <= 3 && romaji_kana(r) == Some(k),
{
}

#[verifier::rlimit(100)]
proof fn lemma_hepburn_spellings_4()
    ensures
        forall|k: Seq<char>, r: Seq<char>|
            #[trigger] hepburn_spelling_4(k, r) ==> kana_romaji(k) == Some(r),
{
}

#[verifier::rlimit(100)]
proof fn lemma_romaji_syllables_5()
    ensures
        forall|r: Seq<char>, k: Seq<char>|
            #[trigger] romaji_syllable_5(r, k) ==> 1 <= r.len() <= 3 && romaji_kana(r) == Some(k),
{
}

#[verifier::rlimit(100)]
proof fn lemma_hepburn_spellings_5()
    ensures
        forall|k: Seq<char>, r: Seq<char>|
            #[trigger] hepburn_spelling_5(k, r) ==> kana_romaji(k) == Some(r),
{
}

#[verifier::rlimit(100)]
proof fn lemma_romaji_syllables_6()
    ensures
        forall|r: Seq<char>, k: Seq<char>|
            #[trigger] romaji_syllable_6(r, k) ==> 1 <= r.len() <= 3 && romaji_kana(r) == Some(k),
{
}

#[verifier::rlimit(100)]
proof fn lemma_hepburn_spellings_6()
    ensures
        forall|k: Seq<char>, r: Seq<char>|
            #[trigger] hepburn_spelling_6(k, r) ==> kana_romaji(k) == Some(r),
{
}

#[verifier::rlimit(100)]
proof fn lemma_romaji_syllables_7()
    ensures
        forall|r: Seq<char>, k: Seq<char>|
            #[trigger] romaji_syllable_7(r, k) ==> 1 <= r.len() <= 3 && romaji_kana(r) == Some(k),
{
}

#[verifier::rlimit(100)]
proof fn lemma_hepburn_spellings_7()
    ensures
        forall|k: Seq<char>, r: Seq<char>|
            #[trigger] hepburn_spelling_7(k, r) ==> kana_romaji(k) == Some(r),
{
}

#[verifier::rlimit(100)]
proof fn lemma_kana_table_listed_1(a: char)
    requires
        kana_romaji1(a) is Some,
    ensures
        hepburn_spelling(seq![a], kana_romaji1(a).unwrap()),
{
}

#[verifier::rlimit(100)]
proof fn lemma_kana_table_listed_2(a: char, b: char)
    requires
        kana_romaji2(a, b) is Some,
    ensures
        hepburn_spelling(seq![a, b], kana_romaji2(a, b).unwrap()),
{
}

#[verifier::rlimit(100)]
proof fn lemma_romaji_table_listed_1(a: char)
    requires
        romaji_kana1(a) is Some,
    ensures
        romaji_syllable(seq![a], romaji_kana1(a).unwrap()),
{
}

#[verifier::rlimit(100)]
proof fn lemma_romaji_table_listed_2(a: char, b: char)
    requires
        romaji_kana2(a, b) is Some,
    ensures
        romaji_syllable(seq![a, b], romaji_kana2(a, b).unwrap()),
{
}

#[verifier::rlimit(100)]
proof fn lemma_romaji_table_listed_3(a: char, b: char, c: char)
    requires
        romaji_kana3(a, b, c) is Some,
    ensures
        romaji_syllable(seq![a, b, c], romaji_kana3(a, b, c).unwrap()),
{
}

/// The kana table spells only the listed syllables, each as the Hepburn
/// list does, and the romaji table reads only the listed syllables of up
/// to three letters: neither table holds anything beside them.
pub proof fn lemma_tables_hold_only_listed(k: Seq<char>, r: Seq<char>)
    ensures
        kana_romaji(k) is Some ==> hepburn_spelling(k, kana_romaji(k).unwrap()),
        1 <= r.len() <= 3 && romaji_kana(r) is Some ==> romaji_syllable(r, romaji_kana(r).unwrap()),
{
    if kana_romaji(k) is Some {
        if k.len() == 1 {
            assert(k =~= seq![k[0]]);
            lemma_kana_table_listed_1(k[0]);
        } else {
            assert(k =~= seq![k[0], k[1]]);
            lemma_kana_table_listed_2(k[0], k[1]);
        }
    }
    if 1 <= r.len() <= 3 && romaji_kana(r) is Some {
        if r.len() == 1 {
            assert(r =~= seq![r[0]]);
            lemma_romaji_table_listed_1(r[0]);
        } else if r.len() == 2 {
            assert(r =~= seq![r[0], r[1]]);
            lemma_romaji_table_listed_2(r[0], r[1]);
        } else {
            assert(r =~= seq![r[0], r[1], r[2]]);
            lemma_romaji_table_listed_3(r[0], r[1], r[2]);
        }
    }
}

/// Every romaji syllable converts to its kana: `to_hiragana("se")` is せ,
/// `to_hiragana("ze")` is ぜ and `to_hiragana("du")` is づ.
pub proof fn lemma_romaji_syllables(r: Seq<char>, k: Seq<char>)
    requires
        romaji_syllable(r, k),
    ensures
        romaji_to_kana(r) == k,
{
    lemma_romaji_syllables_1();
    lemma_romaji_syllables_2();
    lemma_romaji_syllables_3();
    lemma_romaji_syllables_4();
    lemma_romaji_syllables_5();
    lemma_romaji_syllables_6();
    lemma_romaji_syllables_7();
    lemma_one_syllable(r);
}

/// Every kana syllable converts to its Hepburn spelling: `to_romaji("せ")`
/// is `se`, `to_romaji("づ")` is `zu` and `to_romaji("ぢ")` is `ji`.
pub proof fn lemma_hepburn_spellings(k: Seq<char>, r: Seq<char>)
    requires
        hepburn_spelling(k, r),
    ensures
        kana_to_romaji(k) == r,
{
    lemma_hepburn_spellings_1();
    lemma_hepburn_spellings_2();
    lemma_hepburn_spellings_3();
    lemma_hepburn_spellings_4();
    lemma_hepburn_spellings_5();
    lemma_hepburn_spellings_6();
    lemma_hepburn_spellings_7();
    lemma_one_kana(k);
}

/// A kana syllable of the table converts to its spelling.
proof fn lemma_one_kana(h: Seq<char>)
    requires
        kana_romaji(h) is Some,
    ensures
        kana_to_romaji(h) == kana_romaji(h).unwrap(),
{
    if h == seq!['ぢ'] || h == seq!['づ'] {
        assert(h.take(1) =~= h);
        assert(h.skip(1) =~= Seq::<char>::empty());
        assert(kana_to_romaji(h.skip(1)) == Seq::<char>::empty());
        assert(kana_romaji(h).unwrap() + Seq::<char>::empty() =~= kana_romaji(h).unwrap());
    } else {
        lemma_syllable_round_trip(h);
    }
}

} // verus!
