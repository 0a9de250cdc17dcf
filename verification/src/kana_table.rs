use vstd::prelude::*;

verus! {

/// Romaji spellings of one letter and their hiragana.
pub open spec fn romaji_kana1(a: char) -> Option<Seq<char>> {
    match a {
        'a' => Some(seq!['あ']),
        'i' => Some(seq!['い']),
        'u' => Some(seq!['う']),
        'e' => Some(seq!['え']),
        'o' => Some(seq!['お']),
        'n' => Some(seq!['ん']),
        _ => None,
    }
}

/// Romaji spellings of two letters and their hiragana.
pub open spec fn romaji_kana2(a: char, b: char) -> Option<Seq<char>> {
    match (a, b) {
        ('k', 'a') => Some(seq!['か']),
        ('k', 'i') => Some(seq!['き']),
        ('k', 'u') => Some(seq!['く']),
        ('k', 'e') => Some(seq!['け']),
        ('k', 'o') => Some(seq!['こ']),
        ('s', 'a') => Some(seq!['さ']),
        ('s', 'u') => Some(seq!['す']),
        ('s', 'e') => Some(seq!['せ']),
        ('s', 'o') => Some(seq!['そ']),
        ('t', 'a') => Some(seq!['た']),
        ('t', 'e') => Some(seq!['て']),
        ('t', 'o') => Some(seq!['と']),
        ('n', 'a') => Some(seq!['な']),
        ('n', 'i') => Some(seq!['に']),
        ('n', 'u') => Some(seq!['ぬ']),
        ('n', 'e') => Some(seq!['ね']),
        ('n', 'o') => Some(seq!['の']),
        ('h', 'a') => Some(seq!['は']),
        ('h', 'i') => Some(seq!['ひ']),
        ('f', 'u') => Some(seq!['ふ']),
        ('h', 'e') => Some(seq!['へ']),
        ('h', 'o') => Some(seq!['ほ']),
        ('m', 'a') => Some(seq!['ま']),
        ('m', 'i') => Some(seq!['み']),
        ('m', 'u') => Some(seq!['む']),
        ('m', 'e') => Some(seq!['め']),
        ('m', 'o') => Some(seq!['も']),
        ('y', 'a') => Some(seq!['や']),
        ('y', 'u') => Some(seq!['ゆ']),
        ('y', 'o') => Some(seq!['よ']),
        ('r', 'a') => Some(seq!['ら']),
        ('r', 'i') => Some(seq!['り']),
        ('r', 'u') => Some(seq!['る']),
        ('r', 'e') => Some(seq!['れ']),
        ('r', 'o') => Some(seq!['ろ']),
        ('w', 'a') => Some(seq!['わ']),
        ('w', 'o') => Some(seq!['を']),
        ('g', 'a') => Some(seq!['が']),
        ('g', 'i') => Some(seq!['ぎ']),
        ('g', 'u') => Some(seq!['ぐ']),
        ('g', 'e') => Some(seq!['げ']),
        ('g', 'o') => Some(seq!['ご']),
        ('z', 'a') => Some(seq!['ざ']),
        ('j', 'i') => Some(seq!['じ']),
        ('z', 'u') => Some(seq!['ず']),
        ('z', 'e') => Some(seq!['ぜ']),
        ('z', 'o') => Some(seq!['ぞ']),
        ('j', 'a') => Some(seq!['じ', 'ゃ']),
        ('j', 'u') => Some(seq!['じ', 'ゅ']),
        ('j', 'o') => Some(seq!['じ', 'ょ']),
        ('d', 'a') => Some(seq!['だ']),
        ('d', 'i') => Some(seq!['ぢ']),
        ('d', 'u') => Some(seq!['づ']),
        ('d', 'e') => Some(seq!['で']),
        ('d', 'o') => Some(seq!['ど']),
        ('b', 'a') => Some(seq!['ば']),
        ('b', 'i') => Some(seq!['び']),
        ('b', 'u') => Some(seq!['ぶ']),
        ('b', 'e') => Some(seq!['べ']),
        ('b', 'o') => Some(seq!['ぼ']),
        ('p', 'a') => Some(seq!['ぱ']),
        ('p', 'i') => Some(seq!['ぴ']),
        ('p', 'u') => Some(seq!['ぷ']),
        ('p', 'e') => Some(seq!['ぺ']),
        ('p', 'o') => Some(seq!['ぽ']),
        ('v', 'u') => Some(seq!['ゔ']),
        _ => None,
    }
}

/// Romaji spellings of three letters and their hiragana.
pub open spec fn romaji_kana3(a: char, b: char, c: char) -> Option<Seq<char>> {
    match (a, b, c) {
        ('k', 'y', 'a') => Some(seq!['き', 'ゃ']),
        ('k', 'y', 'u') => Some(seq!['き', 'ゅ']),
        ('k', 'y', 'o') => Some(seq!['き', 'ょ']),
        ('s', 'h', 'i') => Some(seq!['し']),
        ('s', 'h', 'a') => Some(seq!['し', 'ゃ']),
        ('s', 'h', 'u') => Some(seq!['し', 'ゅ']),
        ('s', 'h', 'o') => Some(seq!['し', 'ょ']),
        ('c', 'h', 'i') => Some(seq!['ち']),
        ('t', 's', 'u') => Some(seq!['つ']),
        ('c', 'h', 'a') => Some(seq!['ち', 'ゃ']),
        ('c', 'h', 'u') => Some(seq!['ち', 'ゅ']),
        ('c', 'h', 'o') => Some(seq!['ち', 'ょ']),
        ('n', 'y', 'a') => Some(seq!['に', 'ゃ']),
        ('n', 'y', 'u') => Some(seq!['に', 'ゅ']),
        ('n', 'y', 'o') => Some(seq!['に', 'ょ']),
        ('h', 'y', 'a') => Some(seq!['ひ', 'ゃ']),
        ('h', 'y', 'u') => Some(seq!['ひ', 'ゅ']),
        ('h', 'y', 'o') => Some(seq!['ひ', 'ょ']),
        ('m', 'y', 'a') => Some(seq!['み', 'ゃ']),
        ('m', 'y', 'u') => Some(seq!['み', 'ゅ']),
        ('m', 'y', 'o') => Some(seq!['み', 'ょ']),
        ('r', 'y', 'a') => Some(seq!['り', 'ゃ']),
        ('r', 'y', 'u') => Some(seq!['り', 'ゅ']),
        ('r', 'y', 'o') => Some(seq!['り', 'ょ']),
        ('g', 'y', 'a') => Some(seq!['ぎ', 'ゃ']),
        ('g', 'y', 'u') => Some(seq!['ぎ', 'ゅ']),
        ('g', 'y', 'o') => Some(seq!['ぎ', 'ょ']),
        ('b', 'y', 'a') => Some(seq!['び', 'ゃ']),
        ('b', 'y', 'u') => Some(seq!['び', 'ゅ']),
        ('b', 'y', 'o') => Some(seq!['び', 'ょ']),
        ('p', 'y', 'a') => Some(seq!['ぴ', 'ゃ']),
        ('p', 'y', 'u') => Some(seq!['ぴ', 'ゅ']),
        ('p', 'y', 'o') => Some(seq!['ぴ', 'ょ']),
        _ => None,
    }
}

/// Romaji spellings of four letters (explicit small tsu) and their hiragana.
pub open spec fn romaji_kana4(a: char, b: char, c: char, d: char) -> Option<Seq<char>> {
    match (a, b, c, d) {
        ('x', 't', 's', 'u') => Some(seq!['っ']),
        ('l', 't', 's', 'u') => Some(seq!['っ']),
        _ => None,
    }
}

/// Single kana and their Hepburn romaji.
pub open spec fn kana_romaji1(a: char) -> Option<Seq<char>> {
    match a {
        'あ' => Some(seq!['a']),
        'い' => Some(seq!['i']),
        'う' => Some(seq!['u']),
        'え' => Some(seq!['e']),
        'お' => Some(seq!['o']),
        'か' => Some(seq!['k', 'a']),
        'き' => Some(seq!['k', 'i']),
        'く' => Some(seq!['k', 'u']),
        'け' => Some(seq!['k', 'e']),
        'こ' => Some(seq!['k', 'o']),
        'さ' => Some(seq!['s', 'a']),
        'し' => Some(seq!['s', 'h', 'i']),
        'す' => Some(seq!['s', 'u']),
        'せ' => Some(seq!['s', 'e']),
        'そ' => Some(seq!['s', 'o']),
        'た' => Some(seq!['t', 'a']),
        'ち' => Some(seq!['c', 'h', 'i']),
        'つ' => Some(seq!['t', 's', 'u']),
        'て' => Some(seq!['t', 'e']),
        'と' => Some(seq!['t', 'o']),
        'な' => Some(seq!['n', 'a']),
        'に' => Some(seq!['n', 'i']),
        'ぬ' => Some(seq!['n', 'u']),
        'ね' => Some(seq!['n', 'e']),
        'の' => Some(seq!['n', 'o']),
        'は' => Some(seq!['h', 'a']),
        'ひ' => Some(seq!['h', 'i']),
        'ふ' => Some(seq!['f', 'u']),
        'へ' => Some(seq!['h', 'e']),
        'ほ' => Some(seq!['h', 'o']),
        'ま' => Some(seq!['m', 'a']),
        'み' => Some(seq!['m', 'i']),
        'む' => Some(seq!['m', 'u']),
        'め' => Some(seq!['m', 'e']),
        'も' => Some(seq!['m', 'o']),
        'や' => Some(seq!['y', 'a']),
        'ゆ' => Some(seq!['y', 'u']),
        'よ' => Some(seq!['y', 'o']),
        'ら' => Some(seq!['r', 'a']),
        'り' => Some(seq!['r', 'i']),
        'る' => Some(seq!['r', 'u']),
        'れ' => Some(seq!['r', 'e']),
        'ろ' => Some(seq!['r', 'o']),
        'わ' => Some(seq!['w', 'a']),
        'を' => Some(seq!['w', 'o']),
        'ん' => Some(seq!['n']),
        'が' => Some(seq!['g', 'a']),
        'ぎ' => Some(seq!['g', 'i']),
        'ぐ' => Some(seq!['g', 'u']),
        'げ' => Some(seq!['g', 'e']),
        'ご' => Some(seq!['g', 'o']),
        'ざ' => Some(seq!['z', 'a']),
        'じ' => Some(seq!['j', 'i']),
        'ず' => Some(seq!['z', 'u']),
        'ぜ' => Some(seq!['z', 'e']),
        'ぞ' => Some(seq!['z', 'o']),
        'だ' => Some(seq!['d', 'a']),
        'ぢ' => Some(seq!['j', 'i']),
        'づ' => Some(seq!['z', 'u']),
        'で' => Some(seq!['d', 'e']),
        'ど' => Some(seq!['d', 'o']),
        'ば' => Some(seq!['b', 'a']),
        'び' => Some(seq!['b', 'i']),
        'ぶ' => Some(seq!['b', 'u']),
        'べ' => Some(seq!['b', 'e']),
        'ぼ' => Some(seq!['b', 'o']),
        'ぱ' => Some(seq!['p', 'a']),
        'ぴ' => Some(seq!['p', 'i']),
        'ぷ' => Some(seq!['p', 'u']),
        'ぺ' => Some(seq!['p', 'e']),
        'ぽ' => Some(seq!['p', 'o']),
        'ゔ' => Some(seq!['v', 'u']),
        _ => None,
    }
}

/// Kana digraphs (kana plus small ya/yu/yo) and their Hepburn romaji.
pub open spec fn kana_romaji2(a: char, b: char) -> Option<Seq<char>> {
    match (a, b) {
        ('き', 'ゃ') => Some(seq!['k', 'y', 'a']),
        ('き', 'ゅ') => Some(seq!['k', 'y', 'u']),
        ('き', 'ょ') => Some(seq!['k', 'y', 'o']),
        ('し', 'ゃ') => Some(seq!['s', 'h', 'a']),
        ('し', 'ゅ') => Some(seq!['s', 'h', 'u']),
        ('し', 'ょ') => Some(seq!['s', 'h', 'o']),
        ('ち', 'ゃ') => Some(seq!['c', 'h', 'a']),
        ('ち', 'ゅ') => Some(seq!['c', 'h', 'u']),
        ('ち', 'ょ') => Some(seq!['c', 'h', 'o']),
        ('に', 'ゃ') => Some(seq!['n', 'y', 'a']),
        ('に', 'ゅ') => Some(seq!['n', 'y', 'u']),
        ('に', 'ょ') => Some(seq!['n', 'y', 'o']),
        ('ひ', 'ゃ') => Some(seq!['h', 'y', 'a']),
        ('ひ', 'ゅ') => Some(seq!['h', 'y', 'u']),
        ('ひ', 'ょ') => Some(seq!['h', 'y', 'o']),
        ('み', 'ゃ') => Some(seq!['m', 'y', 'a']),
        ('み', 'ゅ') => Some(seq!['m', 'y', 'u']),
        ('み', 'ょ') => Some(seq!['m', 'y', 'o']),
        ('り', 'ゃ') => Some(seq!['r', 'y', 'a']),
        ('り', 'ゅ') => Some(seq!['r', 'y', 'u']),
        ('り', 'ょ') => Some(seq!['r', 'y', 'o']),
        ('ぎ', 'ゃ') => Some(seq!['g', 'y', 'a']),
        ('ぎ', 'ゅ') => Some(seq!['g', 'y', 'u']),
        ('ぎ', 'ょ') => Some(seq!['g', 'y', 'o']),
        ('じ', 'ゃ') => Some(seq!['j', 'a']),
        ('じ', 'ゅ') => Some(seq!['j', 'u']),
        ('じ', 'ょ') => Some(seq!['j', 'o']),
        ('び', 'ゃ') => Some(seq!['b', 'y', 'a']),
        ('び', 'ゅ') => Some(seq!['b', 'y', 'u']),
        ('び', 'ょ') => Some(seq!['b', 'y', 'o']),
        ('ぴ', 'ゃ') => Some(seq!['p', 'y', 'a']),
        ('ぴ', 'ゅ') => Some(seq!['p', 'y', 'u']),
        ('ぴ', 'ょ') => Some(seq!['p', 'y', 'o']),
        _ => None,
    }
}

pub(crate) fn romaji_kana1_exec(a: char) -> (r: Option<Vec<char>>)
    ensures
        r.is_some() == romaji_kana1(a).is_some(),
        r matches Some(v) ==> romaji_kana1(a) == Some(v@),
{
    match a {
        'a' => Some(vec!['あ']),
        'i' => Some(vec!['い']),
        'u' => Some(vec!['う']),
        'e' => Some(vec!['え']),
        'o' => Some(vec!['お']),
        'n' => Some(vec!['ん']),
        _ => None,
    }
}

pub(crate) fn romaji_kana2_exec(a: char, b: char) -> (r: Option<Vec<char>>)
    ensures
        r.is_some() == romaji_kana2(a, b).is_some(),
        r matches Some(v) ==> romaji_kana2(a, b) == Some(v@),
{
    match (a, b) {
        ('k', 'a') => Some(vec!['か']),
        ('k', 'i') => Some(vec!['き']),
        ('k', 'u') => Some(vec!['く']),
        ('k', 'e') => Some(vec!['け']),
        ('k', 'o') => Some(vec!['こ']),
        ('s', 'a') => Some(vec!['さ']),
        ('s', 'u') => Some(vec!['す']),
        ('s', 'e') => Some(vec!['せ']),
        ('s', 'o') => Some(vec!['そ']),
        ('t', 'a') => Some(vec!['た']),
        ('t', 'e') => Some(vec!['て']),
        ('t', 'o') => Some(vec!['と']),
        ('n', 'a') => Some(vec!['な']),
        ('n', 'i') => Some(vec!['に']),
        ('n', 'u') => Some(vec!['ぬ']),
        ('n', 'e') => Some(vec!['ね']),
        ('n', 'o') => Some(vec!['の']),
        ('h', 'a') => Some(vec!['は']),
        ('h', 'i') => Some(vec!['ひ']),
        ('f', 'u') => Some(vec!['ふ']),
        ('h', 'e') => Some(vec!['へ']),
        ('h', 'o') => Some(vec!['ほ']),
        ('m', 'a') => Some(vec!['ま']),
        ('m', 'i') => Some(vec!['み']),
        ('m', 'u') => Some(vec!['む']),
        ('m', 'e') => Some(vec!['め']),
        ('m', 'o') => Some(vec!['も']),
        ('y', 'a') => Some(vec!['や']),
        ('y', 'u') => Some(vec!['ゆ']),
        ('y', 'o') => Some(vec!['よ']),
        ('r', 'a') => Some(vec!['ら']),
        ('r', 'i') => Some(vec!['り']),
        ('r', 'u') => Some(vec!['る']),
        ('r', 'e') => Some(vec!['れ']),
        ('r', 'o') => Some(vec!['ろ']),
        ('w', 'a') => Some(vec!['わ']),
        ('w', 'o') => Some(vec!['を']),
        ('g', 'a') => Some(vec!['が']),
        ('g', 'i') => Some(vec!['ぎ']),
        ('g', 'u') => Some(vec!['ぐ']),
        ('g', 'e') => Some(vec!['げ']),
        ('g', 'o') => Some(vec!['ご']),
        ('z', 'a') => Some(vec!['ざ']),
        ('j', 'i') => Some(vec!['じ']),
        ('z', 'u') => Some(vec!['ず']),
        ('z', 'e') => Some(vec!['ぜ']),
        ('z', 'o') => Some(vec!['ぞ']),
        ('j', 'a') => Some(vec!['じ', 'ゃ']),
        ('j', 'u') => Some(vec!['じ', 'ゅ']),
        ('j', 'o') => Some(vec!['じ', 'ょ']),
        ('d', 'a') => Some(vec!['だ']),
        ('d', 'i') => Some(vec!['ぢ']),
        ('d', 'u') => Some(vec!['づ']),
        ('d', 'e') => Some(vec!['で']),
        ('d', 'o') => Some(vec!['ど']),
        ('b', 'a') => Some(vec!['ば']),
        ('b', 'i') => Some(vec!['び']),
        ('b', 'u') => Some(vec!['ぶ']),
        ('b', 'e') => Some(vec!['べ']),
        ('b', 'o') => Some(vec!['ぼ']),
        ('p', 'a') => Some(vec!['ぱ']),
        ('p', 'i') => Some(vec!['ぴ']),
        ('p', 'u') => Some(vec!['ぷ']),
        ('p', 'e') => Some(vec!['ぺ']),
        ('p', 'o') => Some(vec!['ぽ']),
        ('v', 'u') => Some(vec!['ゔ']),
        _ => None,
    }
}

pub(crate) fn romaji_kana3_exec(a: char, b: char, c: char) -> (r: Option<Vec<char>>)
    ensures
        r.is_some() == romaji_kana3(a, b, c).is_some(),
        r matches Some(v) ==> romaji_kana3(a, b, c) == Some(v@),
{
    match (a, b, c) {
        ('k', 'y', 'a') => Some(vec!['き', 'ゃ']),
        ('k', 'y', 'u') => Some(vec!['き', 'ゅ']),
        ('k', 'y', 'o') => Some(vec!['き', 'ょ']),
        ('s', 'h', 'i') => Some(vec!['し']),
        ('s', 'h', 'a') => Some(vec!['し', 'ゃ']),
        ('s', 'h', 'u') => Some(vec!['し', 'ゅ']),
        ('s', 'h', 'o') => Some(vec!['し', 'ょ']),
        ('c', 'h', 'i') => Some(vec!['ち']),
        ('t', 's', 'u') => Some(vec!['つ']),
        ('c', 'h', 'a') => Some(vec!['ち', 'ゃ']),
        ('c', 'h', 'u') => Some(vec!['ち', 'ゅ']),
        ('c', 'h', 'o') => Some(vec!['ち', 'ょ']),
        ('n', 'y', 'a') => Some(vec!['に', 'ゃ']),
        ('n', 'y', 'u') => Some(vec!['に', 'ゅ']),
        ('n', 'y', 'o') => Some(vec!['に', 'ょ']),
        ('h', 'y', 'a') => Some(vec!['ひ', 'ゃ']),
        ('h', 'y', 'u') => Some(vec!['ひ', 'ゅ']),
        ('h', 'y', 'o') => Some(vec!['ひ', 'ょ']),
        ('m', 'y', 'a') => Some(vec!['み', 'ゃ']),
        ('m', 'y', 'u') => Some(vec!['み', 'ゅ']),
        ('m', 'y', 'o') => Some(vec!['み', 'ょ']),
        ('r', 'y', 'a') => Some(vec!['り', 'ゃ']),
        ('r', 'y', 'u') => Some(vec!['り', 'ゅ']),
        ('r', 'y', 'o') => Some(vec!['り', 'ょ']),
        ('g', 'y', 'a') => Some(vec!['ぎ', 'ゃ']),
        ('g', 'y', 'u') => Some(vec!['ぎ', 'ゅ']),
        ('g', 'y', 'o') => Some(vec!['ぎ', 'ょ']),
        ('b', 'y', 'a') => Some(vec!['び', 'ゃ']),
        ('b', 'y', 'u') => Some(vec!['び', 'ゅ']),
        ('b', 'y', 'o') => Some(vec!['び', 'ょ']),
        ('p', 'y', 'a') => Some(vec!['ぴ', 'ゃ']),
        ('p', 'y', 'u') => Some(vec!['ぴ', 'ゅ']),
        ('p', 'y', 'o') => Some(vec!['ぴ', 'ょ']),
        _ => None,
    }
}

pub(crate) fn kana_romaji1_exec(a: char) -> (r: Option<Vec<char>>)
    ensures
        r.is_some() == kana_romaji1(a).is_some(),
        r matches Some(v) ==> kana_romaji1(a) == Some(v@),
{
    match a {
        'あ' => Some(vec!['a']),
        'い' => Some(vec!['i']),
        'う' => Some(vec!['u']),
        'え' => Some(vec!['e']),
        'お' => Some(vec!['o']),
        'か' => Some(vec!['k', 'a']),
        'き' => Some(vec!['k', 'i']),
        'く' => Some(vec!['k', 'u']),
        'け' => Some(vec!['k', 'e']),
        'こ' => Some(vec!['k', 'o']),
        'さ' => Some(vec!['s', 'a']),
        'し' => Some(vec!['s', 'h', 'i']),
        'す' => Some(vec!['s', 'u']),
        'せ' => Some(vec!['s', 'e']),
        'そ' => Some(vec!['s', 'o']),
        'た' => Some(vec!['t', 'a']),
        'ち' => Some(vec!['c', 'h', 'i']),
        'つ' => Some(vec!['t', 's', 'u']),
        'て' => Some(vec!['t', 'e']),
        'と' => Some(vec!['t', 'o']),
        'な' => Some(vec!['n', 'a']),
        'に' => Some(vec!['n', 'i']),
        'ぬ' => Some(vec!['n', 'u']),
        'ね' => Some(vec!['n', 'e']),
        'の' => Some(vec!['n', 'o']),
        'は' => Some(vec!['h', 'a']),
        'ひ' => Some(vec!['h', 'i']),
        'ふ' => Some(vec!['f', 'u']),
        'へ' => Some(vec!['h', 'e']),
        'ほ' => Some(vec!['h', 'o']),
        'ま' => Some(vec!['m', 'a']),
        'み' => Some(vec!['m', 'i']),
        'む' => Some(vec!['m', 'u']),
        'め' => Some(vec!['m', 'e']),
        'も' => Some(vec!['m', 'o']),
        'や' => Some(vec!['y', 'a']),
        'ゆ' => Some(vec!['y', 'u']),
        'よ' => Some(vec!['y', 'o']),
        'ら' => Some(vec!['r', 'a']),
        'り' => Some(vec!['r', 'i']),
        'る' => Some(vec!['r', 'u']),
        'れ' => Some(vec!['r', 'e']),
        'ろ' => Some(vec!['r', 'o']),
        'わ' => Some(vec!['w', 'a']),
        'を' => Some(vec!['w', 'o']),
        'ん' => Some(vec!['n']),
        'が' => Some(vec!['g', 'a']),
        'ぎ' => Some(vec!['g', 'i']),
        'ぐ' => Some(vec!['g', 'u']),
        'げ' => Some(vec!['g', 'e']),
        'ご' => Some(vec!['g', 'o']),
        'ざ' => Some(vec!['z', 'a']),
        'じ' => Some(vec!['j', 'i']),
        'ず' => Some(vec!['z', 'u']),
        'ぜ' => Some(vec!['z', 'e']),
        'ぞ' => Some(vec!['z', 'o']),
        'だ' => Some(vec!['d', 'a']),
        'ぢ' => Some(vec!['j', 'i']),
        'づ' => Some(vec!['z', 'u']),
        'で' => Some(vec!['d', 'e']),
        'ど' => Some(vec!['d', 'o']),
        'ば' => Some(vec!['b', 'a']),
        'び' => Some(vec!['b', 'i']),
        'ぶ' => Some(vec!['b', 'u']),
        'べ' => Some(vec!['b', 'e']),
        'ぼ' => Some(vec!['b', 'o']),
        'ぱ' => Some(vec!['p', 'a']),
        'ぴ' => Some(vec!['p', 'i']),
        'ぷ' => Some(vec!['p', 'u']),
        'ぺ' => Some(vec!['p', 'e']),
        'ぽ' => Some(vec!['p', 'o']),
        'ゔ' => Some(vec!['v', 'u']),
        _ => None,
    }
}

pub(crate) fn kana_romaji2_exec(a: char, b: char) -> (r: Option<Vec<char>>)
    ensures
        r.is_some() == kana_romaji2(a, b).is_some(),
        r matches Some(v) ==> kana_romaji2(a, b) == Some(v@),
{
    match (a, b) {
        ('き', 'ゃ') => Some(vec!['k', 'y', 'a']),
        ('き', 'ゅ') => Some(vec!['k', 'y', 'u']),
        ('き', 'ょ') => Some(vec!['k', 'y', 'o']),
        ('し', 'ゃ') => Some(vec!['s', 'h', 'a']),
        ('し', 'ゅ') => Some(vec!['s', 'h', 'u']),
        ('し', 'ょ') => Some(vec!['s', 'h', 'o']),
        ('ち', 'ゃ') => Some(vec!['c', 'h', 'a']),
        ('ち', 'ゅ') => Some(vec!['c', 'h', 'u']),
        ('ち', 'ょ') => Some(vec!['c', 'h', 'o']),
        ('に', 'ゃ') => Some(vec!['n', 'y', 'a']),
        ('に', 'ゅ') => Some(vec!['n', 'y', 'u']),
        ('に', 'ょ') => Some(vec!['n', 'y', 'o']),
        ('ひ', 'ゃ') => Some(vec!['h', 'y', 'a']),
        ('ひ', 'ゅ') => Some(vec!['h', 'y', 'u']),
        ('ひ', 'ょ') => Some(vec!['h', 'y', 'o']),
        ('み', 'ゃ') => Some(vec!['m', 'y', 'a']),
        ('み', 'ゅ') => Some(vec!['m', 'y', 'u']),
        ('み', 'ょ') => Some(vec!['m', 'y', 'o']),
        ('り', 'ゃ') => Some(vec!['r', 'y', 'a']),
        ('り', 'ゅ') => Some(vec!['r', 'y', 'u']),
        ('り', 'ょ') => Some(vec!['r', 'y', 'o']),
        ('ぎ', 'ゃ') => Some(vec!['g', 'y', 'a']),
        ('ぎ', 'ゅ') => Some(vec!['g', 'y', 'u']),
        ('ぎ', 'ょ') => Some(vec!['g', 'y', 'o']),
        ('じ', 'ゃ') => Some(vec!['j', 'a']),
        ('じ', 'ゅ') => Some(vec!['j', 'u']),
        ('じ', 'ょ') => Some(vec!['j', 'o']),
        ('び', 'ゃ') => Some(vec!['b', 'y', 'a']),
        ('び', 'ゅ') => Some(vec!['b', 'y', 'u']),
        ('び', 'ょ') => Some(vec!['b', 'y', 'o']),
        ('ぴ', 'ゃ') => Some(vec!['p', 'y', 'a']),
        ('ぴ', 'ゅ') => Some(vec!['p', 'y', 'u']),
        ('ぴ', 'ょ') => Some(vec!['p', 'y', 'o']),
        _ => None,
    }
}

} // verus!
