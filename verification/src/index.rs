//! Building the dictionary data from JMdict: reading the raw JMdict
//! records into entries, and the lookup keys of the kana, kanji, romaji and
//! id indexes, sorted and with one id per key.
use vstd::prelude::*;
use vstd::utf8::encode_utf8;

use crate::dict::{bytes_before, fst_decode, fst_well_formed, lookup_key};
use crate::model::{
    Entry, GlossEntry, KanaEntry, KanjiEntry, LanguageSource, SenseEntry, Xref,
};
use crate::text::{ascii_lower, is_ascii_char, lowercase};

verus! {

// ---------------------------------------------------------------------------
// Raw JMdict records
// ---------------------------------------------------------------------------

/// One value of a raw cross-reference, as far as reading it needs: a
/// string, a non-negative integer, or anything else.
#[derive(Debug, Clone)]
pub enum XrefPart {
    Text(String),
    Number(u64),
    Other,
}

#[derive(Debug, Clone)]
pub struct RawLanguageSource {
    pub lang: String,
    pub full: bool,
    pub wasei: bool,
    pub text: Option<String>,
}

#[derive(Debug, Clone)]
pub struct RawSenseEntry {
    pub part_of_speech: Vec<String>,
    pub applies_to_kanji: Vec<String>,
    pub applies_to_kana: Vec<String>,
    pub related: Vec<Vec<XrefPart>>,
    pub antonym: Vec<Vec<XrefPart>>,
    pub field: Vec<String>,
    pub dialect: Vec<String>,
    pub misc: Vec<String>,
    pub info: Vec<String>,
    pub language_source: Vec<RawLanguageSource>,
    pub gloss: Vec<GlossEntry>,
}

#[derive(Debug, Clone)]
pub struct RawEntry {
    pub id: String,
    pub kanji: Vec<KanjiEntry>,
    pub kana: Vec<KanaEntry>,
    pub sense: Vec<RawSenseEntry>,
}

#[derive(Debug, Clone)]
pub struct JmdictData {
    pub words: Vec<RawEntry>,
}

/// The string of a part, if it is one.
pub open spec fn part_text(p: XrefPart) -> Option<Seq<char>> {
    match p {
        XrefPart::Text(s) => Some(s@),
        _ => None,
    }
}

/// The integer of a part, if it is one.
pub open spec fn part_number(p: XrefPart) -> Option<u64> {
    match p {
        XrefPart::Number(n) => Some(n),
        _ => None,
    }
}

/// What a raw cross-reference `[term, reading?, sense?]` says: the term is
/// the first value if it is a string (else empty); the reading is the
/// second value if it is a string; the sense index is the second value if
/// it is an integer, else the third (each cut to 32 bits).
pub open spec fn xref_fields(raw: Seq<XrefPart>) -> (Seq<char>, Option<Seq<char>>, Option<u32>) {
    let term = if raw.len() > 0 && part_text(raw[0]) is Some {
        part_text(raw[0]).unwrap()
    } else {
        seq![]
    };
    let reading = if raw.len() > 1 {
        part_text(raw[1])
    } else {
        None
    };
    let sense = if raw.len() > 1 && part_number(raw[1]) is Some {
        Some(part_number(raw[1]).unwrap() as u32)
    } else if raw.len() > 2 && part_number(raw[2]) is Some {
        Some(part_number(raw[2]).unwrap() as u32)
    } else {
        None
    };
    (term, reading, sense)
}

/// The fields of a cross-reference as plain values.
pub open spec fn xref_view(x: Xref) -> (Seq<char>, Option<Seq<char>>, Option<u32>) {
    (
        x.term@,
        match x.reading {
            Some(s) => Some(s@),
            None => None,
        },
        x.sense_index,
    )
}

fn part_string(p: &XrefPart) -> (r: Option<String>)
    ensures
        match r {
            Some(s) => part_text(*p) == Some(s@),
            None => part_text(*p) is None,
        },
{
    match p {
        XrefPart::Text(s) => Some(s.clone()),
        _ => None,
    }
}

fn part_u64(p: &XrefPart) -> (r: Option<u64>)
    ensures
        r == part_number(*p),
{
    match p {
        XrefPart::Number(n) => Some(*n),
        _ => None,
    }
}

/// Reads a raw cross-reference `[term, reading?, sense?]`.
pub fn parse_xref(raw: &[XrefPart]) -> (r: Xref)
    ensures
        xref_view(r) == xref_fields(raw@),
{
    let term = if raw.len() > 0 {
        match part_string(&raw[0]) {
            Some(s) => s,
            None => String::new(),
        }
    } else {
        String::new()
    };
    let reading = if raw.len() > 1 {
        part_string(&raw[1])
    } else {
        None
    };
    let second = if raw.len() > 1 {
        part_u64(&raw[1])
    } else {
        None
    };
    let sense_index = match second {
        Some(n) => Some(n as u32),
        None => {
            if raw.len() > 2 {
                match part_u64(&raw[2]) {
                    Some(n) => Some(n as u32),
                    None => None,
                }
            } else {
                None
            }
        },
    };
    Xref { term, reading, sense_index }
}

/// Reads the raw cross-references of a sense.
fn parse_xrefs(raw: &Vec<Vec<XrefPart>>) -> (r: Vec<Xref>)
    ensures
        r@.len() == raw@.len(),
        forall|i: int| 0 <= i < r@.len() ==> xref_view(#[trigger] r@[i]) == xref_fields(raw@[i]@),
{
    let mut r: Vec<Xref> = Vec::new();
    let mut k: usize = 0;
    while k < raw.len()
        invariant
            k <= raw.len(),
            r@.len() == k,
            forall|i: int| 0 <= i < k ==> xref_view(#[trigger] r@[i]) == xref_fields(raw@[i]@),
        decreases raw.len() - k,
    {
        r.push(parse_xref(raw[k].as_slice()));
        k += 1;
    }
    r
}

/// A raw language source as a language source, field for field.
pub open spec fn same_source(a: LanguageSource, b: RawLanguageSource) -> bool {
    &&& a.lang == b.lang
    &&& a.full == b.full
    &&& a.wasei == b.wasei
    &&& a.text == b.text
}

/// Whether `s` is the sense read from raw sense `raw`: every list moved
/// over, the cross-references read, the language sources copied.
pub open spec fn sense_from_raw(s: SenseEntry, raw: RawSenseEntry) -> bool {
    &&& s.part_of_speech == raw.part_of_speech
    &&& s.applies_to_kanji == raw.applies_to_kanji
    &&& s.applies_to_kana == raw.applies_to_kana
    &&& s.field == raw.field
    &&& s.dialect == raw.dialect
    &&& s.misc == raw.misc
    &&& s.info == raw.info
    &&& s.gloss == raw.gloss
    &&& s.related@.len() == raw.related@.len()
    &&& (forall|i: int|
        0 <= i < s.related@.len() ==> xref_view(#[trigger] s.related@[i]) == xref_fields(
            raw.related@[i]@,
        ))
    &&& s.antonym@.len() == raw.antonym@.len()
    &&& (forall|i: int|
        0 <= i < s.antonym@.len() ==> xref_view(#[trigger] s.antonym@[i]) == xref_fields(
            raw.antonym@[i]@,
        ))
    &&& s.language_source@.len() == raw.language_source@.len()
    &&& (forall|i: int|
        0 <= i < s.language_source@.len() ==> same_source(
            #[trigger] s.language_source@[i],
            raw.language_source@[i],
        ))
}

impl RawSenseEntry {
    /// The sense this raw sense stands for.
    pub fn into_sense(self) -> (s: SenseEntry)
        ensures
            sense_from_raw(s, self),
    {
        let related = parse_xrefs(&self.related);
        let antonym = parse_xrefs(&self.antonym);
        let mut language_source: Vec<LanguageSource> = Vec::new();
        let mut k: usize = 0;
        while k < self.language_source.len()
            invariant
                k <= self.language_source.len(),
                language_source@.len() == k,
                forall|i: int|
                    0 <= i < k ==> same_source(
                        #[trigger] language_source@[i],
                        self.language_source@[i],
                    ),
            decreases self.language_source.len() - k,
        {
            let ls = &self.language_source[k];
            language_source.push(
                LanguageSource {
                    lang: ls.lang.clone(),
                    full: ls.full,
                    wasei: ls.wasei,
                    text: match &ls.text {
                        Some(t) => Some(t.clone()),
                        None => None,
                    },
                },
            );
            k += 1;
        }
        SenseEntry {
            part_of_speech: self.part_of_speech,
            applies_to_kanji: self.applies_to_kanji,
            applies_to_kana: self.applies_to_kana,
            related,
            antonym,
            field: self.field,
            dialect: self.dialect,
            misc: self.misc,
            info: self.info,
            language_source,
            gloss: self.gloss,
        }
    }
}

impl RawEntry {
    /// The entry this raw record stands for.
    pub fn into_entry(self) -> (e: Entry)
        ensures
            e.id == self.id,
            e.kanji == self.kanji,
            e.kana == self.kana,
            e.sense@.len() == self.sense@.len(),
            forall|i: int| 0 <= i < e.sense@.len() ==> sense_from_raw(#[trigger] e.sense@[i], self.sense@[i]),
    {
        let RawEntry { id, kanji, kana, sense } = self;
        let mut senses: Vec<SenseEntry> = Vec::new();
        let mut rest = sense;
        let n = rest.len();
        let ghost all = rest@;
        let mut k: usize = 0;
        while rest.len() > 0
            invariant
                k + rest@.len() == all.len(),
                all.len() == n,
                senses@.len() == k,
                forall|i: int| 0 <= i < rest@.len() ==> rest@[i] == all[k + i],
                forall|i: int| 0 <= i < k ==> sense_from_raw(#[trigger] senses@[i], all[i]),
            decreases rest@.len(),
        {
            let raw = rest.remove(0);
            senses.push(raw.into_sense());
            k += 1;
        }
        Entry { id, kanji, kana, sense: senses }
    }
}

// ---------------------------------------------------------------------------
// Index keys
// ---------------------------------------------------------------------------

/// What `deunicode::deunicode` returns: an ASCII transliteration.
pub uninterp spec fn deunicoded(s: Seq<char>) -> Seq<char>;

/// `deunicode::deunicode` from deunicode: the ASCII transliteration of
/// `s`. As its documentation guarantees, the result is ASCII and an ASCII
/// string is returned unchanged; what each other character becomes is
/// left to the name.
#[verifier::external_body]
fn transliterate(s: &str) -> (r: String)
    ensures
        r@ == deunicoded(s@),
        forall|i: int| 0 <= i < r@.len() ==> is_ascii_char(#[trigger] r@[i]),
        (forall|i: int| 0 <= i < s@.len() ==> is_ascii_char(#[trigger] s@[i])) ==> r@ == s@,
{
    deunicode::deunicode(s)
}

/// The romaji key of a written form: its transliteration, lowercased.
pub open spec fn romaji_key(text: Seq<char>) -> Seq<char> {
    deunicoded(text).map_values(|c: char| ascii_lower(c))
}

/// The romaji key of a written form.
pub fn romaji_of(text: &str) -> (r: String)
    ensures
        r@ == romaji_key(text@),
{
    let t = transliterate(text);
    lowercase(t.as_str())
}

/// Keys as plain values.
pub open spec fn keys_view(v: Seq<(String, u64)>) -> Seq<(Seq<char>, u64)> {
    v.map_values(|p: (String, u64)| (p.0@, p.1))
}

/// The kanji keys of entry `id`.
pub open spec fn kanji_keys(e: Entry, id: u64) -> Seq<(Seq<char>, u64)> {
    e.kanji@.map_values(|k: KanjiEntry| (k.text@, id))
}

/// The kana keys of entry `id`.
pub open spec fn kana_keys(e: Entry, id: u64) -> Seq<(Seq<char>, u64)> {
    e.kana@.map_values(|k: KanaEntry| (k.text@, id))
}

/// The romaji keys of entry `id`: of its kanji forms, then of its kana
/// forms.
pub open spec fn romaji_keys(e: Entry, id: u64) -> Seq<(Seq<char>, u64)> {
    e.kanji@.map_values(|k: KanjiEntry| (romaji_key(k.text@), id)) + e.kana@.map_values(
        |k: KanaEntry| (romaji_key(k.text@), id),
    )
}

/// The keys of one kind over all entries, entry by entry; the id of an
/// entry is its position.
pub open spec fn all_keys(entries: Seq<Entry>, kind: int) -> Seq<(Seq<char>, u64)>
    decreases entries.len(),
{
    if entries.len() == 0 {
        seq![]
    } else {
        let n = (entries.len() - 1) as u64;
        let e = entries.last();
        all_keys(entries.drop_last(), kind) + if kind == 0 {
            kanji_keys(e, n)
        } else if kind == 1 {
            kana_keys(e, n)
        } else if kind == 2 {
            romaji_keys(e, n)
        } else {
            seq![(e.id@, n)]
        }
    }
}

/// The unsorted keys of the four indexes.
pub struct IndexKeys {
    pub kanji: Vec<(String, u64)>,
    pub kana: Vec<(String, u64)>,
    pub romaji: Vec<(String, u64)>,
    pub ids: Vec<(String, u64)>,
}

/// Appends the kanji forms of entry `id`, as keys or as romaji keys.
fn push_kanji_keys(out: &mut Vec<(String, u64)>, kanji: &Vec<KanjiEntry>, id: u64, romaji: bool)
    ensures
        keys_view(final(out)@) == keys_view(old(out)@) + if romaji {
            kanji@.map_values(|k: KanjiEntry| (romaji_key(k.text@), id))
        } else {
            kanji@.map_values(|k: KanjiEntry| (k.text@, id))
        },
{
    let ghost start = keys_view(out@);
    let mut k: usize = 0;
    while k < kanji.len()
        invariant
            k <= kanji.len(),
            keys_view(out@) == start + if romaji {
                kanji@.take(k as int).map_values(|x: KanjiEntry| (romaji_key(x.text@), id))
            } else {
                kanji@.take(k as int).map_values(|x: KanjiEntry| (x.text@, id))
            },
        decreases kanji.len() - k,
    {
        let key = if romaji {
            romaji_of(kanji[k].text.as_str())
        } else {
            kanji[k].text.clone()
        };
        let ghost before = out@;
        out.push((key, id));
        k += 1;
        proof {
            assert(keys_view(out@) =~= keys_view(before).push((key@, id)));
            assert(kanji@.take(k as int) =~= kanji@.take(k - 1).push(kanji@[k - 1]));
        }
    }
    assert(kanji@.take(kanji.len() as int) =~= kanji@);
}

/// Appends the kana forms of entry `id`, as keys or as romaji keys.
fn push_kana_keys(out: &mut Vec<(String, u64)>, kana: &Vec<KanaEntry>, id: u64, romaji: bool)
    ensures
        keys_view(final(out)@) == keys_view(old(out)@) + if romaji {
            kana@.map_values(|k: KanaEntry| (romaji_key(k.text@), id))
        } else {
            kana@.map_values(|k: KanaEntry| (k.text@, id))
        },
{
    let ghost start = keys_view(out@);
    let mut k: usize = 0;
    while k < kana.len()
        invariant
            k <= kana.len(),
            keys_view(out@) == start + if romaji {
                kana@.take(k as int).map_values(|x: KanaEntry| (romaji_key(x.text@), id))
            } else {
                kana@.take(k as int).map_values(|x: KanaEntry| (x.text@, id))
            },
        decreases kana.len() - k,
    {
        let key = if romaji {
            romaji_of(kana[k].text.as_str())
        } else {
            kana[k].text.clone()
        };
        let ghost before = out@;
        out.push((key, id));
        k += 1;
        proof {
            assert(keys_view(out@) =~= keys_view(before).push((key@, id)));
            assert(kana@.take(k as int) =~= kana@.take(k - 1).push(kana@[k - 1]));
        }
    }
    assert(kana@.take(kana.len() as int) =~= kana@);
}

/// The index keys of all entries, entry by entry, the id of an entry being
/// its position: kanji forms, kana forms, the romaji of both, and the
/// JMdict id.
pub fn collect_index_keys(entries: &Vec<Entry>) -> (r: IndexKeys)
    requires
        entries@.len() <= u64::MAX,
    ensures
        keys_view(r.kanji@) == all_keys(entries@, 0),
        keys_view(r.kana@) == all_keys(entries@, 1),
        keys_view(r.romaji@) == all_keys(entries@, 2),
        keys_view(r.ids@) == all_keys(entries@, 3),
{
    let mut keys = IndexKeys {
        kanji: Vec::new(),
        kana: Vec::new(),
        romaji: Vec::new(),
        ids: Vec::new(),
    };
    let mut i: usize = 0;
    while i < entries.len()
        invariant
            i <= entries.len(),
            entries@.len() <= u64::MAX,
            keys_view(keys.kanji@) == all_keys(entries@.take(i as int), 0),
            keys_view(keys.kana@) == all_keys(entries@.take(i as int), 1),
            keys_view(keys.romaji@) == all_keys(entries@.take(i as int), 2),
            keys_view(keys.ids@) == all_keys(entries@.take(i as int), 3),
        decreases entries.len() - i,
    {
        let id = i as u64;
        let e = &entries[i];
        proof {
            let t = entries@.take(i + 1);
            assert(t.drop_last() =~= entries@.take(i as int));
            assert(t.last() == entries@[i as int]);
        }
        let ghost ids_before = keys.ids@;
        keys.ids.push((e.id.clone(), id));
        assert(keys_view(keys.ids@) =~= keys_view(ids_before).push((e.id@, id)));
        push_kanji_keys(&mut keys.kanji, &e.kanji, id, false);
        push_kanji_keys(&mut keys.romaji, &e.kanji, id, true);
        push_kana_keys(&mut keys.kana, &e.kana, id, false);
        push_kana_keys(&mut keys.romaji, &e.kana, id, true);
        i += 1;
    }
    assert(entries@.take(entries.len() as int) =~= entries@);
    keys
}

// ---------------------------------------------------------------------------
// Sorting and deduplicating keys
// ---------------------------------------------------------------------------

/// The order of `(String, u64)` pairs: by the bytes of the string, then by
/// the number.
pub open spec fn pair_le(a: (Seq<char>, u64), b: (Seq<char>, u64)) -> bool {
    bytes_before(encode_utf8(a.0), encode_utf8(b.0)) || (a.0 == b.0 && a.1 <= b.1)
}

/// Whether `s` is in ascending pair order.
pub open spec fn is_sorted_pairs(s: Seq<(Seq<char>, u64)>) -> bool {
    forall|i: int, j: int| 0 <= i < j < s.len() ==> pair_le(s[i], s[j])
}

/// `slice::sort` from std on `(String, u64)` pairs: the pairs rearranged
/// into ascending order (strings by their bytes, as `Ord for String` is
/// documented, then the numbers).
#[verifier::external_body]
fn sort_pairs(v: &mut Vec<(String, u64)>)
    ensures
        keys_view(final(v)@).to_multiset() == keys_view(old(v)@).to_multiset(),
        is_sorted_pairs(keys_view(final(v)@)),
{
    v.sort();
}

/// `s` without the pairs whose key equals the key just before.
pub open spec fn first_of_runs(s: Seq<(Seq<char>, u64)>) -> Seq<(Seq<char>, u64)>
    decreases s.len(),
{
    if s.len() == 0 {
        seq![]
    } else if s.len() >= 2 && s[s.len() - 2].0 == s.last().0 {
        first_of_runs(s.drop_last())
    } else {
        first_of_runs(s.drop_last()).push(s.last())
    }
}

/// Whether `r` is the index built from `pairs`: the pairs in ascending
/// order, with only the first (smallest) of each run of equal keys.
pub open spec fn is_index_of(r: Seq<(Seq<char>, u64)>, pairs: Seq<(Seq<char>, u64)>) -> bool {
    exists|s: Seq<(Seq<char>, u64)>|
        s.to_multiset() == pairs.to_multiset() && is_sorted_pairs(s) && r == first_of_runs(s)
}

/// Sorts the keys and keeps one pair per key, the first of its run.
pub fn build_index(pairs: Vec<(String, u64)>) -> (r: Vec<(String, u64)>)
    ensures
        is_index_of(keys_view(r@), keys_view(pairs@)),
{
    let mut sorted = pairs;
    sort_pairs(&mut sorted);
    let ghost s = keys_view(sorted@);
    let mut r: Vec<(String, u64)> = Vec::new();
    let mut k: usize = 0;
    while k < sorted.len()
        invariant
            k <= sorted.len(),
            s == keys_view(sorted@),
            keys_view(r@) == first_of_runs(s.take(k as int)),
            k > 0 ==> r@.len() > 0 && r@.last().0@ == s[k - 1].0,
        decreases sorted.len() - k,
    {
        proof {
            let t = s.take(k + 1);
            assert(t.drop_last() =~= s.take(k as int));
            assert(t.last() == s[k as int]);
            if k >= 1 {
                assert(t[t.len() - 2] == s[k - 1]);
            }
            lemma_first_of_runs_last(s.take(k as int));
        }
        let keep = if k == 0 {
            true
        } else {
            !crate::text::same_text(r[r.len() - 1].0.as_str(), sorted[k].0.as_str())
        };
        if keep {
            let ghost before = r@;
            r.push((sorted[k].0.clone(), sorted[k].1));
            assert(keys_view(r@) =~= keys_view(before).push(s[k as int]));
        }
        k += 1;
    }
    assert(s.take(sorted.len() as int) =~= s);
    r
}

/// The last pair kept has the key of the last pair.
proof fn lemma_first_of_runs_last(s: Seq<(Seq<char>, u64)>)
    ensures
        s.len() > 0 ==> first_of_runs(s).len() > 0 && first_of_runs(s).last().0 == s.last().0,
    decreases s.len(),
{
    if s.len() >= 2 && s[s.len() - 2].0 == s.last().0 {
        lemma_first_of_runs_last(s.drop_last());
    }
}

/// Lexicographic byte order is transitive.
proof fn lemma_bytes_before_trans(a: Seq<u8>, b: Seq<u8>, c: Seq<u8>)
    requires
        bytes_before(a, b),
        bytes_before(b, c),
    ensures
        bytes_before(a, c),
{
    let i = choose|i: int|
        0 <= i <= a.len() && i <= b.len() && #[trigger] a.take(i) == b.take(i) && ((i == a.len()
            && i < b.len()) || (i < a.len() && i < b.len() && a[i] < b[i]));
    let j = choose|j: int|
        0 <= j <= b.len() && j <= c.len() && #[trigger] b.take(j) == c.take(j) && ((j == b.len()
            && j < c.len()) || (j < b.len() && j < c.len() && b[j] < c[j]));
    let m = if i < j {
        i
    } else {
        j
    };
    assert(a.take(m) =~= c.take(m)) by {
        assert forall|k: int| 0 <= k < m implies a.take(m)[k] == c.take(m)[k] by {
            assert(a.take(i)[k] == b.take(i)[k]);
            assert(b.take(j)[k] == c.take(j)[k]);
        }
    }
    if i < j {
        assert(b.take(j)[i] == c.take(j)[i]) by {
            if i < b.len() {
                assert(b.take(j)[i] == b[i]);
            }
        }
    } else if j < i {
        assert(a.take(i)[j] == b.take(i)[j]);
    }
    assert(0 <= m <= a.len() && m <= c.len() && a.take(m) == c.take(m) && ((m == a.len() && m
        < c.len()) || (m < a.len() && m < c.len() && a[m] < c[m])));
}

proof fn lemma_runs_increasing(s: Seq<(Seq<char>, u64)>)
    requires
        is_sorted_pairs(s),
    ensures
        forall|i: int, j: int|
            0 <= i < j < first_of_runs(s).len() ==> bytes_before(
                encode_utf8(first_of_runs(s)[i].0),
                encode_utf8(first_of_runs(s)[j].0),
            ),
    decreases s.len(),
{
    if s.len() > 0 {
        let t = s.drop_last();
        assert(is_sorted_pairs(t)) by {
            assert forall|i: int, j: int| 0 <= i < j < t.len() implies pair_le(t[i], t[j]) by {
                assert(pair_le(s[i], s[j]));
            }
        }
        lemma_runs_increasing(t);
        let f = first_of_runs(t);
        if !(s.len() >= 2 && s[s.len() - 2].0 == s.last().0) && s.len() >= 2 {
            lemma_first_of_runs_last(t);
            let x = s.last();
            assert(f.last().0 == s[s.len() - 2].0);
            assert(pair_le(s[s.len() - 2], x));
            let g = f.push(x);
            assert forall|i: int, j: int| 0 <= i < j < g.len() implies bytes_before(
                encode_utf8(g[i].0),
                encode_utf8(g[j].0),
            ) by {
                if j == f.len() {
                    assert(g[j] == x);
                    assert(g[i] == f[i]);
                    if i < f.len() - 1 {
                        lemma_bytes_before_trans(
                            encode_utf8(f[i].0),
                            encode_utf8(f.last().0),
                            encode_utf8(x.0),
                        );
                    }
                } else {
                    assert(g[i] == f[i]);
                    assert(g[j] == f[j]);
                }
            }
        }
    }
}

// ---------------------------------------------------------------------------
// Index files
// ---------------------------------------------------------------------------

/// Index pairs with each key as its UTF-8 bytes.
pub open spec fn byte_keys(s: Seq<(Seq<char>, u64)>) -> Seq<(Seq<u8>, u64)> {
    s.map_values(|p: (Seq<char>, u64)| (encode_utf8(p.0), p.1))
}

/// Whether the keys of `s` are in strictly increasing byte order.
pub open spec fn keys_increasing(s: Seq<(Seq<u8>, u64)>) -> bool {
    forall|i: int, j: int| 0 <= i < j < s.len() ==> bytes_before(s[i].0, s[j].0)
}

/// The map that key-value pairs make, a later pair for a key replacing an
/// earlier one.
pub open spec fn pairs_map(s: Seq<(Seq<u8>, u64)>) -> Map<Seq<u8>, u64>
    decreases s.len(),
{
    if s.len() == 0 {
        Map::empty()
    } else {
        pairs_map(s.drop_last()).insert(s.last().0, s.last().1)
    }
}

/// `fst::MapBuilder::memory`, then `insert` of each pair in turn, then
/// `into_inner`: the bytes of an fst map holding the pairs, each key as its
/// UTF-8 bytes. As the fst documentation says, the builder refuses a key
/// that is not greater than the key before it; writing to memory does not
/// fail; and what the builder writes is a well-formed map that `Map::new`
/// reads back.
#[verifier::external_body]
fn fst_build(pairs: &Vec<(String, u64)>) -> (r: Option<Vec<u8>>)
    ensures
        r is Some <==> keys_increasing(byte_keys(keys_view(pairs@))),
        r matches Some(b) ==> fst_decode(b@) == Some(pairs_map(byte_keys(keys_view(pairs@)))),
        r matches Some(b) ==> fst_well_formed(b@),
{
    let mut builder = fst::MapBuilder::memory();
    for (key, value) in pairs.iter() {
        builder.insert(key, *value).ok()?;
    }
    builder.into_inner().ok()
}

/// The bytes of an FST index file: the pairs of a built index (keys in
/// strictly increasing byte order) encoded as an fst map.
pub fn index_fst_bytes(index: &Vec<(String, u64)>) -> (r: Vec<u8>)
    requires
        keys_increasing(byte_keys(keys_view(index@))),
    ensures
        fst_decode(r@) == Some(pairs_map(byte_keys(keys_view(index@)))),
        fst_well_formed(r@),
{
    match fst_build(index) {
        Some(b) => b,
        None => {
            proof {
                assert(false);
            }
            Vec::new()
        },
    }
}

/// The keys of a built index are in strictly increasing byte order, so no
/// key occurs twice: the order that an FST map builder requires.
pub proof fn lemma_index_keys_increasing(r: Seq<(Seq<char>, u64)>, pairs: Seq<(Seq<char>, u64)>)
    requires
        is_index_of(r, pairs),
    ensures
        forall|i: int, j: int|
            0 <= i < j < r.len() ==> bytes_before(encode_utf8(r[i].0), encode_utf8(r[j].0)),
        keys_increasing(byte_keys(r)),
{
    let s = choose|s: Seq<(Seq<char>, u64)>|
        s.to_multiset() == pairs.to_multiset() && is_sorted_pairs(s) && r == first_of_runs(s);
    lemma_runs_increasing(s);
    let b = byte_keys(r);
    assert forall|i: int, j: int| 0 <= i < j < b.len() implies bytes_before(b[i].0, b[j].0) by {
        assert(b[i].0 == encode_utf8(r[i].0));
        assert(b[j].0 == encode_utf8(r[j].0));
    }
}

/// No byte string comes strictly before itself.
proof fn lemma_bytes_before_irreflexive(a: Seq<u8>)
    ensures
        !bytes_before(a, a),
{
}

/// For keys in strictly increasing order, the map the pairs make holds each
/// pair, and nothing else.
proof fn lemma_pairs_map_increasing(b: Seq<(Seq<u8>, u64)>)
    requires
        keys_increasing(b),
    ensures
        forall|i: int|
            0 <= i < b.len() ==> pairs_map(b).dom().contains(#[trigger] b[i].0) && pairs_map(
                b,
            )[b[i].0] == b[i].1,
        forall|k: Seq<u8>|
            #[trigger] pairs_map(b).dom().contains(k) ==> exists|i: int| 0 <= i < b.len() && b[i].0 == k,
    decreases b.len(),
{
    if b.len() > 0 {
        let c = b.drop_last();
        assert(keys_increasing(c)) by {
            assert forall|i: int, j: int| 0 <= i < j < c.len() implies bytes_before(c[i].0, c[j].0) by {
                assert(c[i] == b[i] && c[j] == b[j]);
            }
        }
        lemma_pairs_map_increasing(c);
        assert forall|i: int| 0 <= i < b.len() implies pairs_map(b).dom().contains(
            #[trigger] b[i].0,
        ) && pairs_map(b)[b[i].0] == b[i].1 by {
            if i < b.len() - 1 {
                assert(b[i] == c[i]);
                assert(bytes_before(b[i].0, b.last().0));
                lemma_bytes_before_irreflexive(b[i].0);
            }
        }
        assert forall|k: Seq<u8>| #[trigger] pairs_map(b).dom().contains(k) implies exists|i: int|
            0 <= i < b.len() && b[i].0 == k by {
            if k != b.last().0 {
                assert(pairs_map(c).dom().contains(k));
                let i = choose|i: int| 0 <= i < c.len() && c[i].0 == k;
                assert(b[i] == c[i]);
            } else {
                assert(b[b.len() - 1].0 == k);
            }
        }
    }
}

/// What `first_of_runs` keeps of a sorted sequence: pairs of it, and for
/// every pair one with the same key and no greater number.
proof fn lemma_first_of_runs_min(s: Seq<(Seq<char>, u64)>)
    requires
        is_sorted_pairs(s),
    ensures
        forall|i: int|
            0 <= i < first_of_runs(s).len() ==> s.contains(#[trigger] first_of_runs(s)[i]),
        forall|j: int|
            0 <= j < s.len() ==> exists|i: int|
                0 <= i < first_of_runs(s).len() && first_of_runs(s)[i].0 == (#[trigger] s[j]).0
                    && first_of_runs(s)[i].1 <= s[j].1,
    decreases s.len(),
{
    if s.len() > 0 {
        let t = s.drop_last();
        assert(is_sorted_pairs(t)) by {
            assert forall|i: int, j: int| 0 <= i < j < t.len() implies pair_le(t[i], t[j]) by {
                assert(pair_le(s[i], s[j]));
            }
        }
        lemma_first_of_runs_min(t);
        let f = first_of_runs(t);
        let g = first_of_runs(s);
        let dup = s.len() >= 2 && s[s.len() - 2].0 == s.last().0;
        assert(forall|i: int| 0 <= i < f.len() ==> g[i] == f[i]);
        assert(g.len() >= f.len());
        assert forall|i: int| 0 <= i < g.len() implies s.contains(#[trigger] g[i]) by {
            if i < f.len() {
                let k = choose|k: int| 0 <= k < t.len() && t[k] == f[i];
                assert(s[k] == t[k]);
            } else {
                assert(g[i] == s.last());
                assert(s[s.len() - 1] == g[i]);
            }
        }
        assert forall|j: int| 0 <= j < s.len() implies exists|i: int|
            0 <= i < g.len() && g[i].0 == (#[trigger] s[j]).0 && g[i].1 <= s[j].1 by {
            if j < t.len() {
                assert(s[j] == t[j]);
                let i = choose|i: int| 0 <= i < f.len() && f[i].0 == t[j].0 && f[i].1 <= t[j].1;
                assert(g[i] == f[i]);
            } else if dup {
                let p = s.len() - 2;
                assert(s[p] == t[p]);
                let i = choose|i: int| 0 <= i < f.len() && f[i].0 == t[p].0 && f[i].1 <= t[p].1;
                assert(g[i] == f[i]);
                assert(pair_le(s[p], s[j]));
                lemma_bytes_before_irreflexive(encode_utf8(s[j].0));
            } else {
                assert(g[f.len() as int] == s.last());
            }
        }
    }
}

/// A built index holds pairs of its input, and for every input pair one
/// with the same text and no greater number.
proof fn lemma_index_members(idx: Seq<(Seq<char>, u64)>, pairs: Seq<(Seq<char>, u64)>)
    requires
        is_index_of(idx, pairs),
    ensures
        forall|i: int| 0 <= i < idx.len() ==> pairs.contains(#[trigger] idx[i]),
        forall|x: (Seq<char>, u64)|
            #[trigger] pairs.contains(x) ==> exists|i: int|
                0 <= i < idx.len() && idx[i].0 == x.0 && idx[i].1 <= x.1,
{
    broadcast use vstd::seq_lib::group_to_multiset_ensures;

    let s = choose|s: Seq<(Seq<char>, u64)>|
        s.to_multiset() == pairs.to_multiset() && is_sorted_pairs(s) && idx == first_of_runs(s);
    lemma_first_of_runs_min(s);
    assert forall|i: int| 0 <= i < idx.len() implies pairs.contains(#[trigger] idx[i]) by {
        assert(s.contains(idx[i]));
        assert(s.to_multiset().count(idx[i]) > 0);
    }
    assert forall|x: (Seq<char>, u64)| #[trigger] pairs.contains(x) implies exists|i: int|
        0 <= i < idx.len() && idx[i].0 == x.0 && idx[i].1 <= x.1 by {
        assert(pairs.to_multiset().count(x) > 0);
        assert(s.contains(x));
        let j = choose|j: int| 0 <= j < s.len() && s[j] == x;
        assert(s[j] == x);
    }
}

/// Texts with the same UTF-8 bytes are the same text.
proof fn lemma_encode_injective(a: Seq<char>, b: Seq<char>)
    requires
        encode_utf8(a) == encode_utf8(b),
    ensures
        a == b,
{
    vstd::utf8::encode_utf8_decode_utf8(a);
    vstd::utf8::encode_utf8_decode_utf8(b);
}

/// An FST index file finds what was indexed: for a text that some pair
/// has, the map built from the index gives the text's bytes the smallest
/// number paired with that text; a text that no pair has is not found.
pub proof fn lemma_index_lookup(idx: Seq<(Seq<char>, u64)>, pairs: Seq<(Seq<char>, u64)>, t: Seq<char>)
    requires
        is_index_of(idx, pairs),
    ensures
        (exists|id: u64| pairs.contains((t, id))) ==> exists|m: u64|
            #![trigger pairs.contains((t, m))]
            pairs.contains((t, m)) && lookup_key(pairs_map(byte_keys(idx)), encode_utf8(t)) == Some(
                m,
            ) && forall|id: u64| #[trigger] pairs.contains((t, id)) ==> m <= id,
        !(exists|id: u64| pairs.contains((t, id))) ==> lookup_key(
            pairs_map(byte_keys(idx)),
            encode_utf8(t),
        ) is None,
{
    lemma_index_members(idx, pairs);
    lemma_index_keys_increasing(idx, pairs);
    let b = byte_keys(idx);
    lemma_pairs_map_increasing(b);
    let k = encode_utf8(t);
    if exists|id: u64| pairs.contains((t, id)) {
        let id0 = choose|id: u64| pairs.contains((t, id));
        let i0 = choose|i: int| 0 <= i < idx.len() && idx[i].0 == t && idx[i].1 <= id0;
        let m = idx[i0].1;
        assert(pairs.contains(idx[i0]));
        assert(idx[i0] == (t, m));
        assert(b[i0] == (k, m));
        assert(pairs_map(b).dom().contains(b[i0].0) && pairs_map(b)[b[i0].0] == b[i0].1);
        assert forall|id: u64| #[trigger] pairs.contains((t, id)) implies m <= id by {
            let i = choose|i: int| 0 <= i < idx.len() && idx[i].0 == t && idx[i].1 <= id;
            if i != i0 {
                assert(b[i].0 == k && b[i0].0 == k);
                lemma_bytes_before_irreflexive(k);
                if i < i0 {
                    assert(bytes_before(b[i].0, b[i0].0));
                } else {
                    assert(bytes_before(b[i0].0, b[i].0));
                }
            }
        }
        assert(pairs.contains((t, m)) && lookup_key(pairs_map(b), k) == Some(m));
    } else {
        if pairs_map(b).dom().contains(k) {
            let i = choose|i: int| 0 <= i < b.len() && b[i].0 == k;
            assert(b[i].0 == encode_utf8(idx[i].0));
            lemma_encode_injective(idx[i].0, t);
            assert(pairs.contains(idx[i]));
            assert(pairs.contains((t, idx[i].1)));
        }
    }
}

} // verus!
