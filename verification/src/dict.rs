//! The dictionary: the entry blob, the FST indexes from kana, kanji and
//! romaji keys to entry ids, and the deinflector; and the search for match
//! candidates in them.
use vstd::prelude::*;
use vstd::string::StringSliceAdditionalSpecFns;
use vstd::utf8::{decode_utf8, encode_utf8, is_ascii_chars, valid_utf8};

use fst::{Automaton, IntoStreamer, Streamer};

use crate::blob::{
    byte_range, from_utf8_lossy, count_at, entry_readable, entry_span, entry_span_spec, lossy_text,
    parse_entries_header, parse_header_spec, u32_at, utf8_lossy,
};
use crate::candidates::chains_view;
use crate::deinflect_model::{deinflect_model, group_by_length, CandModel, RuleModel};
use crate::deinflect_rules::rule_table;
use crate::deinflector::{candidate_matches, Deinflector, Reason};
use crate::error::JmdictError;
use crate::index::{
    byte_keys, index_fst_bytes, is_index_of, keys_increasing, keys_view, lemma_index_lookup, pairs_map,
};
use crate::model::{str_texts, texts, DataVersion, DeinflectionInfo, MatchMode, MatchType};
use crate::query::{owned_strings, unfiltered, BatchQueryBuilder, QueryBuilder};
use crate::text::same_text;

verus! {

// ---------------------------------------------------------------------------
// The FST maps
// ---------------------------------------------------------------------------

/// `fst::Map`, an immutable ordered map from byte strings to `u64`.
#[verifier::external_type_specification]
#[verifier::external_body]
#[verifier::reject_recursive_types(D)]
pub struct ExFstMap<D>(fst::Map<D>);

/// `fst::Error`, why FST bytes were refused.
#[verifier::external_type_specification]
#[verifier::external_body]
pub struct ExFstError(fst::Error);

/// The key-value pairs an FST map holds.
pub uninterp spec fn fst_entries(m: fst::Map<Vec<u8>>) -> Map<Seq<u8>, u64>;

/// Whether bytes are a well-formed FST map, such as fst's builder writes.
/// The fst documentation leaves it to the caller to guarantee this before
/// reading a map, which may otherwise panic at any point; fst itself only
/// checks a few header fields.
pub uninterp spec fn fst_well_formed(bytes: Seq<u8>) -> bool;

/// Whether the map was read from well-formed FST bytes.
pub uninterp spec fn fst_sound(m: fst::Map<Vec<u8>>) -> bool;

/// The key-value pairs that FST bytes encode, or `None` for bytes that fst
/// does not read as a map.
pub uninterp spec fn fst_decode(bytes: Seq<u8>) -> Option<Map<Seq<u8>, u64>>;

/// `fst::Map::new` from fst: reads the map that `bytes` encode. Fewer than
/// 36 bytes (the size of an empty map) are refused, well-formed bytes are
/// read; the map holds what the bytes encode, and is sound exactly when the
/// bytes were well-formed. Which other byte strings are refused is left
/// unsaid beyond depending on the bytes alone.
#[verifier::external_body]
fn fst_map_new(bytes: Vec<u8>) -> (r: Result<fst::Map<Vec<u8>>, fst::Error>)
    ensures
        r is Ok <==> fst_decode(bytes@) is Some,
        bytes@.len() < 36 ==> r is Err,
        fst_well_formed(bytes@) ==> r is Ok,
        r matches Ok(m) ==> fst_decode(bytes@) == Some(fst_entries(m)) && (fst_sound(m)
            == fst_well_formed(bytes@)),
{
    fst::Map::new(bytes)
}

/// `fst::Map::get` from fst, on a map read from well-formed bytes: the
/// value of `key`, if the map holds it.
#[verifier::external_body]
fn fst_get(m: &fst::Map<Vec<u8>>, key: &[u8]) -> (r: Option<u64>)
    requires
        fst_sound(*m),
    ensures
        r == lookup_key(fst_entries(*m), key@),
{
    m.get(key)
}

/// The value of `key` in `entries`, if any.
pub open spec fn lookup_key(entries: Map<Seq<u8>, u64>, key: Seq<u8>) -> Option<u64> {
    if entries.dom().contains(key) {
        Some(entries[key])
    } else {
        None
    }
}

/// Byte strings in lexicographic order: `a` comes strictly before `b`.
pub open spec fn bytes_before(a: Seq<u8>, b: Seq<u8>) -> bool {
    exists|i: int|
        0 <= i <= a.len() && i <= b.len() && #[trigger] a.take(i) == b.take(i) && ((i == a.len()
            && i < b.len()) || (i < a.len() && i < b.len() && a[i] < b[i]))
}

/// Whether `s` lists exactly the entries whose key starts with `prefix`,
/// in strictly increasing key order.
pub open spec fn is_prefix_listing(
    s: Seq<(Seq<u8>, u64)>,
    entries: Map<Seq<u8>, u64>,
    prefix: Seq<u8>,
) -> bool {
    &&& forall|i: int|
        0 <= i < s.len() ==> prefix.is_prefix_of((#[trigger] s[i]).0) && entries.dom().contains(
            s[i].0,
        ) && entries[s[i].0] == s[i].1
    &&& forall|k: Seq<u8>|
        #[trigger] entries.dom().contains(k) && prefix.is_prefix_of(k) ==> exists|i: int|
            0 <= i < s.len() && s[i].0 == k
    &&& forall|i: int, j: int| 0 <= i < j < s.len() ==> bytes_before(s[i].0, s[j].0)
}

/// The entries whose key starts with `prefix`, in key order.
pub open spec fn prefix_listing(entries: Map<Seq<u8>, u64>, prefix: Seq<u8>) -> Seq<(Seq<u8>, u64)> {
    choose|s: Seq<(Seq<u8>, u64)>| is_prefix_listing(s, entries, prefix)
}

/// Key-value pairs as plain values.
pub open spec fn pairs_view(s: Seq<(Vec<u8>, u64)>) -> Seq<(Seq<u8>, u64)> {
    s.map_values(|p: (Vec<u8>, u64)| (p.0@, p.1))
}

/// A prefix search on an fst map (`Map::search` with the automaton
/// `Str::new(prefix).starts_with()`, streamed to the end): the key-value
/// pairs whose key starts with the bytes of `prefix`, in lexicographic key
/// order, as the fst documentation promises for streams.
#[verifier::external_body]
fn fst_prefix_pairs(m: &fst::Map<Vec<u8>>, prefix: &str) -> (r: Vec<(Vec<u8>, u64)>)
    requires
        fst_sound(*m),
    ensures
        pairs_view(r@) == prefix_listing(fst_entries(*m), encode_utf8(prefix@)),
        is_prefix_listing(pairs_view(r@), fst_entries(*m), encode_utf8(prefix@)),
{
    let automaton = fst::automaton::Str::new(prefix).starts_with();
    let mut stream = m.search(automaton).into_stream();
    let mut out = Vec::new();
    while let Some((key, val)) = stream.next() {
        out.push((key.to_vec(), val));
    }
    out
}

/// The smaller of two naturals.
pub open spec fn min_nat(a: nat, b: nat) -> nat {
    if a <= b {
        a
    } else {
        b
    }
}

/// The Levenshtein distance: the fewest insertions, deletions and
/// substitutions of characters that turn `a` into `b`.
pub open spec fn edit_distance(a: Seq<char>, b: Seq<char>) -> nat
    decreases a.len() + b.len(),
{
    if a.len() == 0 {
        b.len()
    } else if b.len() == 0 {
        a.len()
    } else {
        let keep = edit_distance(a.drop_last(), b.drop_last()) + if a.last() == b.last() {
            0nat
        } else {
            1nat
        };
        min_nat(
            keep,
            min_nat(edit_distance(a.drop_last(), b) + 1, edit_distance(a, b.drop_last()) + 1),
        )
    }
}

/// Whether the key `k` is UTF-8 text within `d` edits of `term`.
pub open spec fn within_distance(k: Seq<u8>, term: Seq<char>, d: nat) -> bool {
    valid_utf8(k) && edit_distance(term, decode_utf8(k)) <= d
}

/// Whether every pair of `s` is an entry whose key is within `d` edits of
/// `term`, the keys in strictly increasing order.
pub open spec fn is_fuzzy_sublisting(
    s: Seq<(Seq<u8>, u64)>,
    entries: Map<Seq<u8>, u64>,
    term: Seq<char>,
    d: nat,
) -> bool {
    &&& forall|i: int|
        0 <= i < s.len() ==> within_distance((#[trigger] s[i]).0, term, d)
            && entries.dom().contains(s[i].0) && entries[s[i].0] == s[i].1
    &&& forall|i: int, j: int| 0 <= i < j < s.len() ==> bytes_before(s[i].0, s[j].0)
}

/// Whether `s` lists exactly the entries whose key is within `d` edits of
/// `term`, in strictly increasing key order.
pub open spec fn is_fuzzy_listing(
    s: Seq<(Seq<u8>, u64)>,
    entries: Map<Seq<u8>, u64>,
    term: Seq<char>,
    d: nat,
) -> bool {
    &&& is_fuzzy_sublisting(s, entries, term, d)
    &&& forall|k: Seq<u8>|
        #[trigger] entries.dom().contains(k) && within_distance(k, term, d) ==> exists|i: int|
            0 <= i < s.len() && s[i].0 == k
}

/// The entries whose key is within `d` edits of `term`, in key order.
pub open spec fn fuzzy_listing(entries: Map<Seq<u8>, u64>, term: Seq<char>, d: nat) -> Seq<
    (Seq<u8>, u64),
> {
    choose|s: Seq<(Seq<u8>, u64)>| is_fuzzy_listing(s, entries, term, d)
}

/// Whether fst refuses to build a Levenshtein automaton for `query` and
/// `distance` (it gives up past a fixed number of automaton states).
pub uninterp spec fn levenshtein_refused(query: Seq<char>, distance: u32) -> bool;

/// What a search of the fst map holding `entries` with the Levenshtein
/// automaton for `query` and `distance` streams out.
pub uninterp spec fn fst_fuzzy_search(
    entries: Map<Seq<u8>, u64>,
    query: Seq<char>,
    distance: u32,
) -> Seq<(Seq<u8>, u64)>;

/// A fuzzy search on an fst map (`Levenshtein::new(term, max_distance)`,
/// then `Map::search` with it, streamed to the end). `None` where fst
/// refuses to build the automaton (`LevenshteinError::TooManyStates`);
/// when that happens is left unsaid beyond depending on the query and the
/// distance alone. Otherwise the stream: entries of the map whose key is
/// within `max_distance` character edits of `term`, in lexicographic key
/// order; for a query of ASCII characters all such entries, as the fst
/// documentation promises. For other queries fst 0.4.7 builds its automaton
/// so that characters sharing a UTF-8 lead byte with a query character may
/// be missed, so which entries are left out is not stated.
#[verifier::external_body]
fn fst_fuzzy_pairs(m: &fst::Map<Vec<u8>>, term: &str, max_distance: u32) -> (r: Option<
    Vec<(Vec<u8>, u64)>,
>)
    requires
        fst_sound(*m),
    ensures
        r is None <==> levenshtein_refused(term@, max_distance),
        r matches Some(v) ==> pairs_view(v@) == fst_fuzzy_search(
            fst_entries(*m),
            term@,
            max_distance,
        ),
        r matches Some(v) ==> is_fuzzy_sublisting(
            pairs_view(v@),
            fst_entries(*m),
            term@,
            max_distance as nat,
        ),
        r matches Some(v) ==> (is_ascii_chars(term@) ==> is_fuzzy_listing(
            pairs_view(v@),
            fst_entries(*m),
            term@,
            max_distance as nat,
        )),
        r matches Some(v) ==> (is_ascii_chars(term@) ==> pairs_view(v@) == fuzzy_listing(
            fst_entries(*m),
            term@,
            max_distance as nat,
        )),
{
    let automaton = fst::automaton::Levenshtein::new(term, max_distance).ok()?;
    let mut stream = m.search(&automaton).into_stream();
    let mut out = Vec::new();
    while let Some((key, val)) = stream.next() {
        out.push((key.to_vec(), val));
    }
    Some(out)
}


// ---------------------------------------------------------------------------
// Candidates
// ---------------------------------------------------------------------------

/// A raw match candidate from an index search, before the entry is read.
/// How well it matched is its match type.
#[derive(Debug, Clone)]
pub struct MatchCandidate {
    pub id: u64,
    pub key: String,
    pub match_type: MatchType,
    pub deinflection: Option<DeinflectionInfo>,
}

/// `s` with `x` inserted in order, unless it is there already (for a
/// strictly increasing `s`).
pub open spec fn insert_sorted(s: Seq<u64>, x: u64) -> Seq<u64>
    decreases s.len(),
{
    if s.len() == 0 {
        seq![x]
    } else if x < s[0] {
        seq![x] + s
    } else if x == s[0] {
        s
    } else {
        seq![s[0]] + insert_sorted(s.drop_first(), x)
    }
}

pub open spec fn add_id(s: Seq<u64>, o: Option<u64>) -> Seq<u64> {
    match o {
        Some(x) => insert_sorted(s, x),
        None => s,
    }
}

/// What the three term indexes of a dictionary hold.
pub struct Indexes {
    pub kana: Map<Seq<u8>, u64>,
    pub kanji: Map<Seq<u8>, u64>,
    pub romaji: Map<Seq<u8>, u64>,
}

/// The ids a term has in the kana, kanji and romaji indexes, in increasing
/// order and each once.
pub open spec fn exact_ids(ix: Indexes, term: Seq<char>) -> Seq<u64> {
    let k = encode_utf8(term);
    add_id(
        add_id(add_id(seq![], lookup_key(ix.kana, k)), lookup_key(ix.kanji, k)),
        lookup_key(ix.romaji, k),
    )
}

/// Whether a candidate has the id, key and match type given, and no
/// deinflection.
pub open spec fn plain_candidate(c: MatchCandidate, id: u64, key: Seq<char>, t: MatchType) -> bool {
    &&& c.id == id
    &&& c.key@ == key
    &&& c.match_type == t
    &&& c.deinflection is None
}

/// The name of a reason, as its `Debug` form writes it.
pub open spec fn reason_text(r: Reason) -> Seq<char> {
    match r {
        Reason::PolitePastNegative => "PolitePastNegative"@,
        Reason::PoliteNegative => "PoliteNegative"@,
        Reason::PoliteVolitional => "PoliteVolitional"@,
        Reason::Chau => "Chau"@,
        Reason::Sugiru => "Sugiru"@,
        Reason::PolitePast => "PolitePast"@,
        Reason::Tara => "Tara"@,
        Reason::Tari => "Tari"@,
        Reason::Causative => "Causative"@,
        Reason::PotentialOrPassive => "PotentialOrPassive"@,
        Reason::Toku => "Toku"@,
        Reason::Sou => "Sou"@,
        Reason::Tai => "Tai"@,
        Reason::Polite => "Polite"@,
        Reason::Respectful => "Respectful"@,
        Reason::Humble => "Humble"@,
        Reason::HumbleOrKansaiDialect => "HumbleOrKansaiDialect"@,
        Reason::Past => "Past"@,
        Reason::Negative => "Negative"@,
        Reason::Passive => "Passive"@,
        Reason::Ba => "Ba"@,
        Reason::Volitional => "Volitional"@,
        Reason::Potential => "Potential"@,
        Reason::EruUru => "EruUru"@,
        Reason::CausativePassive => "CausativePassive"@,
        Reason::Te => "Te"@,
        Reason::Zu => "Zu"@,
        Reason::Imperative => "Imperative"@,
        Reason::MasuStem => "MasuStem"@,
        Reason::Adv => "Adv"@,
        Reason::Noun => "Noun"@,
        Reason::ImperativeNegative => "ImperativeNegative"@,
        Reason::Continuous => "Continuous"@,
        Reason::Ki => "Ki"@,
        Reason::SuruNoun => "SuruNoun"@,
        Reason::ZaruWoEnai => "ZaruWoEnai"@,
        Reason::NegativeTe => "NegativeTe"@,
        Reason::Irregular => "Irregular"@,
    }
}

/// The name of a reason.
pub fn reason_name(r: Reason) -> (s: String)
    ensures
        s@ == reason_text(r),
{
    match r {
        Reason::PolitePastNegative => "PolitePastNegative".to_string(),
        Reason::PoliteNegative => "PoliteNegative".to_string(),
        Reason::PoliteVolitional => "PoliteVolitional".to_string(),
        Reason::Chau => "Chau".to_string(),
        Reason::Sugiru => "Sugiru".to_string(),
        Reason::PolitePast => "PolitePast".to_string(),
        Reason::Tara => "Tara".to_string(),
        Reason::Tari => "Tari".to_string(),
        Reason::Causative => "Causative".to_string(),
        Reason::PotentialOrPassive => "PotentialOrPassive".to_string(),
        Reason::Toku => "Toku".to_string(),
        Reason::Sou => "Sou".to_string(),
        Reason::Tai => "Tai".to_string(),
        Reason::Polite => "Polite".to_string(),
        Reason::Respectful => "Respectful".to_string(),
        Reason::Humble => "Humble".to_string(),
        Reason::HumbleOrKansaiDialect => "HumbleOrKansaiDialect".to_string(),
        Reason::Past => "Past".to_string(),
        Reason::Negative => "Negative".to_string(),
        Reason::Passive => "Passive".to_string(),
        Reason::Ba => "Ba".to_string(),
        Reason::Volitional => "Volitional".to_string(),
        Reason::Potential => "Potential".to_string(),
        Reason::EruUru => "EruUru".to_string(),
        Reason::CausativePassive => "CausativePassive".to_string(),
        Reason::Te => "Te".to_string(),
        Reason::Zu => "Zu".to_string(),
        Reason::Imperative => "Imperative".to_string(),
        Reason::MasuStem => "MasuStem".to_string(),
        Reason::Adv => "Adv".to_string(),
        Reason::Noun => "Noun".to_string(),
        Reason::ImperativeNegative => "ImperativeNegative".to_string(),
        Reason::Continuous => "Continuous".to_string(),
        Reason::Ki => "Ki".to_string(),
        Reason::SuruNoun => "SuruNoun".to_string(),
        Reason::ZaruWoEnai => "ZaruWoEnai".to_string(),
        Reason::NegativeTe => "NegativeTe".to_string(),
        Reason::Irregular => "Irregular".to_string(),
    }
}

/// The reasons of all chains, chain after chain.
pub open spec fn flat_reasons(chains: Seq<Seq<Reason>>) -> Seq<Reason>
    decreases chains.len(),
{
    if chains.len() == 0 {
        seq![]
    } else {
        flat_reasons(chains.drop_last()) + chains.last()
    }
}

/// The rule names recorded for a deinflected match.
pub open spec fn rule_names(chains: Seq<Seq<Reason>>) -> Seq<Seq<char>> {
    flat_reasons(chains).map_values(|r: Reason| reason_text(r))
}

/// Whether `id` is among the ids of `hits`.
pub open spec fn id_seen(hits: Seq<(u64, int)>, id: u64) -> bool {
    exists|i: int| 0 <= i < hits.len() && (#[trigger] hits[i]).0 == id
}

/// The ids of `ids` not seen before (in `prev` or earlier in `ids`), each
/// paired with the candidate index `ci`.
pub open spec fn new_hits(prev: Seq<(u64, int)>, ids: Seq<u64>, ci: int) -> Seq<(u64, int)>
    decreases ids.len(),
{
    if ids.len() == 0 {
        seq![]
    } else {
        let before = new_hits(prev, ids.drop_last(), ci);
        if id_seen(prev + before, ids.last()) {
            before
        } else {
            before.push((ids.last(), ci))
        }
    }
}

/// The matches of deinflected candidates: for each candidate in order, the
/// ids of its word not found for an earlier candidate, with the index of
/// the candidate.
pub open spec fn deinflect_hits(ix: Indexes, cands: Seq<CandModel>) -> Seq<(u64, int)>
    decreases cands.len(),
{
    if cands.len() == 0 {
        seq![]
    } else {
        let prev = deinflect_hits(ix, cands.drop_last());
        prev + new_hits(prev, exact_ids(ix, cands.last().word), cands.len() - 1)
    }
}

/// Whether a candidate is the deinflected match of `id` through candidate
/// `c` for the looked-up `term`.
pub open spec fn deinflected_candidate(m: MatchCandidate, id: u64, c: CandModel, term: Seq<char>) -> bool {
    &&& m.id == id
    &&& m.key@ == c.word
    &&& m.match_type == MatchType::Deinflected
    &&& m.deinflection matches Some(info) && info.original_form@ == term && info.base_form@ == c.word
        && info.rules@.map_values(|s: String| s@) == rule_names(c.chains)
}

/// `pairs` without repeated ids, each id with its first key.
pub open spec fn first_per_id(pairs: Seq<(Seq<u8>, u64)>) -> Seq<(Seq<u8>, u64)>
    decreases pairs.len(),
{
    if pairs.len() == 0 {
        seq![]
    } else {
        let d = first_per_id(pairs.drop_last());
        if exists|i: int| 0 <= i < d.len() && (#[trigger] d[i]).1 == pairs.last().1 {
            d
        } else {
            d.push(pairs.last())
        }
    }
}

/// Whether a candidate is keyed match `p` of `term`: exact when the key
/// reads as the term, of type `other` otherwise.
pub open spec fn keyed_candidate(c: MatchCandidate, p: (Seq<u8>, u64), term: Seq<char>, other: MatchType) -> bool {
    plain_candidate(
        c,
        p.1,
        lossy_text(p.0),
        if lossy_text(p.0) == term {
            MatchType::Exact
        } else {
            other
        },
    )
}

/// Whether a key-value pair's key reads as `term`.
pub open spec fn key_is(p: (Seq<u8>, u64), term: Seq<char>) -> bool {
    lossy_text(p.0) == term
}

/// The matches of a prefix search: exact matches first, then the others,
/// each group in index order.
pub open spec fn prefix_order(pairs: Seq<(Seq<u8>, u64)>, term: Seq<char>) -> Seq<(Seq<u8>, u64)> {
    pairs.filter(|p: (Seq<u8>, u64)| key_is(p, term)) + pairs.filter(
        |p: (Seq<u8>, u64)| !key_is(p, term),
    )
}

/// Whether some pair of `s` for `id` has a key that reads as `term`.
pub open spec fn has_exact(s: Seq<(Seq<u8>, u64)>, term: Seq<char>, id: u64) -> bool {
    exists|j: int| 0 <= j < s.len() && s[j].1 == id && key_is(s[j], term)
}

/// The best pair for the id of `p`: the term's own bytes when some key of
/// that id reads as the term, `p` otherwise.
pub open spec fn best_pair(s: Seq<(Seq<u8>, u64)>, term: Seq<char>, p: (Seq<u8>, u64)) -> (
    Seq<u8>,
    u64,
) {
    if has_exact(s, term, p.1) {
        (encode_utf8(term), p.1)
    } else {
        p
    }
}

/// One pair per id, in the order the ids are first found, each the best
/// for its id.
pub open spec fn best_per_id(s: Seq<(Seq<u8>, u64)>, term: Seq<char>) -> Seq<(Seq<u8>, u64)> {
    first_per_id(s).map_values(|p: (Seq<u8>, u64)| best_pair(s, term, p))
}

/// The entries of the three term indexes whose key starts with `prefix`:
/// kana, then kanji, then romaji, each in key order.
pub open spec fn prefix_pairs(ix: Indexes, prefix: Seq<char>) -> Seq<(Seq<u8>, u64)> {
    let p = encode_utf8(prefix);
    prefix_listing(ix.kana, p) + prefix_listing(ix.kanji, p) + prefix_listing(ix.romaji, p)
}

/// What fuzzy searches of the three term indexes stream out: kana, then
/// kanji, then romaji.
pub open spec fn fuzzy_found(ix: Indexes, term: Seq<char>, d: u32) -> Seq<(Seq<u8>, u64)> {
    fst_fuzzy_search(ix.kana, term, d) + fst_fuzzy_search(ix.kanji, term, d) + fst_fuzzy_search(
        ix.romaji,
        term,
        d,
    )
}

/// The entries of the three term indexes whose key is within `d` edits of
/// `term`: kana, then kanji, then romaji, each in key order.
pub open spec fn fuzzy_pairs(ix: Indexes, term: Seq<char>, d: nat) -> Seq<(Seq<u8>, u64)> {
    fuzzy_listing(ix.kana, term, d) + fuzzy_listing(ix.kanji, term, d) + fuzzy_listing(
        ix.romaji,
        term,
        d,
    )
}

/// Whether `r` is what an exact lookup of `term` finds: one exact
/// candidate per id the term has in the indexes, in increasing id order.
pub open spec fn is_exact_result(ix: Indexes, term: Seq<char>, r: Seq<MatchCandidate>) -> bool {
    &&& r.len() == exact_ids(ix, term).len()
    &&& forall|i: int|
        0 <= i < r.len() ==> plain_candidate(
            #[trigger] r[i],
            exact_ids(ix, term)[i],
            term,
            MatchType::Exact,
        )
}

/// Whether `r` is what a lookup of `term` with deinflection finds: the
/// exact matches if there are any; otherwise, for each deinflected form in
/// turn, its exact matches that no earlier form found.
pub open spec fn is_deinflect_result(
    ix: Indexes,
    rules: Seq<Seq<RuleModel>>,
    term: Seq<char>,
    r: Seq<MatchCandidate>,
) -> bool {
    if exact_ids(ix, term).len() > 0 {
        is_exact_result(ix, term, r)
    } else {
        let cands = deinflect_model(rules, term);
        let hits = deinflect_hits(ix, cands);
        &&& r.len() == hits.len()
        &&& forall|i: int|
            0 <= i < r.len() ==> deinflected_candidate(
                #[trigger] r[i],
                hits[i].0,
                cands[hits[i].1],
                term,
            )
    }
}

/// Whether `r` is what a prefix lookup of `term` finds: one candidate per
/// id, in the order the ids are first found, keyed by the term itself when
/// any index key of the id reads as the term (an exact match) and by the
/// first key found for it otherwise; exact matches first. So an id is exact
/// exactly when one of its keys is the term, and when the term is itself a
/// kana key, its entry comes first.
pub open spec fn is_prefix_result(ix: Indexes, term: Seq<char>, r: Seq<MatchCandidate>) -> bool {
    let order = prefix_order(best_per_id(prefix_pairs(ix, term), term), term);
    &&& r.len() == order.len()
    &&& forall|i: int|
        0 <= i < r.len() ==> keyed_candidate(#[trigger] r[i], order[i], term, MatchType::Prefix)
    &&& forall|i: int|
        0 <= i < r.len() ==> ((#[trigger] r[i]).match_type == MatchType::Exact <==> has_exact(
            prefix_pairs(ix, term),
            term,
            r[i].id,
        ))
    &&& lookup_key(ix.kana, encode_utf8(term)) matches Some(id) ==> r.len() > 0 && r[0].id == id
        && r[0].match_type == MatchType::Exact && r[0].key@ == term
}

/// Whether `r` is what a fuzzy lookup of `term` within `d` edits finds:
/// one candidate per id, keyed by the first index key found for it, each
/// key within the distance; for an ASCII term every index entry within the
/// distance was found, so every id the term has exactly is among them.
pub open spec fn is_fuzzy_result(ix: Indexes, term: Seq<char>, d: u32, r: Seq<MatchCandidate>) -> bool {
    let found = first_per_id(fuzzy_found(ix, term, d));
    &&& r.len() == found.len()
    &&& forall|i: int|
        0 <= i < r.len() ==> keyed_candidate(#[trigger] r[i], found[i], term, MatchType::Fuzzy)
    &&& forall|i: int|
        0 <= i < found.len() ==> within_distance(#[trigger] found[i].0, term, d as nat)
    &&& is_ascii_chars(term) ==> fuzzy_found(ix, term, d) == fuzzy_pairs(ix, term, d as nat)
        && covers_ids(r, exact_ids(ix, term))
}

// ---------------------------------------------------------------------------
// The dictionary
// ---------------------------------------------------------------------------

pub struct Dict {
    pub(crate) entries_blob: Vec<u8>,
    pub(crate) kana_fst: fst::Map<Vec<u8>>,
    pub(crate) kanji_fst: fst::Map<Vec<u8>>,
    pub(crate) romaji_fst: fst::Map<Vec<u8>>,
    pub(crate) id_fst: fst::Map<Vec<u8>>,
    deinflector: Deinflector,
    data_version: DataVersion,
    header_size: usize,
}

/// Whether `d` is the dictionary made of these data files.
pub open spec fn dict_from(
    d: Dict,
    entries: Seq<u8>,
    kana_fst: Seq<u8>,
    kanji_fst: Seq<u8>,
    romaji_fst: Seq<u8>,
    id_fst: Seq<u8>,
) -> bool {
    &&& d.blob() == entries
    &&& fst_decode(kana_fst) == Some(d.indexes().kana)
    &&& fst_decode(kanji_fst) == Some(d.indexes().kanji)
    &&& fst_decode(romaji_fst) == Some(d.indexes().romaji)
    &&& fst_decode(id_fst) == Some(d.id_index())
    &&& d.rules() == group_by_length(rule_table())
    &&& parse_header_spec(entries) matches Ok(h) && d.header_len() == h.header_size
        && d.version_info() == (crate::model::FORMAT_VERSION, h.jmdict_version, h.generated_at)
}

/// The FST error is the library's `DataCorrupted`.
fn fst_or_corrupted(r: Result<fst::Map<Vec<u8>>, fst::Error>) -> (o: Result<fst::Map<Vec<u8>>, JmdictError>)
    ensures
        r is Ok <==> o is Ok,
        r matches Ok(m) ==> o == Ok::<fst::Map<Vec<u8>>, JmdictError>(m),
        r is Err ==> o matches Err(JmdictError::DataCorrupted),
{
    match r {
        Ok(m) => Ok(m),
        Err(_) => Err(JmdictError::DataCorrupted),
    }
}

fn copy_bytes(b: &[u8]) -> (r: Vec<u8>)
    ensures
        r@ == b@,
{
    let r = byte_range(b, 0, b.len());
    assert(b@.subrange(0, b@.len() as int) =~= b@);
    r
}

impl Dict {
    /// Every index of the dictionary was read from well-formed FST bytes,
    /// so it can be searched.
    #[verifier::type_invariant]
    spec fn indexes_sound(self) -> bool {
        &&& fst_sound(self.kana_fst)
        &&& fst_sound(self.kanji_fst)
        &&& fst_sound(self.romaji_fst)
        &&& fst_sound(self.id_fst)
    }

    /// What the kana, kanji and romaji indexes hold.
    pub closed spec fn indexes(&self) -> Indexes {
        Indexes {
            kana: fst_entries(self.kana_fst),
            kanji: fst_entries(self.kanji_fst),
            romaji: fst_entries(self.romaji_fst),
        }
    }

    /// What the JMdict id index holds.
    pub closed spec fn id_index(&self) -> Map<Seq<u8>, u64> {
        fst_entries(self.id_fst)
    }

    /// The bytes of `entries.bin`.
    pub closed spec fn blob(&self) -> Seq<u8> {
        self.entries_blob@
    }

    /// How many bytes precede the entry count in the blob.
    pub closed spec fn header_len(&self) -> nat {
        self.header_size as nat
    }

    /// The deinflection rule groups.
    pub closed spec fn rules(&self) -> Seq<Seq<RuleModel>> {
        self.deinflector@
    }

    /// The format version, JMdict version and generation time of the data.
    pub closed spec fn version_info(&self) -> (u32, Seq<char>, Seq<char>) {
        (
            self.data_version.format_version,
            self.data_version.jmdict_version@,
            self.data_version.generated_at@,
        )
    }

    /// Construct a Dict from in-memory data files (e.g., embedded bytes).
    /// The entry header is checked first. The four index files must be
    /// FST maps as fst's builder writes them (as the data generator does):
    /// fst does not check this, and searching a malformed one may panic.
    pub fn from_slices(
        entries: &[u8],
        kana_fst: &[u8],
        kanji_fst: &[u8],
        romaji_fst: &[u8],
        id_fst: &[u8],
    ) -> (r: Result<Self, JmdictError>)
        requires
            fst_well_formed(kana_fst@),
            fst_well_formed(kanji_fst@),
            fst_well_formed(romaji_fst@),
            fst_well_formed(id_fst@),
        ensures
            parse_header_spec(entries@) matches Err(f) ==> (r matches Err(e) && crate::blob::error_for_fault(&e, f)),
            parse_header_spec(entries@) is Ok ==> r is Ok,
            r matches Ok(d) ==> dict_from(d, entries@, kana_fst@, kanji_fst@, romaji_fst@, id_fst@),
    {
        let header = match parse_entries_header(entries) {
            Ok(h) => h,
            Err(e) => return Err(e),
        };
        let kana = match fst_or_corrupted(fst_map_new(copy_bytes(kana_fst))) {
            Ok(m) => m,
            Err(e) => return Err(e),
        };
        let kanji = match fst_or_corrupted(fst_map_new(copy_bytes(kanji_fst))) {
            Ok(m) => m,
            Err(e) => return Err(e),
        };
        let romaji = match fst_or_corrupted(fst_map_new(copy_bytes(romaji_fst))) {
            Ok(m) => m,
            Err(e) => return Err(e),
        };
        let id = match fst_or_corrupted(fst_map_new(copy_bytes(id_fst))) {
            Ok(m) => m,
            Err(e) => return Err(e),
        };
        Ok(
            Dict {
                entries_blob: copy_bytes(entries),
                kana_fst: kana,
                kanji_fst: kanji,
                romaji_fst: romaji,
                id_fst: id,
                deinflector: Deinflector::new(),
                data_version: header.data_version,
                header_size: header.header_size,
            },
        )
    }

    /// Construct a Dict from the entry file and the four built indexes,
    /// encoding each index as an FST map in memory.
    pub fn from_indexes(
        entries: &[u8],
        kana: &Vec<(String, u64)>,
        kanji: &Vec<(String, u64)>,
        romaji: &Vec<(String, u64)>,
        ids: &Vec<(String, u64)>,
    ) -> (r: Result<Self, JmdictError>)
        requires
            keys_increasing(byte_keys(keys_view(kana@))),
            keys_increasing(byte_keys(keys_view(kanji@))),
            keys_increasing(byte_keys(keys_view(romaji@))),
            keys_increasing(byte_keys(keys_view(ids@))),
        ensures
            parse_header_spec(entries@) matches Err(f) ==> (r matches Err(e) && crate::blob::error_for_fault(&e, f)),
            parse_header_spec(entries@) is Ok ==> r is Ok,
            r matches Ok(d) ==> {
                &&& d.blob() == entries@
                &&& d.indexes().kana == pairs_map(byte_keys(keys_view(kana@)))
                &&& d.indexes().kanji == pairs_map(byte_keys(keys_view(kanji@)))
                &&& d.indexes().romaji == pairs_map(byte_keys(keys_view(romaji@)))
                &&& d.id_index() == pairs_map(byte_keys(keys_view(ids@)))
            },
    {
        let kana_bytes = index_fst_bytes(kana);
        let kanji_bytes = index_fst_bytes(kanji);
        let romaji_bytes = index_fst_bytes(romaji);
        let id_bytes = index_fst_bytes(ids);
        let r = Dict::from_slices(
            entries,
            kana_bytes.as_slice(),
            kanji_bytes.as_slice(),
            romaji_bytes.as_slice(),
            id_bytes.as_slice(),
        );
        proof {
            if r is Ok {
                assert(dict_from(r->Ok_0, entries@, kana_bytes@, kanji_bytes@, romaji_bytes@, id_bytes@));
            }
        }
        r
    }

    /// Whether the entry count can be read from the blob.
    pub open spec fn has_count(&self) -> bool {
        self.header_len() + 4 <= self.blob().len()
    }

    /// Whether the entry count can be read from the blob.
    pub fn can_read_count(&self) -> (r: bool)
        ensures
            r == self.has_count(),
    {
        self.header_size <= self.entries_blob.len() && self.entries_blob.len() - self.header_size
            >= 4
    }

    /// Whether entry `id` can be located in the blob without reading past
    /// its end.
    pub fn can_locate(&self, id: u64) -> (r: bool)
        ensures
            r == self.entry_locatable(id),
    {
        let d = self.entries_blob.as_slice();
        let hs = self.header_size;
        if !(hs <= d.len() && d.len() - hs >= 4) {
            return false;
        }
        let count = count_at(d, hs);
        if id >= count as u64 {
            return true;
        }
        let len = d.len() as u128;
        let row = hs as u128 + 4 + (id as u128) * 8;
        if row + 8 > len {
            return false;
        }
        let row_at = (hs + 4) + (id as usize) * 8;
        let off = crate::blob::read_u32(d, row_at);
        let size = crate::blob::read_u32(d, row_at + 4);
        let end = hs as u128 + 4 + (count as u128) * 8 + off as u128 + size as u128;
        end <= len
    }

    /// Returns the total number of entries in the dictionary.
    pub fn entry_count(&self) -> (r: usize)
        requires
            self.has_count(),
        ensures
            r == u32_at(self.blob(), self.header_len() as int),
    {
        count_at(self.entries_blob.as_slice(), self.header_size) as usize
    }

    /// Returns data version information (format version, JMdict source
    /// version, generation timestamp).
    pub fn version(&self) -> (r: DataVersion)
        ensures
            (r.format_version, r.jmdict_version@, r.generated_at@) == self.version_info(),
    {
        DataVersion {
            format_version: self.data_version.format_version,
            jmdict_version: self.data_version.jmdict_version.clone(),
            generated_at: self.data_version.generated_at.clone(),
        }
    }

    /// The ids a term has in the term indexes, in increasing order.
    fn exact_id_list(&self, term: &str) -> (r: Vec<u64>)
        ensures
            r@ == exact_ids(self.indexes(), term@),
    {
        proof {
            use_type_invariant(self);
        }
        let key = term.as_bytes();
        let mut ids: Vec<u64> = Vec::new();
        insert_id(&mut ids, fst_get(&self.kana_fst, key));
        insert_id(&mut ids, fst_get(&self.kanji_fst, key));
        insert_id(&mut ids, fst_get(&self.romaji_fst, key));
        ids
    }

    /// Lookup a term exactly across kana, kanji and romaji: one exact
    /// candidate per id, in increasing id order.
    pub fn exact_candidates(&self, term: &str) -> (r: Vec<MatchCandidate>)
        ensures
            is_exact_result(self.indexes(), term@, r@),
    {
        let ids = self.exact_id_list(term);
        let mut r: Vec<MatchCandidate> = Vec::new();
        let mut k: usize = 0;
        while k < ids.len()
            invariant
                k <= ids.len(),
                r@.len() == k,
                forall|i: int|
                    0 <= i < k ==> plain_candidate(#[trigger] r@[i], ids@[i], term@, MatchType::Exact),
            decreases ids.len() - k,
        {
            r.push(
                MatchCandidate {
                    id: ids[k],
                    key: term.to_string(),
                    match_type: MatchType::Exact,
                    deinflection: None,
                },
            );
            k += 1;
        }
        r
    }

    /// Lookup a term with deinflection fallback: the exact matches if there
    /// are any; otherwise, for each deinflected form in turn, its exact
    /// matches that no earlier form found.
    pub fn deinflect_candidates(&self, term: &str) -> (r: Vec<MatchCandidate>)
        ensures
            is_deinflect_result(self.indexes(), self.rules(), term@, r@),
    {
        // First try exact
        let exact = self.exact_candidates(term);
        if exact.len() > 0 {
            return exact;
        }
        // Then deinflect
        let deinflected = self.deinflector.deinflect(term);
        let ghost cands = deinflect_model(self.rules(), term@);
        let mut r: Vec<MatchCandidate> = Vec::new();
        let ghost mut hits: Seq<(u64, int)> = seq![];
        let mut j: usize = 0;
        while j < deinflected.len()
            invariant
                j <= deinflected.len(),
                deinflected@.len() == cands.len(),
                forall|i: int|
                    0 <= i < deinflected@.len() ==> candidate_matches(
                        #[trigger] deinflected@[i],
                        cands[i],
                    ),
                hits == deinflect_hits(self.indexes(), cands.take(j as int)),
                r@.len() == hits.len(),
                forall|i: int| 0 <= i < hits.len() ==> 0 <= (#[trigger] hits[i]).1 < j,
                forall|i: int|
                    0 <= i < r@.len() ==> deinflected_candidate(
                        #[trigger] r@[i],
                        hits[i].0,
                        cands[hits[i].1],
                        term@,
                    ),
            decreases deinflected.len() - j,
        {
            let candidate = &deinflected[j];
            let ids = self.exact_id_list(candidate.word.as_str());
            let ghost prev = hits;
            let ghost c = cands[j as int];
            assert(candidate.word@ == c.word);
            let rules = self.rule_name_list(&candidate.reason_chains);
            let mut k: usize = 0;
            while k < ids.len()
                invariant
                    k <= ids.len(),
                    j < deinflected.len(),
                    ids@ == exact_ids(self.indexes(), c.word),
                    c == cands[j as int],
                    candidate.word@ == c.word,
                    rules@.map_values(|s: String| s@) == rule_names(c.chains),
                    hits == prev + new_hits(prev, ids@.take(k as int), j as int),
                    r@.len() == hits.len(),
                    forall|i: int| 0 <= i < hits.len() ==> 0 <= (#[trigger] hits[i]).1 <= j,
                    forall|i: int|
                        0 <= i < r@.len() ==> deinflected_candidate(
                            #[trigger] r@[i],
                            hits[i].0,
                            cands[hits[i].1],
                            term@,
                        ),
                decreases ids.len() - k,
            {
                let id = ids[k];
                let mut seen = false;
                let mut m: usize = 0;
                while m < r.len()
                    invariant
                        m <= r.len(),
                        r@.len() == hits.len(),
                        forall|i: int|
                            0 <= i < r@.len() ==> deinflected_candidate(
                                #[trigger] r@[i],
                                hits[i].0,
                                cands[hits[i].1],
                                term@,
                            ),
                        seen == (exists|i: int| 0 <= i < m && (#[trigger] hits[i]).0 == id),
                    decreases r.len() - m,
                {
                    if r[m].id == id {
                        seen = true;
                    }
                    m += 1;
                }
                proof {
                    assert(ids@.take(k + 1).drop_last() =~= ids@.take(k as int));
                    assert(ids@.take(k + 1).last() == id);
                    let before = new_hits(prev, ids@.take(k as int), j as int);
                    assert(prev + before == hits);
                    assert(seen == id_seen(hits, id));
                }
                if !seen {
                    let info = DeinflectionInfo {
                        original_form: term.to_string(),
                        base_form: candidate.word.clone(),
                        rules: copy_strings(&rules),
                    };
                    r.push(
                        MatchCandidate {
                            id,
                            key: candidate.word.clone(),
                            match_type: MatchType::Deinflected,
                            deinflection: Some(info),
                        },
                    );
                    proof {
                        hits = hits.push((id, j as int));
                    }
                }
                k += 1;
                proof {
                    assert(prev + new_hits(prev, ids@.take(k as int), j as int) =~= hits);
                }
            }
            proof {
                assert(ids@.take(ids@.len() as int) =~= ids@);
                assert(cands.take(j + 1).drop_last() =~= cands.take(j as int));
                assert(cands.take(j + 1).last() == c);
            }
            j += 1;
        }
        proof {
            assert(cands.take(cands.len() as int) =~= cands);
        }
        r
    }

    /// The rule names of reason chains, chain after chain.
    fn rule_name_list(&self, chains: &Vec<Vec<Reason>>) -> (r: Vec<String>)
        ensures
            r@.map_values(|s: String| s@) == rule_names(chains_view(chains@)),
    {
        let ghost cs = chains_view(chains@);
        let mut r: Vec<String> = Vec::new();
        let mut a: usize = 0;
        while a < chains.len()
            invariant
                a <= chains.len(),
                cs == chains_view(chains@),
                r@.map_values(|s: String| s@) == rule_names(cs.take(a as int)),
            decreases chains.len() - a,
        {
            let chain = &chains[a];
            let ghost base = r@.map_values(|s: String| s@);
            let mut b: usize = 0;
            while b < chain.len()
                invariant
                    b <= chain.len(),
                    a < chains.len(),
                    chain@ == cs[a as int],
                    r@.map_values(|s: String| s@) == base + chain@.take(b as int).map_values(
                        |x: Reason| reason_text(x),
                    ),
                decreases chain.len() - b,
            {
                let ghost before = r@;
                let name = reason_name(chain[b]);
                r.push(name);
                b += 1;
                proof {
                    assert(r@ == before.push(name));
                    assert(r@.map_values(|s: String| s@) =~= before.map_values(|s: String| s@).push(
                        reason_text(chain@[b - 1]),
                    ));
                    assert(chain@.take(b as int) =~= chain@.take(b - 1).push(chain@[b - 1]));
                    assert(chain@.take(b as int).map_values(|x: Reason| reason_text(x))
                        =~= chain@.take(b - 1).map_values(|x: Reason| reason_text(x)).push(
                        reason_text(chain@[b - 1]),
                    ));
                }
            }
            proof {
                assert(chain@.take(chain@.len() as int) =~= chain@);
                assert(cs.take(a + 1).drop_last() =~= cs.take(a as int));
                assert(flat_reasons(cs.take(a + 1)) == flat_reasons(cs.take(a as int)) + cs[a as int]);
                assert(rule_names(cs.take(a + 1)) =~= rule_names(cs.take(a as int)) + cs[a as int].map_values(
                    |x: Reason| reason_text(x),
                ));
            }
            a += 1;
        }
        proof {
            assert(cs.take(cs.len() as int) =~= cs);
        }
        r
    }

    /// Lookup entries that start with the given term (prefix search): one
    /// candidate per id, exact (keyed by the term) when any of the id's keys
    /// is the term and keyed by the first index key found for it otherwise;
    /// exact matches first.
    pub fn prefix_candidates(&self, prefix: &str) -> (r: Vec<MatchCandidate>)
        ensures
            is_prefix_result(self.indexes(), prefix@, r@),
    {
        proof {
            use_type_invariant(self);
        }
        let mut pairs = fst_prefix_pairs(&self.kana_fst, prefix);
        let ghost pk = pairs_view(pairs@);
        let kanji = fst_prefix_pairs(&self.kanji_fst, prefix);
        let romaji = fst_prefix_pairs(&self.romaji_fst, prefix);
        append_pairs(&mut pairs, kanji);
        append_pairs(&mut pairs, romaji);
        let keyed = best_keyed_candidates(&pairs, prefix, MatchType::Prefix);
        let ghost all = prefix_pairs(self.indexes(), prefix@);
        let r = exact_first(keyed, Ghost(best_per_id(all, prefix@)), prefix);
        proof {
            let k = encode_utf8(prefix@);
            vstd::utf8::encode_utf8_valid_utf8(prefix@);
            vstd::utf8::encode_utf8_decode_utf8(prefix@);
            if self.indexes().kana.dom().contains(k) {
                lemma_prefix_listing_first(pk, self.indexes().kana, k);
                assert(all[0] == pk[0]);
                lemma_first_per_id_head(all);
                let f = best_per_id(all, prefix@);
                assert(key_is(all[0], prefix@));
                assert(has_exact(all, prefix@, all[0].1));
                assert(f[0] == best_pair(all, prefix@, all[0]));
                assert(key_is(f[0], prefix@));
                let pred = |p: (Seq<u8>, u64)| key_is(p, prefix@);
                assert(f =~= seq![f[0]] + f.skip(1));
                f.skip(1).lemma_filter_prepend(f[0], pred);
                assert(prefix_order(f, prefix@)[0] == f[0]);
                assert(keyed_candidate(r@[0], f[0], prefix@, MatchType::Prefix));
            }
            lemma_best_exact(all, prefix@, r@);
        }
        r
    }

    /// Lookup entries within `max_distance` character edits of `term`
    /// (fuzzy search): one candidate per id, keyed by the first index key
    /// found for it, in the order found (kana, kanji, romaji, each in key
    /// order). `InvalidQuery` where no search automaton can be built. For a
    /// query of ASCII characters every index entry within the distance is
    /// found, so every id the term has exactly is among the candidates.
    pub fn fuzzy_candidates(&self, term: &str, max_distance: u32) -> (r: Result<
        Vec<MatchCandidate>,
        JmdictError,
    >)
        ensures
            r is Err <==> levenshtein_refused(term@, max_distance),
            r matches Err(e) ==> e is InvalidQuery,
            r matches Ok(v) ==> is_fuzzy_result(self.indexes(), term@, max_distance, v@),
    {
        proof {
            use_type_invariant(self);
        }
        let mut pairs = match fst_fuzzy_pairs(&self.kana_fst, term, max_distance) {
            Some(p) => p,
            None => return Err(JmdictError::InvalidQuery),
        };
        let kanji = match fst_fuzzy_pairs(&self.kanji_fst, term, max_distance) {
            Some(p) => p,
            None => return Err(JmdictError::InvalidQuery),
        };
        let romaji = match fst_fuzzy_pairs(&self.romaji_fst, term, max_distance) {
            Some(p) => p,
            None => return Err(JmdictError::InvalidQuery),
        };
        let ghost pk = pairs_view(pairs@);
        let ghost pj = pairs_view(kanji@);
        let ghost pr = pairs_view(romaji@);
        append_pairs(&mut pairs, kanji);
        append_pairs(&mut pairs, romaji);
        assert(pairs_view(pairs@) == pk + pj + pr);
        let r = keyed_candidates(&pairs, term, MatchType::Fuzzy);
        proof {
            lemma_fuzzy_candidates(self.indexes(), term@, max_distance as nat, pk, pj, pr, r@);
        }
        Ok(r)
    }

    /// A query builder for `term`: an exact lookup, unfiltered.
    pub fn lookup(&self, term: &str) -> (r: QueryBuilder<'_>)
        ensures
            r.dict == self,
            r.term@ == term@,
            r.mode == MatchMode::Exact,
            unfiltered(r.filter),
            r.max_distance == 2,
    {
        QueryBuilder::new(self, term)
    }

    /// A batch query builder for several terms: exact lookups, unfiltered.
    pub fn lookup_batch(&self, terms: &[&str]) -> (r: BatchQueryBuilder<'_>)
        ensures
            r.dict == self,
            texts(r.terms@) == str_texts(terms@),
            r.mode == MatchMode::Exact,
            unfiltered(r.filter),
            r.max_distance == 2,
    {
        BatchQueryBuilder::new(self, owned_strings(terms))
    }

    /// Whether entry `id` can be located in the blob without reading past
    /// its end.
    pub open spec fn entry_locatable(&self, id: u64) -> bool {
        entry_readable(self.blob(), self.header_len() as int, id as int)
    }

    /// The serialized bytes of entry `id`, or `None` for an id past the
    /// entry count.
    pub fn entry_bytes(&self, id: u64) -> (r: Option<Vec<u8>>)
        requires
            self.entry_locatable(id),
        ensures
            match entry_span_spec(self.blob(), self.header_len() as int, id as int) {
                Some((s, e)) => r matches Some(b) && b@ == self.blob().subrange(s, e),
                None => r is None,
            },
    {
        match entry_span(self.entries_blob.as_slice(), self.header_size, id) {
            Some((start, end)) => Some(byte_range(self.entries_blob.as_slice(), start, end)),
            None => None,
        }
    }
}

/// Inserts an id in order into a strictly increasing list, unless present.
fn insert_id(ids: &mut Vec<u64>, o: Option<u64>)
    ensures
        final(ids)@ == add_id(old(ids)@, o),
{
    match o {
        None => {},
        Some(x) => {
            let ghost s = ids@;
            assert(s.take(0) =~= Seq::<u64>::empty());
            assert(s.skip(0) =~= s);
            let mut k: usize = 0;
            while k < ids.len() && ids[k] < x
                invariant
                    k <= ids.len(),
                    ids@ == s,
                    forall|i: int| 0 <= i < k ==> ids@[i] < x,
                    insert_sorted(s, x) == s.take(k as int) + insert_sorted(s.skip(k as int), x),
                decreases ids.len() - k,
            {
                proof {
                    lemma_insert_sorted_step(s, x, k as int);
                }
                k += 1;
            }
            if k < ids.len() && ids[k] == x {
                proof {
                    assert(s.skip(k as int)[0] == x);
                    assert(s.take(k as int) + s.skip(k as int) =~= s);
                }
                return;
            }
            proof {
                if k < s.len() {
                    assert(s.skip(k as int)[0] > x);
                    assert(insert_sorted(s.skip(k as int), x) == seq![x] + s.skip(k as int));
                } else {
                    assert(s.skip(k as int) =~= Seq::<u64>::empty());
                }
            }
            ids.insert(k, x);
            proof {
                assert(ids@ =~= s.take(k as int) + (seq![x] + s.skip(k as int)));
            }
        },
    }
}

proof fn lemma_insert_sorted_step(s: Seq<u64>, x: u64, k: int)
    requires
        0 <= k < s.len(),
        s[k] < x,
        insert_sorted(s, x) == s.take(k) + insert_sorted(s.skip(k), x),
    ensures
        insert_sorted(s, x) == s.take(k + 1) + insert_sorted(s.skip(k + 1), x),
{
    let t = s.skip(k);
    assert(t[0] == s[k]);
    assert(t.drop_first() =~= s.skip(k + 1));
    assert(insert_sorted(t, x) == seq![t[0]] + insert_sorted(s.skip(k + 1), x));
    assert(s.take(k) + (seq![s[k]] + insert_sorted(s.skip(k + 1), x)) =~= s.take(k + 1)
        + insert_sorted(s.skip(k + 1), x));
}

fn copy_strings(v: &Vec<String>) -> (r: Vec<String>)
    ensures
        r@.map_values(|s: String| s@) == v@.map_values(|s: String| s@),
{
    let mut r: Vec<String> = Vec::new();
    let mut k: usize = 0;
    while k < v.len()
        invariant
            k <= v.len(),
            r@.len() == k,
            forall|i: int| 0 <= i < k ==> (#[trigger] r@[i])@ == v@[i]@,
        decreases v.len() - k,
    {
        r.push(v[k].clone());
        k += 1;
    }
    assert(r@.map_values(|s: String| s@) =~= v@.map_values(|s: String| s@));
    r
}

/// Appends `more` to `pairs`.
fn append_pairs(pairs: &mut Vec<(Vec<u8>, u64)>, more: Vec<(Vec<u8>, u64)>)
    ensures
        pairs_view(final(pairs)@) == pairs_view(old(pairs)@) + pairs_view(more@),
{
    let mut more = more;
    let ghost m = more@;
    pairs.append(&mut more);
    assert(pairs_view(pairs@) =~= pairs_view(old(pairs)@) + pairs_view(m));
}

/// Candidates from index matches: one per id, keyed by the first key found
/// for it, exact when the key reads as `term` and of type `other`
/// otherwise, in the order found.
pub fn keyed_candidates(pairs: &Vec<(Vec<u8>, u64)>, term: &str, other: MatchType) -> (r: Vec<
    MatchCandidate,
>)
    ensures
        r@.len() == first_per_id(pairs_view(pairs@)).len(),
        forall|i: int|
            0 <= i < r@.len() ==> keyed_candidate(
                #[trigger] r@[i],
                first_per_id(pairs_view(pairs@))[i],
                term@,
                other,
            ),
{
    let ghost ps = pairs_view(pairs@);
    let mut r: Vec<MatchCandidate> = Vec::new();
    let mut k: usize = 0;
    while k < pairs.len()
        invariant
            k <= pairs.len(),
            ps == pairs_view(pairs@),
            r@.len() == first_per_id(ps.take(k as int)).len(),
            forall|i: int|
                0 <= i < r@.len() ==> keyed_candidate(
                    #[trigger] r@[i],
                    first_per_id(ps.take(k as int))[i],
                    term@,
                    other,
                ),
        decreases pairs.len() - k,
    {
        let ghost d = first_per_id(ps.take(k as int));
        let id = pairs[k].1;
        let mut seen = false;
        let mut m: usize = 0;
        while m < r.len()
            invariant
                m <= r.len(),
                r@.len() == d.len(),
                forall|i: int| 0 <= i < r@.len() ==> (#[trigger] r@[i]).id == d[i].1,
                seen == (exists|i: int| 0 <= i < m && (#[trigger] d[i]).1 == id),
            decreases r.len() - m,
        {
            if r[m].id == id {
                seen = true;
            }
            m += 1;
        }
        proof {
            assert(ps.take(k + 1).drop_last() =~= ps.take(k as int));
            assert(ps.take(k + 1).last() == ps[k as int]);
            assert forall|i: int| 0 <= i < r@.len() implies (#[trigger] r@[i]).id == d[i].1 by {
                assert(keyed_candidate(r@[i], d[i], term@, other));
            }
        }
        if !seen {
            let key = from_utf8_lossy(pairs[k].0.as_slice());
            let match_type = if same_text(key.as_str(), term) {
                MatchType::Exact
            } else {
                other
            };
            r.push(MatchCandidate { id, key, match_type, deinflection: None });
        }
        k += 1;
    }
    assert(ps.take(pairs.len() as int) =~= ps);
    r
}

/// Candidates from index matches keeping the best match per id: one per
/// id, in the order the ids are found, exact (keyed by `term`) when any key
/// of the id reads as `term`, keyed by the first key found for it otherwise.
#[verifier::rlimit(60)]
fn best_keyed_candidates(pairs: &Vec<(Vec<u8>, u64)>, term: &str, other: MatchType) -> (r: Vec<
    MatchCandidate,
>)
    requires
        other != MatchType::Exact,
    ensures
        r@.len() == best_per_id(pairs_view(pairs@), term@).len(),
        forall|i: int|
            0 <= i < r@.len() ==> keyed_candidate(
                #[trigger] r@[i],
                best_per_id(pairs_view(pairs@), term@)[i],
                term@,
                other,
            ),
{
    let ghost ps = pairs_view(pairs@);
    let ghost f = first_per_id(ps);
    let mut r = keyed_candidates(pairs, term, other);
    proof {
        lemma_first_per_id_members(ps);
        lemma_first_per_id_distinct(ps);
        vstd::utf8::encode_utf8_valid_utf8(term@);
        vstd::utf8::encode_utf8_decode_utf8(term@);
        assert forall|i: int| 0 <= i < r@.len() implies keyed_candidate(
            #[trigger] r@[i],
            best_pair(ps.take(0), term@, f[i]),
            term@,
            other,
        ) by {}
    }
    let mut j: usize = 0;
    while j < pairs.len()
        invariant
            j <= pairs.len(),
            ps == pairs_view(pairs@),
            f == first_per_id(ps),
            other != MatchType::Exact,
            r@.len() == f.len(),
            lossy_text(encode_utf8(term@)) == term@,
            forall|a: int, b: int| 0 <= a < b < f.len() ==> f[a].1 != f[b].1,
            forall|k: int|
                0 <= k < ps.len() ==> exists|i: int| 0 <= i < f.len() && f[i].1 == (#[trigger] ps[k]).1,
            forall|i: int|
                0 <= i < r@.len() ==> keyed_candidate(
                    #[trigger] r@[i],
                    best_pair(ps.take(j as int), term@, f[i]),
                    term@,
                    other,
                ),
        decreases pairs.len() - j,
    {
        let ghost t = ps.take(j as int);
        let ghost t1 = ps.take(j + 1);
        let ghost q = ps[j as int];
        proof {
            assert(t1 =~= t.push(q));
            assert(pairs_view(pairs@)[j as int] == (pairs@[j as int].0@, pairs@[j as int].1));
        }
        let key = from_utf8_lossy(pairs[j].0.as_slice());
        let id = pairs[j].1;
        if same_text(key.as_str(), term) {
            let mut m: usize = 0;
            while m < r.len() && r[m].id != id
                invariant
                    m <= r@.len(),
                    r@.len() == f.len(),
                    forall|i: int| 0 <= i < r@.len() ==> (#[trigger] r@[i]).id == f[i].1,
                    forall|i: int| 0 <= i < m ==> (#[trigger] f[i]).1 != id,
                decreases r.len() - m,
            {
                m += 1;
            }
            proof {
                assert forall|i: int| 0 <= i < r@.len() implies (#[trigger] r@[i]).id == f[i].1 by {
                    assert(keyed_candidate(r@[i], best_pair(t, term@, f[i]), term@, other));
                }
            }
            if m < r.len() {
                let ghost old_r = r@;
                r.set(m, MatchCandidate {
                    id,
                    key: term.to_string(),
                    match_type: MatchType::Exact,
                    deinflection: None,
                });
                proof {
                    assert(key_is(q, term@));
                    assert(has_exact(t1, term@, id)) by {
                        assert(t1[j as int] == q);
                    }
                    assert forall|i: int| 0 <= i < r@.len() implies keyed_candidate(
                        #[trigger] r@[i],
                        best_pair(t1, term@, f[i]),
                        term@,
                        other,
                    ) by {
                        if i != m {
                            assert(old_r[i] == r@[i]);
                            assert(keyed_candidate(old_r[i], best_pair(t, term@, f[i]), term@, other));
                            assert(f[i].1 != id);
                            lemma_has_exact_push(t, q, term@, f[i].1);
                        } else {
                            assert(f[m as int].1 == id);
                        }
                    }
                }
            } else {
                proof {
                    let i0 = choose|i: int| 0 <= i < f.len() && f[i].1 == ps[j as int].1;
                    assert(f[i0].1 != id);
                }
            }
        } else {
            proof {
                assert(!key_is(q, term@));
                assert forall|i: int| 0 <= i < r@.len() implies keyed_candidate(
                    #[trigger] r@[i],
                    best_pair(t1, term@, f[i]),
                    term@,
                    other,
                ) by {
                    assert(keyed_candidate(r@[i], best_pair(t, term@, f[i]), term@, other));
                    lemma_has_exact_push(t, q, term@, f[i].1);
                }
            }
        }
        j += 1;
    }
    proof {
        assert(ps.take(pairs.len() as int) =~= ps);
    }
    r
}

/// The candidates with exact matches moved to the front, each group kept
/// in order (a stable sort by match quality).
fn exact_first(cands: Vec<MatchCandidate>, Ghost(pairs): Ghost<Seq<(Seq<u8>, u64)>>, term: &str) -> (r: Vec<
    MatchCandidate,
>)
    requires
        cands@.len() == pairs.len(),
        forall|i: int|
            0 <= i < cands@.len() ==> keyed_candidate(#[trigger] cands@[i], pairs[i], term@, MatchType::Prefix),
    ensures
        r@.len() == prefix_order(pairs, term@).len(),
        forall|i: int|
            0 <= i < r@.len() ==> keyed_candidate(
                #[trigger] r@[i],
                prefix_order(pairs, term@)[i],
                term@,
                MatchType::Prefix,
            ),
{
    let mut exact: Vec<MatchCandidate> = Vec::new();
    let mut others: Vec<MatchCandidate> = Vec::new();
    let mut cands = cands;
    let ghost all = cands@;
    let n = cands.len();
    let mut k: usize = 0;
    while k < n
        invariant
            k <= n,
            n == all.len(),
            all.len() == pairs.len(),
            forall|i: int|
                0 <= i < all.len() ==> keyed_candidate(#[trigger] all[i], pairs[i], term@, MatchType::Prefix),
            exact@.len() == pairs.take(k as int).filter(|p: (Seq<u8>, u64)| key_is(p, term@)).len(),
            forall|i: int|
                0 <= i < exact@.len() ==> keyed_candidate(
                    #[trigger] exact@[i],
                    pairs.take(k as int).filter(|p: (Seq<u8>, u64)| key_is(p, term@))[i],
                    term@,
                    MatchType::Prefix,
                ),
            others@.len() == pairs.take(k as int).filter(|p: (Seq<u8>, u64)| !key_is(p, term@)).len(),
            forall|i: int|
                0 <= i < others@.len() ==> keyed_candidate(
                    #[trigger] others@[i],
                    pairs.take(k as int).filter(|p: (Seq<u8>, u64)| !key_is(p, term@))[i],
                    term@,
                    MatchType::Prefix,
                ),
            cands@.len() == all.len() - k,
            forall|i: int| 0 <= i < cands@.len() ==> cands@[i] == all[k + i],
        decreases n - k,
    {
        let c = cands.remove(0);
        proof {
            assert(pairs.take(k + 1).drop_last() =~= pairs.take(k as int));
            assert(pairs.take(k + 1).last() == pairs[k as int]);
            reveal(Seq::filter);
            assert(pairs.take(k + 1).filter(|p: (Seq<u8>, u64)| key_is(p, term@)) == if key_is(pairs[k as int], term@) {
                pairs.take(k as int).filter(|p: (Seq<u8>, u64)| key_is(p, term@)).push(pairs[k as int])
            } else {
                pairs.take(k as int).filter(|p: (Seq<u8>, u64)| key_is(p, term@))
            });
            assert(pairs.take(k + 1).filter(|p: (Seq<u8>, u64)| !key_is(p, term@)) == if !key_is(pairs[k as int], term@) {
                pairs.take(k as int).filter(|p: (Seq<u8>, u64)| !key_is(p, term@)).push(pairs[k as int])
            } else {
                pairs.take(k as int).filter(|p: (Seq<u8>, u64)| !key_is(p, term@))
            });
            assert(c == all[k as int]);
            assert(keyed_candidate(c, pairs[k as int], term@, MatchType::Prefix));
        }
        if c.match_type == MatchType::Exact {
            proof {
                assert(key_is(pairs[k as int], term@));
            }
            exact.push(c);
        } else {
            others.push(c);
        }
        k += 1;
    }
    assert(pairs.take(all.len() as int) =~= pairs);
    let ghost e = exact@;
    exact.append(&mut others);
    exact
}

// ---------------------------------------------------------------------------
// One candidate per id
// ---------------------------------------------------------------------------

/// Whether the ids of `h` are pairwise distinct.
pub open spec fn distinct_hit_ids(h: Seq<(u64, int)>) -> bool {
    forall|i: int, j: int| 0 <= i < j < h.len() ==> h[i].0 != h[j].0
}

proof fn lemma_push_fresh(h: Seq<(u64, int)>, e: (u64, int))
    requires
        distinct_hit_ids(h),
        !id_seen(h, e.0),
    ensures
        distinct_hit_ids(h.push(e)),
{
    assert forall|i: int, j: int| 0 <= i < j < h.push(e).len() implies h.push(e)[i].0 != h.push(
        e,
    )[j].0 by {
        if j == h.len() {
            assert(h.push(e)[i] == h[i]);
        } else {
            assert(h.push(e)[i] == h[i]);
            assert(h.push(e)[j] == h[j]);
        }
    }
}

proof fn lemma_new_hits_distinct(prev: Seq<(u64, int)>, ids: Seq<u64>, ci: int)
    requires
        distinct_hit_ids(prev),
    ensures
        distinct_hit_ids(prev + new_hits(prev, ids, ci)),
    decreases ids.len(),
{
    if ids.len() > 0 {
        let before = new_hits(prev, ids.drop_last(), ci);
        lemma_new_hits_distinct(prev, ids.drop_last(), ci);
        if !id_seen(prev + before, ids.last()) {
            lemma_push_fresh(prev + before, (ids.last(), ci));
            assert((prev + before).push((ids.last(), ci)) =~= prev + before.push((ids.last(), ci)));
        }
    } else {
        assert(prev + new_hits(prev, ids, ci) =~= prev);
    }
}

/// Deinflected matches never repeat an id: each entry is found once,
/// through the first deinflected form that reaches it.
pub proof fn lemma_deinflect_hits_distinct(ix: Indexes, cands: Seq<CandModel>)
    ensures
        distinct_hit_ids(deinflect_hits(ix, cands)),
    decreases cands.len(),
{
    if cands.len() > 0 {
        let prev = deinflect_hits(ix, cands.drop_last());
        lemma_deinflect_hits_distinct(ix, cands.drop_last());
        lemma_new_hits_distinct(prev, exact_ids(ix, cands.last().word), cands.len() - 1);
    }
}

/// Every pair that `first_per_id` keeps comes from the input, and every
/// id of the input is kept.
proof fn lemma_first_per_id_members(pairs: Seq<(Seq<u8>, u64)>)
    ensures
        forall|i: int|
            0 <= i < first_per_id(pairs).len() ==> exists|j: int|
                0 <= j < pairs.len() && pairs[j] == #[trigger] first_per_id(pairs)[i],
        forall|j: int|
            0 <= j < pairs.len() ==> exists|i: int|
                0 <= i < first_per_id(pairs).len() && first_per_id(pairs)[i].1 == (
                #[trigger] pairs[j]).1,
    decreases pairs.len(),
{
    if pairs.len() > 0 {
        let init = pairs.drop_last();
        lemma_first_per_id_members(init);
        let d = first_per_id(init);
        let f = first_per_id(pairs);
        assert forall|i: int| 0 <= i < f.len() implies exists|j: int|
            0 <= j < pairs.len() && pairs[j] == #[trigger] f[i] by {
            if i < d.len() {
                assert(f[i] == d[i]);
                let j = choose|j: int| 0 <= j < init.len() && init[j] == d[i];
                assert(pairs[j] == init[j]);
            } else {
                assert(f[i] == pairs.last());
                assert(pairs[pairs.len() - 1] == f[i]);
            }
        }
        assert forall|j: int| 0 <= j < pairs.len() implies exists|i: int|
            0 <= i < f.len() && f[i].1 == (#[trigger] pairs[j]).1 by {
            if j < init.len() {
                assert(pairs[j] == init[j]);
                let i = choose|i: int| 0 <= i < d.len() && d[i].1 == init[j].1;
                assert(f[i] == d[i]);
            } else {
                if exists|i: int| 0 <= i < d.len() && (#[trigger] d[i]).1 == pairs.last().1 {
                    let i = choose|i: int| 0 <= i < d.len() && (#[trigger] d[i]).1 == pairs.last().1;
                    assert(f[i] == d[i]);
                } else {
                    assert(f[d.len() as int] == pairs.last());
                }
            }
        }
    }
}

/// Whether every id of `ids` is the id of one of `cands`.
pub open spec fn covers_ids(cands: Seq<MatchCandidate>, ids: Seq<u64>) -> bool {
    forall|id: u64|
        #[trigger] ids.contains(id) ==> exists|i: int| 0 <= i < cands.len() && cands[i].id == id
}

/// What fuzzy candidates hold: each is keyed by an index key within the
/// distance; for an ASCII term, the ids the term has exactly are among them.
proof fn lemma_fuzzy_candidates(
    ix: Indexes,
    term: Seq<char>,
    d: nat,
    pk: Seq<(Seq<u8>, u64)>,
    pj: Seq<(Seq<u8>, u64)>,
    pr: Seq<(Seq<u8>, u64)>,
    r: Seq<MatchCandidate>,
)
    requires
        is_fuzzy_sublisting(pk, ix.kana, term, d),
        is_fuzzy_sublisting(pj, ix.kanji, term, d),
        is_fuzzy_sublisting(pr, ix.romaji, term, d),
        is_ascii_chars(term) ==> is_fuzzy_listing(pk, ix.kana, term, d) && is_fuzzy_listing(
            pj,
            ix.kanji,
            term,
            d,
        ) && is_fuzzy_listing(pr, ix.romaji, term, d),
        r.len() == first_per_id(pk + pj + pr).len(),
        forall|i: int|
            0 <= i < r.len() ==> keyed_candidate(
                #[trigger] r[i],
                first_per_id(pk + pj + pr)[i],
                term,
                MatchType::Fuzzy,
            ),
    ensures
        forall|i: int|
            0 <= i < first_per_id(pk + pj + pr).len() ==> within_distance(
                #[trigger] first_per_id(pk + pj + pr)[i].0,
                term,
                d,
            ),
        is_ascii_chars(term) ==> covers_ids(r, exact_ids(ix, term)),
{
    let all = pk + pj + pr;
    assert forall|j: int| 0 <= j < all.len() implies within_distance(
        #[trigger] all[j].0,
        term,
        d,
    ) by {
        if j < pk.len() {
            assert(all[j] == pk[j]);
        } else if j < pk.len() + pj.len() {
            assert(all[j] == pj[j - pk.len()]);
        } else {
            assert(all[j] == pr[j - pk.len() - pj.len()]);
        }
    }
    lemma_first_per_id_members(all);
    let found = first_per_id(all);
    assert forall|i: int| 0 <= i < found.len() implies within_distance(
        #[trigger] found[i].0,
        term,
        d,
    ) by {
        let j = choose|j: int| 0 <= j < all.len() && all[j] == found[i];
        assert(within_distance(all[j].0, term, d));
    }
    if is_ascii_chars(term) {
        lemma_exact_in_fuzzy(ix, term, d, pk, pj, pr);
        assert forall|id: u64| #[trigger] exact_ids(ix, term).contains(id) implies exists|i: int|
            0 <= i < r.len() && r[i].id == id by {
            let j = choose|j: int| 0 <= j < all.len() && all[j].1 == id;
            let i = choose|i: int| 0 <= i < found.len() && found[i].1 == all[j].1;
            assert(keyed_candidate(r[i], found[i], term, MatchType::Fuzzy));
            assert(r[i].id == id);
        }
    }
}

/// No edits turn a text into itself.
proof fn lemma_edit_distance_self(a: Seq<char>)
    ensures
        edit_distance(a, a) == 0,
    decreases a.len(),
{
    if a.len() > 0 {
        lemma_edit_distance_self(a.drop_last());
    }
}

/// A term's own key is within any distance of it, so a complete fuzzy
/// listing of the three indexes holds every id the term has exactly.
proof fn lemma_exact_in_fuzzy(
    ix: Indexes,
    term: Seq<char>,
    d: nat,
    pk: Seq<(Seq<u8>, u64)>,
    pj: Seq<(Seq<u8>, u64)>,
    pr: Seq<(Seq<u8>, u64)>,
)
    requires
        is_fuzzy_listing(pk, ix.kana, term, d),
        is_fuzzy_listing(pj, ix.kanji, term, d),
        is_fuzzy_listing(pr, ix.romaji, term, d),
    ensures
        forall|id: u64|
            #[trigger] exact_ids(ix, term).contains(id) ==> exists|j: int|
                0 <= j < (pk + pj + pr).len() && (pk + pj + pr)[j].1 == id,
{
    let all = pk + pj + pr;
    let k = encode_utf8(term);
    vstd::utf8::encode_utf8_valid_utf8(term);
    vstd::utf8::encode_utf8_decode_utf8(term);
    lemma_edit_distance_self(term);
    assert(within_distance(k, term, d));
    lemma_exact_ids(ix, term);
    assert forall|id: u64| #[trigger] exact_ids(ix, term).contains(id) implies exists|j: int|
        0 <= j < all.len() && all[j].1 == id by {
        if lookup_key(ix.kana, k) == Some(id) {
            assert(ix.kana.dom().contains(k));
            let j = choose|j: int| 0 <= j < pk.len() && pk[j].0 == k;
            assert(all[j] == pk[j]);
        } else if lookup_key(ix.kanji, k) == Some(id) {
            assert(ix.kanji.dom().contains(k));
            let j = choose|j: int| 0 <= j < pj.len() && pj[j].0 == k;
            assert(all[pk.len() + j] == pj[j]);
        } else {
            assert(lookup_key(ix.romaji, k) == Some(id));
            assert(ix.romaji.dom().contains(k));
            let j = choose|j: int| 0 <= j < pr.len() && pr[j].0 == k;
            assert(all[pk.len() + pj.len() + j] == pr[j]);
        }
    }
}

/// A dictionary finds what its index files indexed: where one of its term
/// indexes was read from the FST file of a built index, each text of the
/// indexed pairs has among its exact ids the smallest id paired with it.
pub proof fn lemma_dict_finds_indexed(
    ix: Indexes,
    file: Seq<u8>,
    idx: Seq<(Seq<char>, u64)>,
    pairs: Seq<(Seq<char>, u64)>,
    t: Seq<char>,
    id: u64,
)
    requires
        is_index_of(idx, pairs),
        fst_decode(file) == Some(pairs_map(byte_keys(idx))),
        fst_decode(file) == Some(ix.kana) || fst_decode(file) == Some(ix.kanji) || fst_decode(
            file,
        ) == Some(ix.romaji),
        pairs.contains((t, id)),
    ensures
        exists|m: u64|
            #![trigger pairs.contains((t, m))]
            pairs.contains((t, m)) && m <= id && exact_ids(ix, t).contains(m),
{
    lemma_index_lookup(idx, pairs, t);
    let m = choose|m: u64|
        #![trigger pairs.contains((t, m))]
        pairs.contains((t, m)) && lookup_key(pairs_map(byte_keys(idx)), encode_utf8(t)) == Some(m)
            && forall|id: u64| #[trigger] pairs.contains((t, id)) ==> m <= id;
    lemma_exact_ids(ix, t);
    assert(exact_ids(ix, t).contains(m));
}

/// No key that starts with `p` comes strictly before `p`.
proof fn lemma_prefix_not_before(p: Seq<u8>, k: Seq<u8>)
    requires
        p.is_prefix_of(k),
    ensures
        !bytes_before(k, p),
{
    if bytes_before(k, p) {
        let i = choose|i: int|
            0 <= i <= k.len() && i <= p.len() && #[trigger] k.take(i) == p.take(i) && ((i
                == k.len() && i < p.len()) || (i < k.len() && i < p.len() && k[i] < p[i]));
        assert(p.len() <= k.len());
        if i < p.len() {
            assert(k[i] == p[i]);
        }
    }
}

/// A key that the map holds heads the listing of the keys it starts.
proof fn lemma_prefix_listing_first(s: Seq<(Seq<u8>, u64)>, entries: Map<Seq<u8>, u64>, p: Seq<u8>)
    requires
        is_prefix_listing(s, entries, p),
        entries.dom().contains(p),
    ensures
        s.len() > 0 && s[0] == (p, entries[p]),
{
    assert(p.is_prefix_of(p));
    let j = choose|j: int| 0 <= j < s.len() && s[j].0 == p;
    if j > 0 {
        assert(bytes_before(s[0].0, s[j].0));
        lemma_prefix_not_before(p, s[0].0);
    }
}

/// `first_per_id` keeps the first pair.
proof fn lemma_first_per_id_head(s: Seq<(Seq<u8>, u64)>)
    requires
        s.len() > 0,
    ensures
        first_per_id(s).len() > 0 && first_per_id(s)[0] == s[0],
    decreases s.len(),
{
    if s.len() > 1 {
        lemma_first_per_id_head(s.drop_last());
        assert(s.drop_last()[0] == s[0]);
    } else {
        assert(first_per_id(s.drop_last()) =~= Seq::<(Seq<u8>, u64)>::empty());
    }
}

/// A pair for another id, or with a key that is not the term, does not
/// change whether an id has an exact key.
proof fn lemma_has_exact_push(t: Seq<(Seq<u8>, u64)>, q: (Seq<u8>, u64), term: Seq<char>, id: u64)
    requires
        q.1 != id || !key_is(q, term),
    ensures
        has_exact(t.push(q), term, id) == has_exact(t, term, id),
{
    let t1 = t.push(q);
    if has_exact(t1, term, id) {
        let w = choose|w: int| 0 <= w < t1.len() && t1[w].1 == id && key_is(t1[w], term);
        assert(w < t.len());
        assert(t[w] == t1[w]);
    }
    if has_exact(t, term, id) {
        let w = choose|w: int| 0 <= w < t.len() && t[w].1 == id && key_is(t[w], term);
        assert(t1[w] == t[w]);
    }
}

/// A candidate kept from the best match per id is exact exactly when one
/// of the id's keys reads as the term.
proof fn lemma_best_exact(s: Seq<(Seq<u8>, u64)>, term: Seq<char>, r: Seq<MatchCandidate>)
    requires
        lossy_text(encode_utf8(term)) == term,
        r.len() == prefix_order(best_per_id(s, term), term).len(),
        forall|i: int|
            0 <= i < r.len() ==> keyed_candidate(
                #[trigger] r[i],
                prefix_order(best_per_id(s, term), term)[i],
                term,
                MatchType::Prefix,
            ),
    ensures
        forall|i: int|
            0 <= i < r.len() ==> ((#[trigger] r[i]).match_type == MatchType::Exact <==> has_exact(
                s,
                term,
                r[i].id,
            )),
{
    let b = best_per_id(s, term);
    let f = first_per_id(s);
    lemma_first_per_id_members(s);
    let p1 = |p: (Seq<u8>, u64)| key_is(p, term);
    let p2 = |p: (Seq<u8>, u64)| !key_is(p, term);
    b.filter_lemma(p1);
    b.filter_lemma(p2);
    let o = prefix_order(b, term);
    assert forall|i: int| 0 <= i < r.len() implies ((#[trigger] r[i]).match_type
        == MatchType::Exact <==> has_exact(s, term, r[i].id)) by {
        assert(keyed_candidate(r[i], o[i], term, MatchType::Prefix));
        let x = o[i];
        assert(b.contains(x)) by {
            let n1 = b.filter(p1).len();
            if i < n1 {
                assert(o[i] == b.filter(p1)[i]);
                assert(b.filter(p1).contains(x));
                b.lemma_filter_contains_rev(p1, x);
            } else {
                assert(o[i] == b.filter(p2)[i - n1]);
                assert(b.filter(p2).contains(x));
                b.lemma_filter_contains_rev(p2, x);
            }
        }
        let k = choose|k: int| 0 <= k < b.len() && b[k] == x;
        assert(b[k] == best_pair(s, term, f[k]));
        let j = choose|j: int| 0 <= j < s.len() && s[j] == f[k];
        if !has_exact(s, term, f[k].1) {
            assert(!key_is(s[j], term));
        }
    }
}

/// A prefix search keeps one candidate per id.
pub proof fn lemma_best_per_id_distinct(s: Seq<(Seq<u8>, u64)>, term: Seq<char>)
    ensures
        forall|i: int, j: int|
            0 <= i < j < best_per_id(s, term).len() ==> best_per_id(s, term)[i].1 != best_per_id(
                s,
                term,
            )[j].1,
{
    lemma_first_per_id_distinct(s);
    let f = first_per_id(s);
    let b = best_per_id(s, term);
    assert forall|i: int, j: int| 0 <= i < j < b.len() implies b[i].1 != b[j].1 by {
        assert(b[i].1 == f[i].1 && b[j].1 == f[j].1);
    }
}

/// New hits add every id of `ids` not seen before, and only ids of `ids`,
/// each with candidate index `ci`.
proof fn lemma_new_hits_complete(prev: Seq<(u64, int)>, ids: Seq<u64>, ci: int)
    ensures
        forall|x: u64| #[trigger] ids.contains(x) ==> id_seen(prev + new_hits(prev, ids, ci), x),
        forall|k: int|
            0 <= k < new_hits(prev, ids, ci).len() ==> ids.contains(
                (#[trigger] new_hits(prev, ids, ci)[k]).0,
            ) && new_hits(prev, ids, ci)[k].1 == ci,
    decreases ids.len(),
{
    if ids.len() > 0 {
        let init = ids.drop_last();
        lemma_new_hits_complete(prev, init, ci);
        let before = new_hits(prev, init, ci);
        let nh = new_hits(prev, ids, ci);
        assert forall|x: u64| #[trigger] ids.contains(x) implies id_seen(prev + nh, x) by {
            let t = choose|t: int| 0 <= t < ids.len() && ids[t] == x;
            if t < init.len() {
                assert(init[t] == x);
                assert(init.contains(x));
                let w = choose|w: int| 0 <= w < (prev + before).len() && (#[trigger] (prev + before)[w]).0 == x;
                assert((prev + nh)[w] == (prev + before)[w]);
            } else {
                if id_seen(prev + before, x) {
                    let w = choose|w: int| 0 <= w < (prev + before).len() && (#[trigger] (prev + before)[w]).0 == x;
                    assert((prev + nh)[w] == (prev + before)[w]);
                } else {
                    assert((prev + nh)[(prev + before).len() as int] == (x, ci));
                }
            }
        }
        assert forall|k: int| 0 <= k < nh.len() implies ids.contains((#[trigger] nh[k]).0) && nh[k].1 == ci by {
            if k < before.len() {
                assert(nh[k] == before[k]);
                let t = choose|t: int| 0 <= t < init.len() && init[t] == before[k].0;
                assert(ids[t] == init[t]);
            } else {
                assert(nh[k] == (ids.last(), ci));
                assert(ids[ids.len() - 1] == ids.last());
            }
        }
    }
}

/// The hits of deinflected candidates hold every id of every candidate's
/// word, and each hit is an id of the candidate it names.
proof fn lemma_deinflect_hits_complete(ix: Indexes, cands: Seq<CandModel>)
    ensures
        forall|j: int, id: u64|
            0 <= j < cands.len() && #[trigger] exact_ids(ix, cands[j].word).contains(id) ==> id_seen(
                deinflect_hits(ix, cands),
                id,
            ),
        forall|k: int|
            0 <= k < deinflect_hits(ix, cands).len() ==> 0 <= (#[trigger] deinflect_hits(ix, cands)[k]).1
                < cands.len() && exact_ids(ix, cands[deinflect_hits(ix, cands)[k].1].word).contains(
                deinflect_hits(ix, cands)[k].0,
            ),
    decreases cands.len(),
{
    if cands.len() > 0 {
        let init = cands.drop_last();
        lemma_deinflect_hits_complete(ix, init);
        let prev = deinflect_hits(ix, init);
        let ids = exact_ids(ix, cands.last().word);
        let n = cands.len() - 1;
        lemma_new_hits_complete(prev, ids, n);
        let h = deinflect_hits(ix, cands);
        assert(h == prev + new_hits(prev, ids, n));
        assert forall|j: int, id: u64|
            0 <= j < cands.len() && #[trigger] exact_ids(ix, cands[j].word).contains(id) implies id_seen(
            h,
            id,
        ) by {
            if j < n {
                assert(init[j] == cands[j]);
                assert(exact_ids(ix, init[j].word).contains(id));
                let w = choose|w: int| 0 <= w < prev.len() && (#[trigger] prev[w]).0 == id;
                assert(h[w] == prev[w]);
            } else {
                assert(cands[j] == cands.last());
            }
        }
        assert forall|k: int| 0 <= k < h.len() implies 0 <= (#[trigger] h[k]).1 < cands.len()
            && exact_ids(ix, cands[h[k].1].word).contains(h[k].0) by {
            if k < prev.len() {
                assert(h[k] == prev[k]);
                assert(init[prev[k].1] == cands[prev[k].1]);
            } else {
                let nh = new_hits(prev, ids, n);
                assert(h[k] == nh[k - prev.len()]);
            }
        }
    }
}

/// A lookup with deinflection of a term that has no exact match finds the
/// entries of every deinflected form of the term, not only of the first one
/// that has any: each id that a deinflected form has in the indexes is the
/// id of a returned candidate; each returned candidate is an entry of some
/// deinflected form, keyed by that form and marked as deinflected; and no id
/// is returned twice.
pub proof fn lemma_deinflect_finds_every_form(
    ix: Indexes,
    rules: Seq<Seq<RuleModel>>,
    term: Seq<char>,
    r: Seq<MatchCandidate>,
)
    requires
        is_deinflect_result(ix, rules, term, r),
        exact_ids(ix, term).len() == 0,
    ensures
        forall|j: int, id: u64|
            0 <= j < deinflect_model(rules, term).len() && #[trigger] exact_ids(
                ix,
                deinflect_model(rules, term)[j].word,
            ).contains(id) ==> exists|i: int| 0 <= i < r.len() && r[i].id == id,
        forall|i: int|
            0 <= i < r.len() ==> (#[trigger] r[i]).match_type == MatchType::Deinflected && exists|j: int|
                0 <= j < deinflect_model(rules, term).len() && exact_ids(
                    ix,
                    deinflect_model(rules, term)[j].word,
                ).contains(r[i].id) && r[i].key@ == deinflect_model(rules, term)[j].word,
        forall|i: int, k: int| 0 <= i < k < r.len() ==> r[i].id != r[k].id,
{
    let cands = deinflect_model(rules, term);
    let h = deinflect_hits(ix, cands);
    lemma_deinflect_hits_complete(ix, cands);
    lemma_deinflect_hits_distinct(ix, cands);
    assert forall|j: int, id: u64|
        0 <= j < cands.len() && #[trigger] exact_ids(ix, cands[j].word).contains(id) implies exists|i: int|
        0 <= i < r.len() && r[i].id == id by {
        let k = choose|k: int| 0 <= k < h.len() && (#[trigger] h[k]).0 == id;
        assert(deinflected_candidate(r[k], h[k].0, cands[h[k].1], term));
    }
    assert forall|i: int| 0 <= i < r.len() implies (#[trigger] r[i]).match_type == MatchType::Deinflected
        && exists|j: int|
        0 <= j < cands.len() && exact_ids(ix, cands[j].word).contains(r[i].id) && r[i].key@
            == cands[j].word by {
        assert(deinflected_candidate(r[i], h[i].0, cands[h[i].1], term));
        assert(exact_ids(ix, cands[h[i].1].word).contains(h[i].0));
    }
    assert forall|i: int, k: int| 0 <= i < k < r.len() implies r[i].id != r[k].id by {
        assert(deinflected_candidate(r[i], h[i].0, cands[h[i].1], term));
        assert(deinflected_candidate(r[k], h[k].0, cands[h[k].1], term));
    }
}

/// Index matches keep one key per id.
pub proof fn lemma_first_per_id_distinct(pairs: Seq<(Seq<u8>, u64)>)
    ensures
        forall|i: int, j: int|
            0 <= i < j < first_per_id(pairs).len() ==> first_per_id(pairs)[i].1 != first_per_id(
                pairs,
            )[j].1,
    decreases pairs.len(),
{
    if pairs.len() > 0 {
        lemma_first_per_id_distinct(pairs.drop_last());
        let d = first_per_id(pairs.drop_last());
        if !(exists|i: int| 0 <= i < d.len() && (#[trigger] d[i]).1 == pairs.last().1) {
            let e = d.push(pairs.last());
            assert forall|i: int, j: int| 0 <= i < j < e.len() implies e[i].1 != e[j].1 by {
                assert(e[i] == d[i]);
                if j < d.len() {
                    assert(e[j] == d[j]);
                }
            }
        }
    }
}

/// Whether `s` is strictly increasing.
pub open spec fn strictly_increasing(s: Seq<u64>) -> bool {
    forall|i: int, j: int| 0 <= i < j < s.len() ==> s[i] < s[j]
}

proof fn lemma_insert_sorted(s: Seq<u64>, x: u64)
    requires
        strictly_increasing(s),
    ensures
        strictly_increasing(insert_sorted(s, x)),
        insert_sorted(s, x).contains(x),
        forall|y: u64| #[trigger] insert_sorted(s, x).contains(y) <==> (s.contains(y) || y == x),
    decreases s.len(),
{
    if s.len() == 0 {
        assert(insert_sorted(s, x)[0] == x);
    } else if x < s[0] {
        let r = seq![x] + s;
        assert(r[0] == x);
        assert forall|y: u64| #[trigger] r.contains(y) <==> (s.contains(y) || y == x) by {
            if s.contains(y) {
                let k = choose|k: int| 0 <= k < s.len() && s[k] == y;
                assert(r[k + 1] == y);
            }
            if r.contains(y) && y != x {
                let k = choose|k: int| 0 <= k < r.len() && r[k] == y;
                assert(s[k - 1] == y);
            }
        }
    } else if x == s[0] {
        assert(s[0] == x);
    } else {
        let t = s.drop_first();
        lemma_insert_sorted(t, x);
        let u = insert_sorted(t, x);
        let r = seq![s[0]] + u;
        assert forall|i: int, j: int| 0 <= i < j < r.len() implies r[i] < r[j] by {
            if i == 0 {
                assert(u.contains(r[j]));
                assert(t.contains(r[j]) || r[j] == x);
                if t.contains(r[j]) {
                    let k = choose|k: int| 0 <= k < t.len() && t[k] == r[j];
                    assert(s[k + 1] == r[j]);
                }
            }
        }
        assert(u.contains(x));
        let k = choose|k: int| 0 <= k < u.len() && u[k] == x;
        assert(r[k + 1] == x);
        assert forall|y: u64| #[trigger] r.contains(y) <==> (s.contains(y) || y == x) by {
            if s.contains(y) {
                let k = choose|k: int| 0 <= k < s.len() && s[k] == y;
                if k > 0 {
                    assert(t[k - 1] == y);
                    assert(u.contains(y));
                    let m = choose|m: int| 0 <= m < u.len() && u[m] == y;
                    assert(r[m + 1] == y);
                } else {
                    assert(r[0] == y);
                }
            }
            if y == x {
                assert(r[k + 1] == y);
            }
            if r.contains(y) {
                let m = choose|m: int| 0 <= m < r.len() && r[m] == y;
                if m > 0 {
                    assert(u[m - 1] == y);
                    assert(u.contains(y));
                    if t.contains(y) {
                        let q = choose|q: int| 0 <= q < t.len() && t[q] == y;
                        assert(s[q + 1] == y);
                    }
                } else {
                    assert(s[0] == y);
                }
            }
        }
    }
}

/// The exact ids of a term are in increasing order, each once, and are
/// exactly the ids the term has in the kana, kanji and romaji indexes.
pub proof fn lemma_exact_ids(ix: Indexes, term: Seq<char>)
    ensures
        strictly_increasing(exact_ids(ix, term)),
        forall|id: u64|
            #[trigger] exact_ids(ix, term).contains(id) <==> {
                let k = encode_utf8(term);
                ||| lookup_key(ix.kana, k) == Some(id)
                ||| lookup_key(ix.kanji, k) == Some(id)
                ||| lookup_key(ix.romaji, k) == Some(id)
            },
{
    let k = encode_utf8(term);
    let a = lookup_key(ix.kana, k);
    let b = lookup_key(ix.kanji, k);
    let c = lookup_key(ix.romaji, k);
    let s0 = Seq::<u64>::empty();
    let s1 = add_id(s0, a);
    let s2 = add_id(s1, b);
    let s3 = add_id(s2, c);
    if let Some(x) = a {
        lemma_insert_sorted(s0, x);
    }
    if let Some(x) = b {
        lemma_insert_sorted(s1, x);
    }
    if let Some(x) = c {
        lemma_insert_sorted(s2, x);
    }
    assert forall|id: u64| #[trigger] s3.contains(id) <==> (a == Some(id) || b == Some(id) || c == Some(id)) by {
        if let Some(x) = a {
            assert(s1.contains(id) <==> (s0.contains(id) || id == x));
        }
        if let Some(x) = b {
            assert(s2.contains(id) <==> (s1.contains(id) || id == x));
        }
        if let Some(x) = c {
            assert(s3.contains(id) <==> (s2.contains(id) || id == x));
        }
    }
}

} // verus!
