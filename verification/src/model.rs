//! Dictionary entries and the vocabulary of lookups.
use vstd::prelude::*;

use crate::text::same_text;

verus! {

/// How a lookup result matched the query term.
#[derive(Debug, Clone, Copy, PartialEq, Eq, Structural)]
pub enum MatchType {
    Exact,
    Prefix,
    Deinflected,
    Fuzzy,
}

/// The search mode for a query.
#[derive(Debug, Clone, Copy, PartialEq, Eq, Structural)]
pub enum MatchMode {
    /// Exact match only.
    Exact,
    /// Prefix (starts-with) search.
    Prefix,
    /// Exact match with deinflection fallback.
    Deinflect,
    /// Fuzzy (approximate) match.
    Fuzzy,
}

/// Information about how a term was deinflected to find its base form.
#[derive(Debug, Clone)]
pub struct DeinflectionInfo {
    pub original_form: String,
    pub base_form: String,
    pub rules: Vec<String>,
}

/// Magic bytes that prefix every `entries.bin` (`"JMDF"`). The library uses
/// these to distinguish a valid data file from arbitrary input before
/// touching the format version.
pub const MAGIC: [u8; 4] = [0x4A, 0x4D, 0x44, 0x46];

/// Binary format version for entries.bin. `Dict::load` rejects mismatched
/// versions instead of attempting a deserialize that may silently succeed.
pub const FORMAT_VERSION: u32 = 4;

/// Dictionary data version information.
#[derive(Debug, Clone)]
pub struct DataVersion {
    pub format_version: u32,
    pub jmdict_version: String,
    pub generated_at: String,
}

#[derive(Debug, Clone)]
pub struct Entry {
    pub id: String,
    pub kanji: Vec<KanjiEntry>,
    pub kana: Vec<KanaEntry>,
    pub sense: Vec<SenseEntry>,
}

#[derive(Debug, Clone)]
pub struct KanjiEntry {
    pub common: bool,
    pub text: String,
    pub tags: Vec<String>,
}

#[derive(Debug, Clone)]
pub struct KanaEntry {
    pub common: bool,
    pub text: String,
    pub tags: Vec<String>,
    pub applies_to_kanji: Vec<String>,
}

#[derive(Debug, Clone)]
pub struct Xref {
    pub term: String,
    pub reading: Option<String>,
    pub sense_index: Option<u32>,
}

#[derive(Debug, Clone)]
pub struct LanguageSource {
    pub lang: String,
    pub full: bool,
    pub wasei: bool,
    pub text: Option<String>,
}

#[derive(Debug, Clone)]
pub struct SenseEntry {
    pub part_of_speech: Vec<String>,
    pub applies_to_kanji: Vec<String>,
    pub applies_to_kana: Vec<String>,
    pub related: Vec<Xref>,
    pub antonym: Vec<Xref>,
    pub field: Vec<String>,
    pub dialect: Vec<String>,
    pub misc: Vec<String>,
    pub info: Vec<String>,
    pub language_source: Vec<LanguageSource>,
    pub gloss: Vec<GlossEntry>,
}

#[derive(Debug, Clone)]
pub struct GlossEntry {
    pub lang: String,
    pub gender: Option<String>,
    pub gloss_type: Option<String>,
    pub text: String,
}

/// The texts of a list of strings.
pub open spec fn texts(v: Seq<String>) -> Seq<Seq<char>> {
    v.map_values(|s: String| s@)
}

/// The texts of borrowed strings.
pub open spec fn str_texts(v: Seq<&str>) -> Seq<Seq<char>> {
    v.map_values(|s: &str| s@)
}

/// The glosses of one sense in language `lang`, in order.
pub open spec fn sense_glosses(s: SenseEntry, lang: Seq<char>) -> Seq<Seq<char>> {
    s.gloss@.filter(|g: GlossEntry| g.lang@ == lang).map_values(|g: GlossEntry| g.text@)
}

/// The glosses in language `lang` across `senses`, sense by sense.
pub open spec fn glosses_in(senses: Seq<SenseEntry>, lang: Seq<char>) -> Seq<Seq<char>>
    decreases senses.len(),
{
    if senses.len() == 0 {
        seq![]
    } else {
        glosses_in(senses.drop_last(), lang) + sense_glosses(senses.last(), lang)
    }
}

/// The part-of-speech tags of `senses`, sense by sense, repeats included.
pub open spec fn all_pos(senses: Seq<SenseEntry>) -> Seq<Seq<char>>
    decreases senses.len(),
{
    if senses.len() == 0 {
        seq![]
    } else {
        all_pos(senses.drop_last()) + texts(senses.last().part_of_speech@)
    }
}

/// `s` without repeats, each value where it first occurs.
pub open spec fn first_occurrences(s: Seq<Seq<char>>) -> Seq<Seq<char>>
    decreases s.len(),
{
    if s.len() == 0 {
        seq![]
    } else {
        let d = first_occurrences(s.drop_last());
        if d.contains(s.last()) {
            d
        } else {
            d.push(s.last())
        }
    }
}

/// Whether some kanji or kana form is marked common.
pub open spec fn entry_is_common(e: Entry) -> bool {
    (exists|i: int| 0 <= i < e.kanji@.len() && (#[trigger] e.kanji@[i]).common) || (exists|i: int|
        0 <= i < e.kana@.len() && (#[trigger] e.kana@[i]).common)
}

/// The text of an optional borrowed string.
pub open spec fn opt_text(o: Option<&str>) -> Option<Seq<char>> {
    match o {
        Some(s) => Some(s@),
        None => None,
    }
}

/// The first kanji writing of an entry, if any.
pub open spec fn first_kanji(e: Entry) -> Option<Seq<char>> {
    if e.kanji@.len() > 0 {
        Some(e.kanji@[0].text@)
    } else {
        None
    }
}

/// The first kana reading of an entry, if any.
pub open spec fn first_kana(e: Entry) -> Option<Seq<char>> {
    if e.kana@.len() > 0 {
        Some(e.kana@[0].text@)
    } else {
        None
    }
}

impl Entry {
    /// The first kanji writing, if any. Many entries (kana-only words, names)
    /// have no kanji form, so callers should not assume `kanji[0]` exists.
    pub fn primary_kanji(&self) -> (r: Option<&str>)
        ensures
            opt_text(r) == first_kanji(*self),
    {
        if self.kanji.len() > 0 {
            Some(self.kanji[0].text.as_str())
        } else {
            None
        }
    }

    /// The first kana reading. Every JMdict entry has at least one kana
    /// reading, but the field is technically a `Vec`, so this returns
    /// `Option` to stay honest about the data model.
    pub fn primary_kana(&self) -> (r: Option<&str>)
        ensures
            opt_text(r) == first_kana(*self),
    {
        if self.kana.len() > 0 {
            Some(self.kana[0].text.as_str())
        } else {
            None
        }
    }

    /// The preferred headword for display: kanji if present, otherwise kana.
    pub fn headword(&self) -> (r: Option<&str>)
        ensures
            opt_text(r) == (if first_kanji(*self) is Some {
                first_kanji(*self)
            } else {
                first_kana(*self)
            }),
    {
        match self.primary_kanji() {
            Some(k) => Some(k),
            None => self.primary_kana(),
        }
    }

    /// `true` if any kanji or kana form is marked common by JMdict.
    pub fn is_common(&self) -> (r: bool)
        ensures
            r == entry_is_common(*self),
    {
        let mut i: usize = 0;
        while i < self.kanji.len()
            invariant
                i <= self.kanji.len(),
                forall|j: int| 0 <= j < i ==> !(#[trigger] self.kanji@[j]).common,
            decreases self.kanji.len() - i,
        {
            if self.kanji[i].common {
                return true;
            }
            i += 1;
        }
        let mut i: usize = 0;
        while i < self.kana.len()
            invariant
                i <= self.kana.len(),
                forall|j: int| 0 <= j < self.kanji@.len() ==> !(#[trigger] self.kanji@[j]).common,
                forall|j: int| 0 <= j < i ==> !(#[trigger] self.kana@[j]).common,
            decreases self.kana.len() - i,
        {
            if self.kana[i].common {
                return true;
            }
            i += 1;
        }
        false
    }

    /// Every gloss matching `lang` (e.g. `"eng"`), across all senses, in
    /// order.
    pub fn glosses<'a>(&'a self, lang: &str) -> (r: Vec<&'a str>)
        ensures
            str_texts(r@) == glosses_in(self.sense@, lang@),
    {
        let mut r: Vec<&'a str> = Vec::new();
        let mut i: usize = 0;
        while i < self.sense.len()
            invariant
                i <= self.sense.len(),
                str_texts(r@) == glosses_in(self.sense@.take(i as int), lang@),
            decreases self.sense.len() - i,
        {
            let sense = &self.sense[i];
            let ghost before = str_texts(r@);
            let ghost gs = sense.gloss@;
            let mut k: usize = 0;
            while k < sense.gloss.len()
                invariant
                    k <= sense.gloss.len(),
                    gs == sense.gloss@,
                    str_texts(r@) == before + gs.take(k as int).filter(
                        |g: GlossEntry| g.lang@ == lang@,
                    ).map_values(|g: GlossEntry| g.text@),
                decreases sense.gloss.len() - k,
            {
                proof {
                    reveal(Seq::filter);
                    assert(gs.take(k + 1).drop_last() =~= gs.take(k as int));
                }
                let ghost prev = str_texts(r@);
                if same_text(sense.gloss[k].lang.as_str(), lang) {
                    r.push(sense.gloss[k].text.as_str());
                    assert(str_texts(r@) =~= prev.push(gs[k as int].text@));
                }
                k += 1;
                proof {
                    let f = gs.take(k as int).filter(|g: GlossEntry| g.lang@ == lang@);
                    let f0 = gs.take(k - 1).filter(|g: GlossEntry| g.lang@ == lang@);
                    assert(f.map_values(|g: GlossEntry| g.text@) =~= if gs[k - 1].lang@ == lang@ {
                        f0.map_values(|g: GlossEntry| g.text@).push(gs[k - 1].text@)
                    } else {
                        f0.map_values(|g: GlossEntry| g.text@)
                    });
                }
            }
            proof {
                assert(gs.take(gs.len() as int) =~= gs);
                assert(self.sense@.take(i + 1).drop_last() =~= self.sense@.take(i as int));
            }
            i += 1;
        }
        assert(self.sense@.take(self.sense.len() as int) =~= self.sense@);
        r
    }

    /// Every distinct part-of-speech tag across all senses, preserving
    /// first-seen order.
    pub fn parts_of_speech(&self) -> (r: Vec<&str>)
        ensures
            str_texts(r@) == first_occurrences(all_pos(self.sense@)),
    {
        let mut seen: Vec<&str> = Vec::new();
        let mut i: usize = 0;
        while i < self.sense.len()
            invariant
                i <= self.sense.len(),
                str_texts(seen@) == first_occurrences(all_pos(self.sense@.take(i as int))),
            decreases self.sense.len() - i,
        {
            let s = &self.sense[i];
            let ghost base = all_pos(self.sense@.take(i as int));
            let ghost ps = texts(s.part_of_speech@);
            let mut k: usize = 0;
            while k < s.part_of_speech.len()
                invariant
                    k <= s.part_of_speech.len(),
                    ps == texts(s.part_of_speech@),
                    str_texts(seen@) == first_occurrences(base + ps.take(k as int)),
                decreases s.part_of_speech.len() - k,
            {
                let p = s.part_of_speech[k].as_str();
                let mut found = false;
                let mut j: usize = 0;
                while j < seen.len()
                    invariant
                        j <= seen.len(),
                        found == (exists|m: int| 0 <= m < j && (#[trigger] seen@[m])@ == p@),
                    decreases seen.len() - j,
                {
                    if same_text(seen[j], p) {
                        found = true;
                    }
                    j += 1;
                }
                let ghost all = base + ps.take(k + 1);
                proof {
                    assert(all.drop_last() =~= base + ps.take(k as int));
                    assert(all.last() == p@);
                    let d = str_texts(seen@);
                    if found {
                        let m = choose|m: int| 0 <= m < seen.len() && (#[trigger] seen@[m])@ == p@;
                        assert(d[m] == p@);
                    } else {
                        assert(!d.contains(p@)) by {
                            if d.contains(p@) {
                                let m = choose|m: int| 0 <= m < d.len() && d[m] == p@;
                                assert(seen@[m]@ == p@);
                            }
                        }
                    }
                }
                if !found {
                    seen.push(p);
                    assert(str_texts(seen@) =~= first_occurrences(all));
                }
                k += 1;
            }
            proof {
                assert(ps.take(ps.len() as int) =~= ps);
                assert(self.sense@.take(i + 1).drop_last() =~= self.sense@.take(i as int));
            }
            i += 1;
        }
        assert(self.sense@.take(self.sense.len() as int) =~= self.sense@);
        seen
    }
}

/// Compact lookup row for a result list: just enough to render an entry.
#[derive(Debug, Clone)]
pub struct DemoHit {
    pub kanji: Option<String>,
    pub kana: Option<String>,
    pub gloss: Option<String>,
}

/// The text of an optional string.
pub open spec fn opt_string(o: Option<String>) -> Option<Seq<char>> {
    match o {
        Some(s) => Some(s@),
        None => None,
    }
}

/// The first gloss of the first sense, if any.
pub open spec fn first_gloss(e: Entry) -> Option<Seq<char>> {
    if e.sense@.len() > 0 && e.sense@[0].gloss@.len() > 0 {
        Some(e.sense@[0].gloss@[0].text@)
    } else {
        None
    }
}

/// The row of an entry: its first kanji writing, first kana reading and
/// the first gloss of its first sense.
pub fn into_demo_hit(entry: &Entry) -> (r: DemoHit)
    ensures
        opt_string(r.kanji) == first_kanji(*entry),
        opt_string(r.kana) == first_kana(*entry),
        opt_string(r.gloss) == first_gloss(*entry),
{
    let kanji = if entry.kanji.len() > 0 {
        Some(entry.kanji[0].text.clone())
    } else {
        None
    };
    let kana = if entry.kana.len() > 0 {
        Some(entry.kana[0].text.clone())
    } else {
        None
    };
    let gloss = if entry.sense.len() > 0 && entry.sense[0].gloss.len() > 0 {
        Some(entry.sense[0].gloss[0].text.clone())
    } else {
        None
    };
    DemoHit { kanji, kana, gloss }
}

} // verus!
