//! The filters of a lookup: which entries a query keeps, and how many.
use vstd::prelude::*;

use crate::dict::{
    is_deinflect_result, is_exact_result, is_fuzzy_result, is_prefix_result, levenshtein_refused,
    Dict, MatchCandidate,
};
use crate::error::JmdictError;
use crate::model::{entry_is_common, str_texts, texts, Entry, MatchMode, SenseEntry};
use crate::text::{contains_seq, contains_text};

verus! {

/// Upper bound on the Levenshtein edit distance accepted by the fuzzy
/// search builders. The automaton's DFA grows rapidly with distance;
/// values above 4 are rarely useful and risk large allocations.
pub const MAX_FUZZY_DISTANCE: u32 = 4;

/// Whether a filter passes a list of codes: an empty filter always does,
/// otherwise some code must contain some filter value as a substring.
pub open spec fn passes(filter: Seq<Seq<char>>, haystack: Seq<Seq<char>>) -> bool {
    filter.len() == 0 || exists|h: int, f: int|
        0 <= h < haystack.len() && 0 <= f < filter.len() && #[trigger] contains_seq(
            haystack[h],
            filter[f],
        )
}

/// Returns true when `filter` is empty, or any haystack value contains any
/// filter substring. Filters are case-sensitive substrings of the JMdict
/// codes (`"v"` catches every verb POS, `"v1"` only ichidan).
pub fn filter_passes(filter: &[String], haystack: &[String]) -> (r: bool)
    ensures
        r == passes(texts(filter@), texts(haystack@)),
{
    if filter.len() == 0 {
        return true;
    }
    let ghost fs = texts(filter@);
    let ghost hs = texts(haystack@);
    let mut h: usize = 0;
    while h < haystack.len()
        invariant
            h <= haystack.len(),
            fs == texts(filter@),
            hs == texts(haystack@),
            forall|x: int, y: int|
                0 <= x < h && 0 <= y < fs.len() ==> !#[trigger] contains_seq(hs[x], fs[y]),
        decreases haystack.len() - h,
    {
        let mut f: usize = 0;
        while f < filter.len()
            invariant
                h < haystack.len(),
                f <= filter.len(),
                fs == texts(filter@),
                hs == texts(haystack@),
                forall|x: int, y: int|
                    0 <= x < h && 0 <= y < fs.len() ==> !#[trigger] contains_seq(hs[x], fs[y]),
                forall|y: int| 0 <= y < f ==> !#[trigger] contains_seq(hs[h as int], fs[y]),
            decreases filter.len() - f,
        {
            if contains_text(haystack[h].as_str(), filter[f].as_str()) {
                assert(contains_seq(hs[h as int], fs[f as int]));
                return true;
            }
            f += 1;
        }
        h += 1;
    }
    false
}

/// The distance actually used for a requested fuzzy distance.
pub fn clamp_distance(n: u32) -> (r: u32)
    ensures
        r == (if n < MAX_FUZZY_DISTANCE {
            n
        } else {
            MAX_FUZZY_DISTANCE
        }),
{
    if n < MAX_FUZZY_DISTANCE {
        n
    } else {
        MAX_FUZZY_DISTANCE
    }
}

/// The filters of a query, applied to each candidate entry in turn.
#[derive(Debug, Clone)]
pub struct ResultFilter {
    pub common_only: bool,
    pub pos_filter: Vec<String>,
    pub misc_filter: Vec<String>,
    pub field_filter: Vec<String>,
    pub dialect_filter: Vec<String>,
    pub limit: Option<usize>,
}

/// Whether one sense satisfies every sense filter at once.
pub open spec fn sense_passes(f: ResultFilter, s: SenseEntry) -> bool {
    &&& passes(texts(f.pos_filter@), texts(s.part_of_speech@))
    &&& passes(texts(f.misc_filter@), texts(s.misc@))
    &&& passes(texts(f.field_filter@), texts(s.field@))
    &&& passes(texts(f.dialect_filter@), texts(s.dialect@))
}

/// Whether any sense filter is set.
pub open spec fn any_sense_filter(f: ResultFilter) -> bool {
    f.pos_filter@.len() > 0 || f.misc_filter@.len() > 0 || f.field_filter@.len() > 0
        || f.dialect_filter@.len() > 0
}

/// Whether a query keeps an entry: a common form when only common entries
/// are wanted, and, when sense filters are set, one sense that satisfies
/// all of them (the filters are conjunctive within a sense).
pub open spec fn admitted(f: ResultFilter, e: Entry) -> bool {
    &&& f.common_only ==> entry_is_common(e)
    &&& any_sense_filter(f) ==> exists|i: int|
        0 <= i < e.sense@.len() && sense_passes(f, #[trigger] e.sense@[i])
}

impl ResultFilter {
    /// No filter and no limit: every entry is kept.
    pub fn new() -> (r: Self)
        ensures
            !r.common_only,
            r.pos_filter@.len() == 0,
            r.misc_filter@.len() == 0,
            r.field_filter@.len() == 0,
            r.dialect_filter@.len() == 0,
            r.limit is None,
    {
        ResultFilter {
            common_only: false,
            pos_filter: Vec::new(),
            misc_filter: Vec::new(),
            field_filter: Vec::new(),
            dialect_filter: Vec::new(),
            limit: None,
        }
    }

    /// Whether the query keeps `entry`.
    pub fn admits(&self, entry: &Entry) -> (r: bool)
        ensures
            r == admitted(*self, *entry),
    {
        let common_ok = !self.common_only || entry.is_common();
        if !common_ok {
            return false;
        }
        assert(self.common_only ==> entry_is_common(*entry));
        let any_sense_filter = self.pos_filter.len() > 0 || self.misc_filter.len() > 0
            || self.field_filter.len() > 0 || self.dialect_filter.len() > 0;
        if !any_sense_filter {
            return true;
        }
        let mut i: usize = 0;
        while i < entry.sense.len()
            invariant
                i <= entry.sense.len(),
                self.common_only ==> entry_is_common(*entry),
                forall|j: int| 0 <= j < i ==> !sense_passes(*self, #[trigger] entry.sense@[j]),
            decreases entry.sense.len() - i,
        {
            let s = &entry.sense[i];
            if filter_passes(self.pos_filter.as_slice(), s.part_of_speech.as_slice())
                && filter_passes(self.misc_filter.as_slice(), s.misc.as_slice())
                && filter_passes(self.field_filter.as_slice(), s.field.as_slice())
                && filter_passes(self.dialect_filter.as_slice(), s.dialect.as_slice()) {
                assert(sense_passes(*self, entry.sense@[i as int]));
                assert(self.common_only ==> entry_is_common(*entry));
                return true;
            }
            i += 1;
        }
        false
    }

    /// Whether `yielded` results already reach the limit.
    pub fn limit_reached(&self, yielded: usize) -> (r: bool)
        ensures
            r == (match self.limit {
                Some(l) => yielded >= l,
                None => false,
            }),
    {
        match self.limit {
            Some(l) => yielded >= l,
            None => false,
        }
    }
}

/// The distance a request for `n` edits is clamped to.
pub open spec fn clamped(n: u32) -> u32 {
    if n < MAX_FUZZY_DISTANCE {
        n
    } else {
        MAX_FUZZY_DISTANCE
    }
}

/// Whether a filter keeps every entry and sets no limit.
pub open spec fn unfiltered(f: ResultFilter) -> bool {
    &&& !f.common_only
    &&& f.pos_filter@.len() == 0
    &&& f.misc_filter@.len() == 0
    &&& f.field_filter@.len() == 0
    &&& f.dialect_filter@.len() == 0
    &&& f.limit is None
}

/// Whether two filters keep the same entries with the same limit.
pub open spec fn same_filter(a: ResultFilter, b: ResultFilter) -> bool {
    &&& a.common_only == b.common_only
    &&& texts(a.pos_filter@) == texts(b.pos_filter@)
    &&& texts(a.misc_filter@) == texts(b.misc_filter@)
    &&& texts(a.field_filter@) == texts(b.field_filter@)
    &&& texts(a.dialect_filter@) == texts(b.dialect_filter@)
    &&& a.limit == b.limit
}

/// Owned copies of borrowed strings.
pub fn owned_strings(v: &[&str]) -> (r: Vec<String>)
    ensures
        texts(r@) == str_texts(v@),
{
    let mut r: Vec<String> = Vec::new();
    let mut k: usize = 0;
    while k < v.len()
        invariant
            k <= v.len(),
            r@.len() == k,
            forall|i: int| 0 <= i < k ==> (#[trigger] r@[i])@ == v@[i]@,
        decreases v.len() - k,
    {
        r.push(v[k].to_string());
        k += 1;
    }
    assert(texts(r@) =~= str_texts(v@));
    r
}

/// Copies of strings.
fn copy_texts(v: &Vec<String>) -> (r: Vec<String>)
    ensures
        texts(r@) == texts(v@),
{
    let mut r: Vec<String> = Vec::new();
    let mut k: usize = 0;
    while k < v.len()
        invariant
            k <= v.len(),
            r@.len() == k,
            forall|i: int| 0 <= i < k ==> (#[trigger] r@[i])@ == v@[i]@,
        decreases v.len() - k,
    {
        r.push(v[k].clone());
        k += 1;
    }
    assert(texts(r@) =~= texts(v@));
    r
}

impl ResultFilter {
    /// A copy of the filter.
    pub fn copy(&self) -> (r: Self)
        ensures
            same_filter(r, *self),
    {
        ResultFilter {
            common_only: self.common_only,
            pos_filter: copy_texts(&self.pos_filter),
            misc_filter: copy_texts(&self.misc_filter),
            field_filter: copy_texts(&self.field_filter),
            dialect_filter: copy_texts(&self.dialect_filter),
            limit: self.limit,
        }
    }
}

/// A builder for configuring a dictionary lookup: the term, the match
/// mode, the filters and the fuzzy distance.
pub struct QueryBuilder<'d> {
    pub dict: &'d Dict,
    pub term: String,
    pub mode: MatchMode,
    pub filter: ResultFilter,
    pub max_distance: u32,
}

impl<'d> QueryBuilder<'d> {
    /// An exact lookup of `term`, unfiltered, with fuzzy distance 2.
    pub fn new(dict: &'d Dict, term: &str) -> (r: Self)
        ensures
            r.dict == dict,
            r.term@ == term@,
            r.mode == MatchMode::Exact,
            unfiltered(r.filter),
            r.max_distance == 2,
    {
        QueryBuilder {
            dict,
            term: term.to_string(),
            mode: MatchMode::Exact,
            filter: ResultFilter::new(),
            max_distance: 2,
        }
    }

    /// Set the match mode for this query.
    pub fn mode(self, mode: MatchMode) -> (r: Self)
        ensures
            r == (QueryBuilder { mode: mode, ..self }),
    {
        QueryBuilder { mode, ..self }
    }

    /// Filter to entries where any kanji or kana form is common.
    pub fn common_only(self, common: bool) -> (r: Self)
        ensures
            r == (QueryBuilder { filter: ResultFilter { common_only: common, ..self.filter }, ..self }),
    {
        let mut b = self;
        b.filter.common_only = common;
        b
    }

    /// Filter to entries with a sense whose part of speech contains one of
    /// these codes.
    pub fn pos(self, pos: &[&str]) -> (r: Self)
        ensures
            texts(r.filter.pos_filter@) == str_texts(pos@),
            r == (QueryBuilder {
                filter: ResultFilter { pos_filter: r.filter.pos_filter, ..self.filter },
                ..self
            }),
    {
        let mut b = self;
        b.filter.pos_filter = owned_strings(pos);
        b
    }

    /// Filter to entries with a sense whose JMdict `misc` codes contain one
    /// of these (e.g. `"uk"` for "usually written in kana").
    pub fn misc(self, misc: &[&str]) -> (r: Self)
        ensures
            texts(r.filter.misc_filter@) == str_texts(misc@),
            r == (QueryBuilder {
                filter: ResultFilter { misc_filter: r.filter.misc_filter, ..self.filter },
                ..self
            }),
    {
        let mut b = self;
        b.filter.misc_filter = owned_strings(misc);
        b
    }

    /// Filter to entries with a sense whose JMdict `field` codes contain one
    /// of these (e.g. `"med"` for medicine).
    pub fn field(self, field: &[&str]) -> (r: Self)
        ensures
            texts(r.filter.field_filter@) == str_texts(field@),
            r == (QueryBuilder {
                filter: ResultFilter { field_filter: r.filter.field_filter, ..self.filter },
                ..self
            }),
    {
        let mut b = self;
        b.filter.field_filter = owned_strings(field);
        b
    }

    /// Filter to entries with a sense whose JMdict `dialect` codes contain
    /// one of these (e.g. `"ksb"` for Kansai-ben).
    pub fn dialect(self, dialect: &[&str]) -> (r: Self)
        ensures
            texts(r.filter.dialect_filter@) == str_texts(dialect@),
            r == (QueryBuilder {
                filter: ResultFilter { dialect_filter: r.filter.dialect_filter, ..self.filter },
                ..self
            }),
    {
        let mut b = self;
        b.filter.dialect_filter = owned_strings(dialect);
        b
    }

    /// Set the maximum edit distance for fuzzy search, clamped to
    /// [`MAX_FUZZY_DISTANCE`].
    pub fn max_distance(self, n: u32) -> (r: Self)
        ensures
            r == (QueryBuilder { max_distance: clamped(n), ..self }),
    {
        QueryBuilder { max_distance: clamp_distance(n), ..self }
    }

    /// Cap the results after filtering.
    pub fn limit(self, limit: usize) -> (r: Self)
        ensures
            r == (QueryBuilder { filter: ResultFilter { limit: Some(limit), ..self.filter }, ..self }),
    {
        let mut b = self;
        b.filter.limit = Some(limit);
        b
    }

    /// The match candidates of the query, by its mode, before their entries
    /// are read and filtered.
    pub fn candidates(&self) -> (r: Result<Vec<MatchCandidate>, JmdictError>)
        ensures
            match self.mode {
                MatchMode::Exact => r matches Ok(v) && is_exact_result(
                    self.dict.indexes(),
                    self.term@,
                    v@,
                ),
                MatchMode::Prefix => r matches Ok(v) && is_prefix_result(
                    self.dict.indexes(),
                    self.term@,
                    v@,
                ),
                MatchMode::Deinflect => r matches Ok(v) && is_deinflect_result(
                    self.dict.indexes(),
                    self.dict.rules(),
                    self.term@,
                    v@,
                ),
                MatchMode::Fuzzy => {
                    &&& r is Err <==> levenshtein_refused(self.term@, self.max_distance)
                    &&& r matches Err(e) ==> e is InvalidQuery
                    &&& r matches Ok(v) ==> is_fuzzy_result(
                        self.dict.indexes(),
                        self.term@,
                        self.max_distance,
                        v@,
                    )
                },
            },
    {
        match self.mode {
            MatchMode::Exact => Ok(self.dict.exact_candidates(self.term.as_str())),
            MatchMode::Prefix => Ok(self.dict.prefix_candidates(self.term.as_str())),
            MatchMode::Deinflect => Ok(self.dict.deinflect_candidates(self.term.as_str())),
            MatchMode::Fuzzy => self.dict.fuzzy_candidates(self.term.as_str(), self.max_distance),
        }
    }
}

/// A builder for configuring lookups of several terms with the same
/// settings.
pub struct BatchQueryBuilder<'d> {
    pub dict: &'d Dict,
    pub terms: Vec<String>,
    pub mode: MatchMode,
    pub filter: ResultFilter,
    pub max_distance: u32,
}

impl<'d> BatchQueryBuilder<'d> {
    /// Exact lookups of `terms`, unfiltered, with fuzzy distance 2.
    pub fn new(dict: &'d Dict, terms: Vec<String>) -> (r: Self)
        ensures
            r.dict == dict,
            r.terms == terms,
            r.mode == MatchMode::Exact,
            unfiltered(r.filter),
            r.max_distance == 2,
    {
        BatchQueryBuilder {
            dict,
            terms,
            mode: MatchMode::Exact,
            filter: ResultFilter::new(),
            max_distance: 2,
        }
    }

    /// Set the match mode for this batch query.
    pub fn mode(self, mode: MatchMode) -> (r: Self)
        ensures
            r == (BatchQueryBuilder { mode: mode, ..self }),
    {
        BatchQueryBuilder { mode, ..self }
    }

    /// Filter to entries where any kanji or kana form is common.
    pub fn common_only(self, common: bool) -> (r: Self)
        ensures
            r == (BatchQueryBuilder {
                filter: ResultFilter { common_only: common, ..self.filter },
                ..self
            }),
    {
        let mut b = self;
        b.filter.common_only = common;
        b
    }

    /// Filter to entries with a sense whose part of speech contains one of
    /// these codes.
    pub fn pos(self, pos: &[&str]) -> (r: Self)
        ensures
            texts(r.filter.pos_filter@) == str_texts(pos@),
            r == (BatchQueryBuilder {
                filter: ResultFilter { pos_filter: r.filter.pos_filter, ..self.filter },
                ..self
            }),
    {
        let mut b = self;
        b.filter.pos_filter = owned_strings(pos);
        b
    }

    /// Filter to entries with a sense whose JMdict `misc` codes contain one
    /// of these.
    pub fn misc(self, misc: &[&str]) -> (r: Self)
        ensures
            texts(r.filter.misc_filter@) == str_texts(misc@),
            r == (BatchQueryBuilder {
                filter: ResultFilter { misc_filter: r.filter.misc_filter, ..self.filter },
                ..self
            }),
    {
        let mut b = self;
        b.filter.misc_filter = owned_strings(misc);
        b
    }

    /// Filter to entries with a sense whose JMdict `field` codes contain one
    /// of these.
    pub fn field(self, field: &[&str]) -> (r: Self)
        ensures
            texts(r.filter.field_filter@) == str_texts(field@),
            r == (BatchQueryBuilder {
                filter: ResultFilter { field_filter: r.filter.field_filter, ..self.filter },
                ..self
            }),
    {
        let mut b = self;
        b.filter.field_filter = owned_strings(field);
        b
    }

    /// Filter to entries with a sense whose JMdict `dialect` codes contain
    /// one of these.
    pub fn dialect(self, dialect: &[&str]) -> (r: Self)
        ensures
            texts(r.filter.dialect_filter@) == str_texts(dialect@),
            r == (BatchQueryBuilder {
                filter: ResultFilter { dialect_filter: r.filter.dialect_filter, ..self.filter },
                ..self
            }),
    {
        let mut b = self;
        b.filter.dialect_filter = owned_strings(dialect);
        b
    }

    /// Cap the results of each term after filtering.
    pub fn limit(self, limit: usize) -> (r: Self)
        ensures
            r == (BatchQueryBuilder {
                filter: ResultFilter { limit: Some(limit), ..self.filter },
                ..self
            }),
    {
        let mut b = self;
        b.filter.limit = Some(limit);
        b
    }

    /// Set the maximum edit distance for fuzzy search, clamped to
    /// [`MAX_FUZZY_DISTANCE`].
    pub fn max_distance(self, n: u32) -> (r: Self)
        ensures
            r == (BatchQueryBuilder { max_distance: clamped(n), ..self }),
    {
        BatchQueryBuilder { max_distance: clamp_distance(n), ..self }
    }

    /// The lookup of term `i` of the batch, with the batch's settings: the
    /// same query as a single lookup of that term with these settings.
    pub fn query_for(&self, i: usize) -> (r: QueryBuilder<'d>)
        requires
            i < self.terms@.len(),
        ensures
            r.dict == self.dict,
            r.term@ == self.terms@[i as int]@,
            r.mode == self.mode,
            same_filter(r.filter, self.filter),
            r.max_distance == self.max_distance,
    {
        QueryBuilder {
            dict: self.dict,
            term: self.terms[i].clone(),
            mode: self.mode,
            filter: self.filter.copy(),
            max_distance: self.max_distance,
        }
    }
}

} // verus!
