//! The mathematical model of deinflection: one step processes one candidate
//! by applying every rule to it, and the result is what is left once every
//! candidate has been processed. The termination measure of that loop is
//! also here.
use vstd::prelude::*;

use crate::deinflector::Reason;

verus! {

/// A deinflection rule as plain values.
pub struct RuleModel {
    pub from: Seq<char>,
    pub to: Seq<char>,
    pub from_type: u32,
    pub to_type: u32,
    pub reasons: Seq<Reason>,
}

/// A candidate as plain values. `registered` records whether the candidate
/// was entered in the word index (rule results are, stem completions are
/// not).
pub struct CandModel {
    pub word: Seq<char>,
    pub chains: Seq<Seq<Reason>>,
    pub wtype: u32,
    pub registered: bool,
}

/// Word type of the input word: every bit but the TaTe, DaDe and irrealis
/// stems (`0xffff ^ (256 | 512 | 2048)`).
pub open spec fn initial_type() -> u32 {
    62719
}

/// The three stems that take a `る` completion: masu, TaTe and irrealis
/// (`1024 | 256 | 2048`).
pub open spec fn completable_stems() -> u32 {
    3328
}

/// Union of the final word types (`WordType::All`).
pub open spec fn final_types() -> u32 {
    127
}

/// Ichidan verb or kuru verb (`1 | 8`), the type of a stem completed by `る`.
pub open spec fn ichidan_or_kuru() -> u32 {
    9
}

/// Full-width katakana ァ..=ン folded onto hiragana; other characters kept.
pub open spec fn kana_fold(c: char) -> char {
    if 'ァ' <= c && c <= 'ン' {
        ((c as u32) - 0x60) as char
    } else {
        c
    }
}

/// Whether `word` ends with `from`, read as is or with its katakana folded
/// onto hiragana.
pub open spec fn ending_matches(word: Seq<char>, from: Seq<char>) -> bool {
    &&& from.len() <= word.len()
    &&& (word.skip(word.len() - from.len()) == from || word.skip(word.len() - from.len()).map_values(
        |c: char| kana_fold(c),
    ) == from)
}

/// Whether a reason of `reasons` already occurs in some chain.
pub open spec fn has_common_reason(chains: Seq<Seq<Reason>>, reasons: Seq<Reason>) -> bool {
    exists|a: int, b: int|
        0 <= a < chains.len() && 0 <= b < chains[a].len() && reasons.contains(
            #[trigger] chains[a][b],
        )
}

/// The reason chains of a new candidate derived with `reasons`: the reasons
/// are prepended to the first chain, a causative applied to a passive makes
/// a causative-passive, a masu stem adds nothing to an existing chain, and
/// without chains the reasons form the first one.
pub open spec fn child_chains(chains: Seq<Seq<Reason>>, reasons: Seq<Reason>) -> Seq<Seq<Reason>> {
    if reasons.len() == 0 {
        chains
    } else if chains.len() > 0 {
        if reasons[0] == Reason::Causative && chains[0].len() > 0 && chains[0][0]
            == Reason::PotentialOrPassive {
            chains.update(0, chains[0].update(0, Reason::CausativePassive))
        } else if reasons[0] == Reason::MasuStem && chains[0].len() > 0 {
            chains
        } else {
            chains.update(0, reasons + chains[0])
        }
    } else {
        seq![reasons]
    }
}

/// Index of the last registered candidate with word `w`, or -1.
pub open spec fn last_registered(st: Seq<CandModel>, w: Seq<char>) -> int
    decreases st.len(),
{
    if st.len() == 0 {
        -1
    } else if st.last().registered && st.last().word == w {
        st.len() - 1
    } else {
        last_registered(st.drop_last(), w)
    }
}

/// `word` with the rule's ending replaced by its replacement.
pub open spec fn rewrite(word: Seq<char>, r: RuleModel) -> Seq<char> {
    word.take(word.len() - r.from.len()) + r.to
}

/// Applies one rule to candidate `c`, against the candidate list `st`.
pub open spec fn apply_rule(st: Seq<CandModel>, c: CandModel, r: RuleModel) -> Seq<CandModel> {
    if c.wtype & r.from_type == 0 || !ending_matches(c.word, r.from) {
        st
    } else if rewrite(c.word, r).len() == 0 || has_common_reason(c.chains, r.reasons) {
        st
    } else {
        let nw = rewrite(c.word, r);
        let e = last_registered(st, nw);
        if e >= 0 && st[e].wtype == r.to_type {
            if r.reasons.len() > 0 {
                st.update(e, CandModel { chains: seq![r.reasons] + st[e].chains, ..st[e] })
            } else {
                st
            }
        } else {
            st.push(
                CandModel {
                    word: nw,
                    chains: child_chains(c.chains, r.reasons),
                    wtype: r.to_type,
                    registered: true,
                },
            )
        }
    }
}

/// Applies the rules in order.
pub open spec fn apply_rules(st: Seq<CandModel>, c: CandModel, rules: Seq<RuleModel>) -> Seq<
    CandModel,
>
    decreases rules.len(),
{
    if rules.len() == 0 {
        st
    } else {
        apply_rule(apply_rules(st, c, rules.drop_last()), c, rules.last())
    }
}

/// Applies the rule groups in order.
pub open spec fn apply_groups(st: Seq<CandModel>, c: CandModel, groups: Seq<Seq<RuleModel>>) -> Seq<
    CandModel,
>
    decreases groups.len(),
{
    if groups.len() == 0 {
        st
    } else {
        apply_rules(apply_groups(st, c, groups.drop_last()), c, groups.last())
    }
}

/// Masu-stem results of ichidan verbs are not deinflected further.
pub open spec fn is_ichidan_masu_stem_result(c: CandModel) -> bool {
    &&& c.wtype & 1 != 0
    &&& c.chains.len() == 1
    &&& c.chains[0].len() == 1
    &&& c.chains[0][0] == Reason::MasuStem
}

/// A masu, TaTe or irrealis stem is completed with `る` to an ichidan (or
/// kuru) verb, except an irrealis stem reached by a passive or causative.
pub open spec fn stem_completion(st: Seq<CandModel>, c: CandModel) -> Seq<CandModel> {
    if c.wtype & completable_stems() != 0 {
        let reason: Seq<Seq<Reason>> = if c.wtype & 1024 != 0 && c.chains.len() == 0 {
            seq![seq![Reason::MasuStem]]
        } else {
            seq![]
        };
        let inapplicable = c.wtype & 2048 != 0 && c.chains.len() > 0 && c.chains[0].len() > 0 && (
        c.chains[0][0] == Reason::Passive || c.chains[0][0] == Reason::Causative || c.chains[0][0]
            == Reason::CausativePassive);
        if !inapplicable {
            st.push(
                CandModel {
                    word: c.word.push('る'),
                    chains: c.chains + reason,
                    wtype: ichidan_or_kuru(),
                    registered: false,
                },
            )
        } else {
            st
        }
    } else {
        st
    }
}

/// Processes candidate `i`.
pub open spec fn process(groups: Seq<Seq<RuleModel>>, st: Seq<CandModel>, i: int) -> Seq<CandModel> {
    if 0 <= i < st.len() && !is_ichidan_masu_stem_result(st[i]) {
        apply_groups(stem_completion(st, st[i]), st[i], groups)
    } else {
        st
    }
}

/// The candidate list before any processing: the input word itself.
pub open spec fn initial_candidates(word: Seq<char>) -> Seq<CandModel> {
    seq![CandModel { word: word, chains: seq![], wtype: initial_type(), registered: true }]
}

/// The candidate list after the first `k` candidates have been processed.
pub open spec fn steps(groups: Seq<Seq<RuleModel>>, word: Seq<char>, k: nat) -> Seq<CandModel>
    decreases k,
{
    if k == 0 {
        initial_candidates(word)
    } else {
        process(groups, steps(groups, word, (k - 1) as nat), k - 1)
    }
}

/// Whether a candidate has a final (dictionary-form) word type.
pub open spec fn has_final_type(c: CandModel) -> bool {
    c.wtype & final_types() != 0
}

/// The result of deinflecting `word` with `groups`: the candidate list once
/// every candidate has been processed, without intermediate (stem-only)
/// candidates.
pub open spec fn deinflect_model(groups: Seq<Seq<RuleModel>>, word: Seq<char>) -> Seq<CandModel> {
    let n = choose|n: nat| steps(groups, word, n).len() == n;
    steps(groups, word, n).filter(|c: CandModel| has_final_type(c))
}

// ---------------------------------------------------------------------------
// Grouping the rules by ending length
// ---------------------------------------------------------------------------

/// The rules of `table` whose ending has `n` characters, in table order.
pub open spec fn rules_of_len(table: Seq<RuleModel>, n: nat) -> Seq<RuleModel> {
    table.filter(|r: RuleModel| r.from.len() == n)
}

/// The length of the longest ending in `table`.
pub open spec fn max_from_len(table: Seq<RuleModel>) -> nat
    decreases table.len(),
{
    if table.len() == 0 {
        0
    } else {
        let m = max_from_len(table.drop_last());
        if table.last().from.len() > m {
            table.last().from.len()
        } else {
            m
        }
    }
}

/// The non-empty groups of rules with endings of `n`, `n - 1`, ..., 1
/// characters, longest first.
pub open spec fn groups_down_from(table: Seq<RuleModel>, n: nat) -> Seq<Seq<RuleModel>>
    decreases n,
{
    if n == 0 {
        seq![]
    } else {
        let g = rules_of_len(table, n);
        let rest = groups_down_from(table, (n - 1) as nat);
        if g.len() > 0 {
            seq![g] + rest
        } else {
            rest
        }
    }
}

/// The rules of `table` grouped by the length of their ending, the longest
/// endings first, each group in table order.
pub open spec fn group_by_length(table: Seq<RuleModel>) -> Seq<Seq<RuleModel>> {
    groups_down_from(table, max_from_len(table))
}

/// Whether rule groups are ordered by ending length: every group non-empty,
/// all endings in a group of one length, the lengths strictly descending
/// from group to group (longest endings tried first).
pub open spec fn length_ordered(gs: Seq<Seq<RuleModel>>) -> bool {
    &&& forall|g: int| 0 <= g < gs.len() ==> (#[trigger] gs[g]).len() > 0
    &&& forall|g: int, k: int|
        0 <= g < gs.len() && 0 <= k < gs[g].len() ==> (#[trigger] gs[g][k]).from.len()
            == gs[g][0].from.len()
    &&& forall|a: int, b: int|
        0 <= a < b < gs.len() ==> (#[trigger] gs[a][0]).from.len() > (#[trigger] gs[b][0]).from.len()
}

// ---------------------------------------------------------------------------
// Rule table properties
// ---------------------------------------------------------------------------

pub open spec fn is_final_mask(t: u32) -> bool {
    1 <= t <= 127
}

pub open spec fn is_stem_bit(t: u32) -> bool {
    t == 256 || t == 512 || t == 1024 || t == 2048
}

pub open spec fn is_single_bit(t: u32) -> bool {
    t == 1 || t == 2 || t == 4 || t == 8 || t == 16 || t == 32 || t == 64 || t == 128 || t == 256
        || t == 512 || t == 1024 || t == 2048
}

/// Passive and causative-passive: the two reasons that one class stands for.
pub open spec fn is_passive_class(r: Reason) -> bool {
    r == Reason::PotentialOrPassive || r == Reason::CausativePassive
}

/// The shape that every rule of the table has: rules from a final type
/// shorten the word and add a reason (two characters shorter when the reason
/// is only passive, or a causative that leads to a stem); rules from a stem
/// lead to a final type and lengthen the word by at most one character.
pub open spec fn rule_ok(r: RuleModel) -> bool {
    &&& is_single_bit(r.from_type)
    &&& (is_final_mask(r.to_type) || is_stem_bit(r.to_type))
    &&& r.from.len() >= 1
    &&& r.from_type <= 64 ==> {
        &&& r.reasons.len() >= 1
        &&& r.reasons[0] != Reason::MasuStem
        &&& r.to.len() + 1 <= r.from.len()
        &&& (forall|k: int| 0 <= k < r.reasons.len() ==> is_passive_class(#[trigger] r.reasons[k]))
            ==> r.to.len() + 2 <= r.from.len()
        &&& (r.reasons[0] == Reason::Causative && is_stem_bit(r.to_type)) ==> r.to.len() + 2
            <= r.from.len()
    }
    &&& r.from_type >= 256 ==> {
        &&& is_final_mask(r.to_type)
        &&& r.to.len() <= r.from.len() + 1
        &&& r.reasons.len() > 0 ==> r.reasons[0] != Reason::Causative
    }
}

pub open spec fn groups_ok(groups: Seq<Seq<RuleModel>>) -> bool {
    forall|g: int, k: int| 0 <= g < groups.len() && 0 <= k < groups[g].len() ==> rule_ok(#[trigger] groups[g][k])
}

pub open spec fn rule_count(groups: Seq<Seq<RuleModel>>) -> nat
    decreases groups.len(),
{
    if groups.len() == 0 {
        0
    } else {
        rule_count(groups.drop_last()) + groups.last().len()
    }
}

// ---------------------------------------------------------------------------
// Termination measure
// ---------------------------------------------------------------------------

/// Reasons grouped into classes: passive and causative-passive share one.
pub open spec fn class_id(r: Reason) -> int {
    match r {
        Reason::PolitePastNegative => 0,
        Reason::PoliteNegative => 1,
        Reason::PoliteVolitional => 2,
        Reason::Chau => 3,
        Reason::Sugiru => 4,
        Reason::PolitePast => 5,
        Reason::Tara => 6,
        Reason::Tari => 7,
        Reason::Causative => 8,
        Reason::PotentialOrPassive => 9,
        Reason::Toku => 10,
        Reason::Sou => 11,
        Reason::Tai => 12,
        Reason::Polite => 13,
        Reason::Respectful => 14,
        Reason::Humble => 15,
        Reason::HumbleOrKansaiDialect => 16,
        Reason::Past => 17,
        Reason::Negative => 18,
        Reason::Passive => 19,
        Reason::Ba => 20,
        Reason::Volitional => 21,
        Reason::Potential => 22,
        Reason::EruUru => 23,
        Reason::CausativePassive => 9,
        Reason::Te => 25,
        Reason::Zu => 26,
        Reason::Imperative => 27,
        Reason::MasuStem => 28,
        Reason::Adv => 29,
        Reason::Noun => 30,
        Reason::ImperativeNegative => 31,
        Reason::Continuous => 32,
        Reason::Ki => 33,
        Reason::SuruNoun => 34,
        Reason::ZaruWoEnai => 35,
        Reason::NegativeTe => 36,
        Reason::Irregular => 37,
    }
}

pub open spec fn class_present(chains: Seq<Seq<Reason>>, k: int) -> bool {
    exists|a: int, b: int|
        0 <= a < chains.len() && 0 <= b < chains[a].len() && class_id(#[trigger] chains[a][b]) == k
}

pub open spec fn class_count(chains: Seq<Seq<Reason>>, n: nat) -> nat
    decreases n,
{
    if n == 0 {
        0
    } else {
        class_count(chains, (n - 1) as nat) + if class_present(chains, n - 1) {
            1nat
        } else {
            0nat
        }
    }
}

/// Number of reason classes that occur in the chains.
pub open spec fn classes(chains: Seq<Seq<Reason>>) -> nat {
    class_count(chains, 38)
}

/// Potential of a candidate: longer words, fewer reasons and stems weigh
/// more. Every candidate derived from a non-input candidate weighs less than
/// it.
pub open spec fn potential(c: CandModel) -> nat {
    (2 * c.word.len() - 2 * classes(c.chains) + (if is_stem_bit(c.wtype) {
        3int
    } else {
        0int
    }) + 76) as nat
}

pub open spec fn wpow(b: nat, e: nat) -> nat
    decreases e,
{
    if e == 0 {
        1
    } else {
        b * wpow(b, (e - 1) as nat)
    }
}

/// Sum of `b^potential` over the candidates from index `i` on.
pub open spec fn weight(st: Seq<CandModel>, i: int, b: nat) -> nat
    decreases st.len() - i,
{
    if i < 0 || i >= st.len() {
        0
    } else {
        wpow(b, potential(st[i])) + weight(st, i + 1, b)
    }
}

/// The shape of the candidate list: the input word first, every later
/// candidate of a final type or of a single stem.
pub open spec fn well_typed(st: Seq<CandModel>) -> bool {
    &&& st.len() >= 1
    &&& st[0].wtype == initial_type()
    &&& forall|j: int| 1 <= j < st.len() ==> is_final_mask(#[trigger] st[j].wtype) || is_stem_bit(st[j].wtype)
}

} // verus!
