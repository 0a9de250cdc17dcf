//! Japanese conjugation reversal.
//!
//! Deinflection walks back from a conjugated form towards dictionary forms
//! (lemmas) by repeatedly replacing known inflected endings, following the
//! rule set of the 10ten Japanese Reader.
use vstd::prelude::*;

use crate::candidates::{
    apply_rule_exec, chains_view, cand_view, cands_view, complete_stem, copy_cand, copy_chains,
    chars_from, lemma_apply_rules_too_long, rules_view, Cand,
};
use crate::deinflect_model::{
    apply_groups, apply_rules, deinflect_model, group_by_length, groups_down_from, groups_ok,
    has_final_type, kana_fold, max_from_len, process, rule_count, rule_ok,
    length_ordered, rules_of_len, steps, weight, CandModel, RuleModel,
};
use crate::deinflect_laws::{lemma_groups_by_length, lemma_input_first, lemma_results_nonempty};
use crate::deinflect_rules::{rule_at, rule_data, rule_table};
use crate::deinflect_termination::{
    lemma_process, lemma_steps_end_unique, lemma_steps_well_typed,
};
use crate::text::{char_from_u32, chars_of, push_char, string_from_chars};

verus! {

/// Represents the reason for a deinflection rule
#[derive(Debug, Clone, Copy, PartialEq, Eq, Hash, Structural)]
pub enum Reason {
    PolitePastNegative,
    PoliteNegative,
    PoliteVolitional,
    Chau,
    Sugiru,
    PolitePast,
    Tara,
    Tari,
    Causative,
    PotentialOrPassive,
    Toku,
    Sou,
    Tai,
    Polite,
    Respectful,
    Humble,
    HumbleOrKansaiDialect,
    Past,
    Negative,
    Passive,
    Ba,
    Volitional,
    Potential,
    EruUru,
    CausativePassive,
    Te,
    Zu,
    Imperative,
    MasuStem,
    Adv,
    Noun,
    ImperativeNegative,
    Continuous,
    Ki,
    SuruNoun,
    ZaruWoEnai,
    NegativeTe,
    Irregular,
}

/// Word types for deinflection rules
#[derive(Debug, Clone, Copy, PartialEq, Eq, Structural)]
pub enum WordType {
    // Final word types
    IchidanVerb,
    GodanVerb,
    IAdj,
    KuruVerb,
    SuruVerb,
    SpecialSuruVerb,
    NounVS,
    All,
    // Intermediate types
    Initial,
    TaTeStem,
    DaDeStem,
    MasuStem,
    IrrealisStem,
}

/// The bit of each word type (`All` is the union of the seven final types).
pub open spec fn word_type_bits(t: WordType) -> u32 {
    match t {
        WordType::IchidanVerb => 1,
        WordType::GodanVerb => 2,
        WordType::IAdj => 4,
        WordType::KuruVerb => 8,
        WordType::SuruVerb => 16,
        WordType::SpecialSuruVerb => 32,
        WordType::NounVS => 64,
        WordType::All => 127,
        WordType::Initial => 128,
        WordType::TaTeStem => 256,
        WordType::DaDeStem => 512,
        WordType::MasuStem => 1024,
        WordType::IrrealisStem => 2048,
    }
}

impl WordType {
    /// The bit mask of this word type.
    pub fn as_u32(&self) -> (r: u32)
        ensures
            r == word_type_bits(*self),
    {
        match self {
            WordType::IchidanVerb => 1,
            WordType::GodanVerb => 2,
            WordType::IAdj => 4,
            WordType::KuruVerb => 8,
            WordType::SuruVerb => 16,
            WordType::SpecialSuruVerb => 32,
            WordType::NounVS => 64,
            WordType::All => 127,
            WordType::Initial => 128,
            WordType::TaTeStem => 256,
            WordType::DaDeStem => 512,
            WordType::MasuStem => 1024,
            WordType::IrrealisStem => 2048,
        }
    }
}

/// Represents a deinflection rule
#[derive(Debug, Clone)]
pub struct DeinflectionRule {
    /// The suffix to match
    pub from: String,
    /// The replacement for the suffix
    pub to: String,
    /// Bit mask representing the type of words this rule can be applied to
    pub from_type: u32,
    /// Bit mask representing the resulting word type
    pub to_type: u32,
    /// Reasons for this deinflection
    pub reasons: Vec<Reason>,
}

/// A rule as plain values.
pub open spec fn rule_model(r: DeinflectionRule) -> RuleModel {
    RuleModel {
        from: r.from@,
        to: r.to@,
        from_type: r.from_type,
        to_type: r.to_type,
        reasons: r.reasons@,
    }
}

/// A candidate word after deinflection
#[derive(Debug, Clone, PartialEq, Eq)]
pub struct CandidateWord {
    /// The de-inflected candidate word
    pub word: String,
    /// Sequence of reasons describing how the word was derived
    /// Each array is a sequence of rules applied in turn
    pub reason_chains: Vec<Vec<Reason>>,
    /// Bit field describing the possible types of word this could represent
    pub word_type: u32,
}


/// Whether a returned candidate holds the word, reason chains and word type
/// of a candidate of the model.
pub open spec fn candidate_matches(c: CandidateWord, m: CandModel) -> bool {
    &&& c.word@ == m.word
    &&& chains_view(c.reason_chains@) == m.chains
    &&& c.word_type == m.wtype
}

/// Group of rules with the same ending length
struct RuleGroup {
    rules: Vec<DeinflectionRule>,
    from_len: usize,
}

spec fn group_view(g: RuleGroup) -> Seq<RuleModel> {
    rules_view(g.rules@)
}

spec fn groups_view(groups: Seq<RuleGroup>) -> Seq<Seq<RuleModel>> {
    groups.map_values(|g: RuleGroup| group_view(g))
}

/// Every rule of a group has an ending of the group's length and the shape
/// of the table's rules.
spec fn groups_wf(groups: Seq<RuleGroup>) -> bool {
    forall|g: int, k: int|
        0 <= g < groups.len() && 0 <= k < groups[g].rules@.len() ==> {
            &&& (#[trigger] groups[g].rules@[k]).from@.len() == groups[g].from_len
            &&& rule_ok(rule_model(groups[g].rules@[k]))
        }
}

/// Lightweight conjugation reversal system for Japanese
pub struct Deinflector {
    rule_groups: Vec<RuleGroup>,
}

impl View for Deinflector {
    type V = Seq<Seq<RuleModel>>;

    /// The rule groups, in the order they are tried.
    closed spec fn view(&self) -> Seq<Seq<RuleModel>> {
        groups_view(self.rule_groups@)
    }
}

proof fn lemma_groups_wf_ok(groups: Seq<RuleGroup>)
    requires
        groups_wf(groups),
    ensures
        groups_ok(groups_view(groups)),
{
    assert forall|g: int, k: int|
        0 <= g < groups_view(groups).len() && 0 <= k < groups_view(groups)[g].len() implies rule_ok(
        #[trigger] groups_view(groups)[g][k],
    ) by {
        assert(groups_view(groups)[g] == rules_view(groups[g].rules@));
        assert(groups_view(groups)[g][k] == rule_model(groups[g].rules@[k]));
    }
}

/// The rules of `rules` with an ending of `n` characters, in order.
fn collect_rules_of_len(rules: &Vec<DeinflectionRule>, n: usize) -> (g: Vec<DeinflectionRule>)
    requires
        forall|j: int| 0 <= j < rules@.len() ==> rule_ok(#[trigger] rule_model(rules@[j])),
    ensures
        rules_view(g@) == rules_of_len(rules_view(rules@), n as nat),
        forall|k: int|
            0 <= k < g@.len() ==> (#[trigger] g@[k]).from@.len() == n && rule_ok(rule_model(g@[k])),
{
    let ghost all = rules_view(rules@);
    let mut g: Vec<DeinflectionRule> = Vec::new();
    let mut j: usize = 0;
    while j < rules.len()
        invariant
            all == rules_view(rules@),
            j <= rules.len(),
            forall|j: int| 0 <= j < rules@.len() ==> rule_ok(#[trigger] rule_model(rules@[j])),
            rules_view(g@) == rules_of_len(all.take(j as int), n as nat),
            forall|k: int|
                0 <= k < g@.len() ==> (#[trigger] g@[k]).from@.len() == n && rule_ok(
                    rule_model(g@[k]),
                ),
        decreases rules.len() - j,
    {
        let from = chars_of(rules[j].from.as_str());
        proof {
            reveal(Seq::filter);
            assert(all.take(j + 1).drop_last() =~= all.take(j as int));
            assert(all.take(j + 1).last() == rule_model(rules@[j as int]));
        }
        if from.len() == n {
            let rule = copy_rule(&rules[j]);
            let ghost before = g@;
            g.push(rule);
            proof {
                assert(rules_view(g@) =~= rules_view(before).push(rule_model(rule)));
            }
        }
        j += 1;
    }
    assert(all.take(rules.len() as int) =~= all);
    g
}

/// A copy of a rule.
fn copy_rule(r: &DeinflectionRule) -> (c: DeinflectionRule)
    ensures
        rule_model(c) == rule_model(*r),
{
    DeinflectionRule {
        from: r.from.clone(),
        to: r.to.clone(),
        from_type: r.from_type,
        to_type: r.to_type,
        reasons: crate::candidates::copy_reasons(&r.reasons),
    }
}

impl Deinflector {
    #[verifier::type_invariant]
    spec fn wf(self) -> bool {
        groups_wf(self.rule_groups@)
    }

    /// Create a new deinflector with default Japanese conjugation rules
    pub fn new() -> (d: Self)
        ensures
            d@ == group_by_length(rule_table()),
            groups_ok(d@),
            length_ordered(d@),
            d@.len() > 0,
    {
        let mut deinflector = Self { rule_groups: Vec::new() };
        deinflector.add_comprehensive_rules();
        proof {
            use_type_invariant(&deinflector);
            lemma_groups_wf_ok(deinflector.rule_groups@);
            lemma_groups_by_length(rule_table());
            assert(rule_table()[0] == rule_at(0));
            assert(rule_at(0).from.len() >= 1);
        }
        deinflector
    }

    /// Deinflect a conjugated form to find possible lemmas
    pub fn deinflect(&self, word: &str) -> (result: Vec<CandidateWord>)
        ensures
            result@.len() == deinflect_model(self@, word@).len(),
            forall|j: int|
                0 <= j < result@.len() ==> candidate_matches(
                    #[trigger] result@[j],
                    deinflect_model(self@, word@)[j],
                ),
            result@.len() >= 1,
            result@[0].word@ == word@,
            result@[0].reason_chains@.len() == 0,
            word@.len() > 0 ==> forall|j: int| 0 <= j < result@.len() ==> (#[trigger] result@[j]).word@.len() > 0,
    {
        proof {
            use_type_invariant(self);
            lemma_groups_wf_ok(self.rule_groups@);
            lemma_input_first(self@, word@);
            if word@.len() > 0 {
                lemma_results_nonempty(self@, word@);
            }
        }
        let ghost groups = self@;
        let ghost b = rule_count(groups) + 2;
        // Start with the original word
        let initial_type = 0xffff ^ (WordType::TaTeStem.as_u32() | WordType::DaDeStem.as_u32()
            | WordType::IrrealisStem.as_u32());
        assert(0xffffu32 ^ (256u32 | 512u32 | 2048u32) == 62719u32) by (bit_vector);
        let mut cands: Vec<Cand> = Vec::new();
        cands.push(
            Cand { word: chars_of(word), chains: Vec::new(), wtype: initial_type, registered: true },
        );
        assert(cands_view(cands@) =~= steps(groups, word@, 0)) by {
            assert(chains_view(cands@[0].chains@) =~= seq![]);
        }
        let mut i: usize = 0;
        while i < cands.len()
            invariant
                groups == self@,
                groups_ok(groups),
                b == rule_count(groups) + 2,
                i <= cands.len(),
                cands_view(cands@) == steps(groups, word@, i as nat),
            decreases (if i == 0 {
                1int
            } else {
                0int
            }), weight(cands_view(cands@), i as int, b),
        {
            proof {
                lemma_steps_well_typed(groups, word@, i as nat);
                lemma_process(groups, cands_view(cands@), i as int, b);
            }
            self.process_candidate(&mut cands, i);
            i += 1;
        }
        let ghost all = cands_view(cands@);
        proof {
            let n = choose|n: nat| steps(groups, word@, n).len() == n;
            lemma_steps_end_unique(groups, word@, n, i as nat);
        }
        // Filter out intermediate forms
        let mut result: Vec<CandidateWord> = Vec::new();
        let mut k: usize = 0;
        while k < cands.len()
            invariant
                all == cands_view(cands@),
                k <= cands.len(),
                result@.len() == all.take(k as int).filter(|c: CandModel| has_final_type(c)).len(),
                forall|j: int|
                    0 <= j < result@.len() ==> candidate_matches(
                        #[trigger] result@[j],
                        all.take(k as int).filter(|c: CandModel| has_final_type(c))[j],
                    ),
            decreases cands.len() - k,
        {
            let ghost prev = all.take(k as int).filter(|c: CandModel| has_final_type(c));
            proof {
                reveal(Seq::filter);
                assert(all.take(k + 1).drop_last() =~= all.take(k as int));
                assert(all.take(k + 1).last() == cand_view(cands@[k as int]));
            }
            if cands[k].wtype & WordType::All.as_u32() != 0 {
                let found = CandidateWord {
                    word: string_from_chars(&cands[k].word),
                    reason_chains: copy_chains(&cands[k].chains),
                    word_type: cands[k].wtype,
                };
                result.push(found);
            }
            k += 1;
        }
        assert(all.take(cands.len() as int) =~= all);
        assert(candidate_matches(result@[0], deinflect_model(self@, word@)[0]));
        assert(chains_view(result@[0].reason_chains@).len() == 0);
        result
    }

    /// Processes candidate `i`: the `る` completion of a stem, then every
    /// rule in group order.
    fn process_candidate(&self, cands: &mut Vec<Cand>, i: usize)
        requires
            i < old(cands).len(),
        ensures
            cands_view(final(cands)@) == process(self@, cands_view(old(cands)@), i as int),
    {
        proof {
            use_type_invariant(self);
        }
        let ghost st = cands_view(cands@);
        let c = copy_cand(&cands[i]);
        assert(cand_view(c) == st[i as int]);
        // Don't deinflect masu-stem results of Ichidan verbs any further
        if c.wtype & WordType::IchidanVerb.as_u32() != 0 && c.chains.len() == 1
            && c.chains[0].len() == 1 && c.chains[0][0] == Reason::MasuStem {
            return;
        }
        complete_stem(cands, &c);
        let ghost st1 = cands_view(cands@);
        let mut g: usize = 0;
        while g < self.rule_groups.len()
            invariant
                groups_wf(self.rule_groups@),
                g <= self.rule_groups.len(),
                cands_view(cands@) == apply_groups(st1, cand_view(c), self@.take(g as int)),
            decreases self.rule_groups.len() - g,
        {
            let ghost before = cands_view(cands@);
            self.apply_group(cands, &c, &self.rule_groups[g]);
            g += 1;
            proof {
                assert(self@.take(g as int).drop_last() =~= self@.take(g - 1));
                assert(self@.take(g as int).last() == group_view(self.rule_groups@[g - 1]));
            }
        }
        assert(self@.take(self.rule_groups.len() as int) =~= self@);
    }

    /// Applies the rules of one group to candidate `c`.
    fn apply_group(&self, cands: &mut Vec<Cand>, c: &Cand, group: &RuleGroup)
        requires
            forall|k: int|
                0 <= k < group.rules@.len() ==> (#[trigger] group.rules@[k]).from@.len()
                    == group.from_len,
        ensures
            cands_view(final(cands)@) == apply_rules(
                cands_view(old(cands)@),
                cand_view(*c),
                group_view(*group),
            ),
    {
        let ghost st = cands_view(cands@);
        let ghost rules = group_view(*group);
        if group.from_len > c.word.len() {
            proof {
                assert forall|k: int| 0 <= k < rules.len() implies (#[trigger] rules[k]).from.len()
                    > cand_view(*c).word.len() by {
                    assert(rules[k] == rule_model(group.rules@[k]));
                }
                lemma_apply_rules_too_long(st, cand_view(*c), rules);
            }
            return;
        }
        let stem_len = c.word.len() - group.from_len;
        let tail = chars_from(c.word.as_slice(), stem_len);
        let ending = string_from_chars(&tail);
        let folded = self.kana_to_hiragana(ending.as_str());
        let mut k: usize = 0;
        while k < group.rules.len()
            invariant
                k <= group.rules.len(),
                rules == group_view(*group),
                forall|k: int|
                    0 <= k < group.rules@.len() ==> (#[trigger] group.rules@[k]).from@.len()
                        == group.from_len,
                stem_len == c.word@.len() - group.from_len,
                ending@ == c.word@.skip(stem_len as int),
                folded@ == ending@.map_values(|ch: char| kana_fold(ch)),
                cands_view(cands@) == apply_rules(st, cand_view(*c), rules.take(k as int)),
            decreases group.rules.len() - k,
        {
            apply_rule_exec(cands, c, &group.rules[k], &ending, &folded, stem_len);
            k += 1;
            proof {
                assert(rules.take(k as int).drop_last() =~= rules.take(k - 1));
                assert(rules.take(k as int).last() == rule_model(group.rules@[k - 1]));
            }
        }
        assert(rules.take(group.rules.len() as int) =~= rules);
    }

    /// Convert katakana to hiragana (simplified version)
    pub fn kana_to_hiragana(&self, text: &str) -> (r: String)
        ensures
            r@ == text@.map_values(|c: char| kana_fold(c)),
    {
        let mut r = String::new();
        for c in it: text.chars()
            invariant
                r@ == it.seq().take(it.index() as int).map_values(|c: char| kana_fold(c)),
        {
            let folded = if c >= 'ァ' && c <= 'ン' {
                match char_from_u32(c as u32 - 0x60) {
                    Some(h) => h,
                    None => c,
                }
            } else {
                c
            };
            push_char(&mut r, folded);
            proof {
                assert(it.seq().take(it.index() + 1).map_values(|c: char| kana_fold(c))
                    =~= it.seq().take(it.index() as int).map_values(|c: char| kana_fold(c)).push(
                    kana_fold(c),
                ));
            }
        }
        r
    }

    /// Load the rule table, replacing any rules loaded before: the groups
    /// become the table's rules grouped by ending length, so loading twice
    /// adds no rule twice.
    pub fn add_comprehensive_rules(&mut self)
        ensures
            final(self)@ == group_by_length(rule_table()),
    {
        let rule_data = rule_data();
        let ghost table = rule_table();
        assert(rules_view(rule_data@) =~= table);
        assert forall|j: int| 0 <= j < rule_data@.len() implies rule_ok(
            #[trigger] rule_model(rule_data@[j]),
        ) by {
            assert(rule_model(rule_data@[j]) == rule_at(j));
        }
        // Longest ending
        let mut max_len: usize = 0;
        let mut j: usize = 0;
        while j < rule_data.len()
            invariant
                table == rules_view(rule_data@),
                j <= rule_data.len(),
                max_len == max_from_len(table.take(j as int)),
            decreases rule_data.len() - j,
        {
            let from = chars_of(rule_data[j].from.as_str());
            if from.len() > max_len {
                max_len = from.len();
            }
            j += 1;
            proof {
                assert(table.take(j as int).drop_last() =~= table.take(j - 1));
            }
        }
        assert(table.take(rule_data.len() as int) =~= table);
        // Group rules by length, longest first
        let mut groups: Vec<RuleGroup> = Vec::new();
        let mut n: usize = max_len;
        while n > 0
            invariant
                table == rules_view(rule_data@),
                forall|j: int| 0 <= j < rule_data@.len() ==> rule_ok(#[trigger] rule_model(rule_data@[j])),
                n <= max_len,
                max_len == max_from_len(table),
                groups_view(groups@) + groups_down_from(table, n as nat) == group_by_length(table),
                groups_wf(groups@),
            decreases n,
        {
            let g = collect_rules_of_len(&rule_data, n);
            let ghost before = groups@;
            if g.len() > 0 {
                groups.push(RuleGroup { rules: g, from_len: n });
                proof {
                    assert(groups_view(groups@) =~= groups_view(before) + seq![rules_view(g@)]);
                }
            }
            proof {
                assert(groups_view(groups@) + groups_down_from(table, (n - 1) as nat)
                    =~= groups_view(before) + groups_down_from(table, n as nat));
            }
            n -= 1;
        }
        assert(groups_view(groups@) =~= group_by_length(table));
        self.rule_groups = groups;
    }
}

impl Default for Deinflector {
    fn default() -> (d: Self)
        ensures
            d@ == group_by_length(rule_table()),
    {
        Self::new()
    }
}

} // verus!
