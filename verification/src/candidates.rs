//! The candidate list that deinflection works on, and the executable steps
//! on it, each proved against its counterpart in `deinflect_model`.
use vstd::prelude::*;

use crate::deinflect_model::{
    apply_rule, apply_rules, child_chains, ending_matches, has_common_reason, kana_fold, last_registered, rewrite, stem_completion, CandModel, RuleModel,
};
use crate::deinflect_termination::lemma_last_registered_range;
use crate::deinflector::{rule_model, DeinflectionRule, Reason, WordType};
use crate::text::chars_of;

verus! {

/// A candidate under construction. `registered` tells whether the word was
/// entered in the word index (rule results are, stem completions are not).
pub(crate) struct Cand {
    pub(crate) word: Vec<char>,
    pub(crate) chains: Vec<Vec<Reason>>,
    pub(crate) wtype: u32,
    pub(crate) registered: bool,
}

/// Reason chains as sequences.
pub open spec fn chains_view(chains: Seq<Vec<Reason>>) -> Seq<Seq<Reason>> {
    chains.map_values(|v: Vec<Reason>| v@)
}

pub(crate) open spec fn cand_view(c: Cand) -> CandModel {
    CandModel { word: c.word@, chains: chains_view(c.chains@), wtype: c.wtype, registered: c.registered }
}

pub(crate) open spec fn cands_view(v: Seq<Cand>) -> Seq<CandModel> {
    v.map_values(|c: Cand| cand_view(c))
}

pub(crate) open spec fn rules_view(rules: Seq<DeinflectionRule>) -> Seq<RuleModel> {
    rules.map_values(|r: DeinflectionRule| rule_model(r))
}

pub(crate) fn copy_reasons(v: &Vec<Reason>) -> (r: Vec<Reason>)
    ensures
        r@ == v@,
{
    let mut r: Vec<Reason> = Vec::new();
    let mut k: usize = 0;
    while k < v.len()
        invariant
            k <= v.len(),
            r@ == v@.take(k as int),
        decreases v.len() - k,
    {
        r.push(v[k]);
        k += 1;
        proof {
            assert(v@.take(k as int) =~= v@.take(k - 1).push(v@[k - 1]));
        }
    }
    assert(v@.take(v.len() as int) =~= v@);
    r
}

pub(crate) fn copy_chars(v: &[char]) -> (r: Vec<char>)
    ensures
        r@ == v@,
{
    let mut r: Vec<char> = Vec::new();
    let mut k: usize = 0;
    while k < v.len()
        invariant
            k <= v.len(),
            r@ == v@.take(k as int),
        decreases v.len() - k,
    {
        r.push(v[k]);
        k += 1;
        proof {
            assert(v@.take(k as int) =~= v@.take(k - 1).push(v@[k - 1]));
        }
    }
    assert(v@.take(v.len() as int) =~= v@);
    r
}

/// The characters `v[from..]`.
pub(crate) fn chars_from(v: &[char], from: usize) -> (r: Vec<char>)
    requires
        from <= v.len(),
    ensures
        r@ == v@.skip(from as int),
{
    let mut r: Vec<char> = Vec::new();
    let mut k: usize = from;
    while k < v.len()
        invariant
            from <= k <= v.len(),
            r@ == v@.subrange(from as int, k as int),
        decreases v.len() - k,
    {
        r.push(v[k]);
        k += 1;
        proof {
            assert(v@.subrange(from as int, k as int) =~= v@.subrange(from as int, k - 1).push(v@[k - 1]));
        }
    }
    assert(v@.subrange(from as int, v.len() as int) =~= v@.skip(from as int));
    r
}

pub(crate) fn copy_chains(chains: &Vec<Vec<Reason>>) -> (r: Vec<Vec<Reason>>)
    ensures
        chains_view(r@) == chains_view(chains@),
{
    let mut r: Vec<Vec<Reason>> = Vec::new();
    let mut k: usize = 0;
    while k < chains.len()
        invariant
            k <= chains.len(),
            r@.len() == k,
            forall|j: int| 0 <= j < k ==> r@[j]@ == (#[trigger] chains@[j])@,
        decreases chains.len() - k,
    {
        r.push(copy_reasons(&chains[k]));
        k += 1;
    }
    assert(chains_view(r@) =~= chains_view(chains@));
    r
}

pub(crate) fn copy_cand(c: &Cand) -> (r: Cand)
    ensures
        cand_view(r) == cand_view(*c),
{
    Cand {
        word: copy_chars(&c.word),
        chains: copy_chains(&c.chains),
        wtype: c.wtype,
        registered: c.registered,
    }
}

/// Whether two character sequences are equal.
pub(crate) fn chars_equal(a: &[char], b: &[char]) -> (r: bool)
    ensures
        r == (a@ == b@),
{
    if a.len() != b.len() {
        return false;
    }
    let mut k: usize = 0;
    while k < a.len()
        invariant
            a.len() == b.len(),
            k <= a.len(),
            forall|j: int| 0 <= j < k ==> a@[j] == b@[j],
        decreases a.len() - k,
    {
        if a[k] != b[k] {
            return false;
        }
        k += 1;
    }
    assert(a@ =~= b@);
    true
}

/// Whether a reason of `reasons` occurs in some chain.
pub(crate) fn has_common_reason_exec(chains: &Vec<Vec<Reason>>, reasons: &Vec<Reason>) -> (r: bool)
    ensures
        r == has_common_reason(chains_view(chains@), reasons@),
{
    let ghost cs = chains_view(chains@);
    let mut a: usize = 0;
    while a < chains.len()
        invariant
            cs == chains_view(chains@),
            a <= chains.len(),
            forall|x: int, y: int|
                0 <= x < a && 0 <= y < cs[x].len() ==> !reasons@.contains(#[trigger] cs[x][y]),
        decreases chains.len() - a,
    {
        let chain = &chains[a];
        let mut b: usize = 0;
        while b < chain.len()
            invariant
                cs == chains_view(chains@),
                a < chains.len(),
                chain@ == cs[a as int],
                b <= chain.len(),
                forall|x: int, y: int|
                    0 <= x < a && 0 <= y < cs[x].len() ==> !reasons@.contains(#[trigger] cs[x][y]),
                forall|y: int| 0 <= y < b ==> !reasons@.contains(#[trigger] cs[a as int][y]),
            decreases chain.len() - b,
        {
            let mut k: usize = 0;
            while k < reasons.len()
                invariant
                    cs == chains_view(chains@),
                    a < chains.len(),
                    chain@ == cs[a as int],
                    b < chain.len(),
                    k <= reasons.len(),
                    forall|j: int| 0 <= j < k ==> reasons@[j] != chain@[b as int],
                decreases reasons.len() - k,
            {
                if chain[b] == reasons[k] {
                    proof {
                        assert(reasons@.contains(cs[a as int][b as int]));
                    }
                    return true;
                }
                k += 1;
            }
            b += 1;
        }
        a += 1;
    }
    false
}

/// `chains` with its first chain replaced by `first`.
fn with_first_chain(first: Vec<Reason>, chains: &Vec<Vec<Reason>>) -> (r: Vec<Vec<Reason>>)
    requires
        chains.len() > 0,
    ensures
        chains_view(r@) == chains_view(chains@).update(0, first@),
{
    let mut r: Vec<Vec<Reason>> = Vec::new();
    r.push(first);
    let mut k: usize = 1;
    while k < chains.len()
        invariant
            1 <= k <= chains.len(),
            r@.len() == k,
            r@[0]@ == first@,
            forall|j: int| 1 <= j < k ==> r@[j]@ == (#[trigger] chains@[j])@,
        decreases chains.len() - k,
    {
        r.push(copy_reasons(&chains[k]));
        k += 1;
    }
    assert(chains_view(r@) =~= chains_view(chains@).update(0, first@));
    r
}

/// `chains` with `first` put in front of them.
pub(crate) fn prepend_chain(first: Vec<Reason>, chains: &Vec<Vec<Reason>>) -> (r: Vec<Vec<Reason>>)
    ensures
        chains_view(r@) == seq![first@] + chains_view(chains@),
{
    let mut r: Vec<Vec<Reason>> = Vec::new();
    r.push(first);
    let mut k: usize = 0;
    while k < chains.len()
        invariant
            k <= chains.len(),
            r@.len() == k + 1,
            r@[0]@ == first@,
            forall|j: int| 0 <= j < k ==> r@[j + 1]@ == (#[trigger] chains@[j])@,
        decreases chains.len() - k,
    {
        r.push(copy_reasons(&chains[k]));
        k += 1;
    }
    assert(chains_view(r@) =~= seq![first@] + chains_view(chains@));
    r
}

/// The reason chains of a candidate derived with `reasons`.
pub(crate) fn child_chains_exec(chains: &Vec<Vec<Reason>>, reasons: &Vec<Reason>) -> (r: Vec<
    Vec<Reason>,
>)
    ensures
        chains_view(r@) == child_chains(chains_view(chains@), reasons@),
{
    if reasons.len() == 0 {
        copy_chains(chains)
    } else if chains.len() > 0 {
        if reasons[0] == Reason::Causative && chains[0].len() > 0 && chains[0][0]
            == Reason::PotentialOrPassive {
            let mut first = copy_reasons(&chains[0]);
            first.set(0, Reason::CausativePassive);
            with_first_chain(first, chains)
        } else if reasons[0] == Reason::MasuStem && chains[0].len() > 0 {
            copy_chains(chains)
        } else {
            let mut first = copy_reasons(reasons);
            let mut k: usize = 0;
            while k < chains[0].len()
                invariant
                    chains.len() > 0,
                    k <= chains@[0].len(),
                    first@ == reasons@ + chains@[0]@.take(k as int),
                decreases chains@[0].len() - k,
            {
                first.push(chains[0][k]);
                k += 1;
                proof {
                    assert(chains@[0]@.take(k as int) =~= chains@[0]@.take(k - 1).push(
                        chains@[0]@[k - 1],
                    ));
                }
            }
            assert(chains@[0]@.take(chains@[0].len() as int) =~= chains@[0]@);
            with_first_chain(first, chains)
        }
    } else {
        let mut r: Vec<Vec<Reason>> = Vec::new();
        r.push(copy_reasons(reasons));
        assert(chains_view(r@) =~= seq![reasons@]);
        r
    }
}

/// Appends the `る` completion of a stem candidate, as `stem_completion`.
pub(crate) fn complete_stem(cands: &mut Vec<Cand>, c: &Cand)
    ensures
        cands_view(final(cands)@) == stem_completion(cands_view(old(cands)@), cand_view(*c)),
{
    let stems = WordType::MasuStem.as_u32() | WordType::TaTeStem.as_u32()
        | WordType::IrrealisStem.as_u32();
    assert(1024u32 | 256u32 | 2048u32 == 3328u32) by (bit_vector);
    if c.wtype & stems != 0 {
        let mut chains = copy_chains(&c.chains);
        let ghost reason: Seq<Seq<Reason>> = if c.wtype & 1024 != 0 && c.chains.len() == 0 {
            seq![seq![Reason::MasuStem]]
        } else {
            seq![]
        };
        if c.wtype & WordType::MasuStem.as_u32() != 0 && c.chains.len() == 0 {
            let masu = vec![Reason::MasuStem];
            assert(masu@ =~= seq![Reason::MasuStem]);
            let ghost before = chains@;
            chains.push(masu);
            assert(reason == seq![seq![Reason::MasuStem]]);
            assert(chains@ == before.push(masu));
            assert(chains_view(chains@) =~= chains_view(c.chains@) + reason);
        } else {
            assert(chains_view(chains@) =~= chains_view(c.chains@) + reason);
        }
        let inapplicable = c.wtype & WordType::IrrealisStem.as_u32() != 0 && c.chains.len() > 0
            && c.chains[0].len() > 0 && (c.chains[0][0] == Reason::Passive || c.chains[0][0]
            == Reason::Causative || c.chains[0][0] == Reason::CausativePassive);
        if !inapplicable {
            let mut word = copy_chars(&c.word);
            word.push('る');
            let wtype = WordType::IchidanVerb.as_u32() | WordType::KuruVerb.as_u32();
            assert(1u32 | 8u32 == 9u32) by (bit_vector);
            let ghost old_cands = cands@;
            cands.push(Cand { word, chains, wtype, registered: false });
            assert(cands_view(cands@) =~= cands_view(old_cands).push(cand_view(cands@.last())));
        }
    }
}

/// The index of the last registered candidate with word `w`.
pub(crate) fn find_last_registered(cands: &Vec<Cand>, w: &Vec<char>) -> (r: Option<usize>)
    ensures
        match r {
            Some(e) => e == last_registered(cands_view(cands@), w@),
            None => last_registered(cands_view(cands@), w@) == -1,
        },
{
    let ghost st = cands_view(cands@);
    proof {
        lemma_last_registered_range(st, w@);
    }
    let mut j: usize = cands.len();
    while j > 0
        invariant
            st == cands_view(cands@),
            j <= cands.len(),
            forall|x: int| j <= x < cands.len() ==> !(#[trigger] st[x].registered && st[x].word == w@),
        decreases j,
    {
        j -= 1;
        if cands[j].registered && chars_equal(&cands[j].word, w) {
            proof {
                lemma_last_registered_range(st, w@);
                let l = last_registered(st, w@);
                assert(st[j as int].registered && st[j as int].word == w@);
                if l > j {
                    assert(st[l].registered && st[l].word == w@);
                }
            }
            return Some(j);
        }
        assert(!(st[j as int].registered && st[j as int].word == w@));
    }
    None
}

/// A rule never applies to a word shorter than its ending.
pub(crate) proof fn lemma_apply_rules_too_long(st: Seq<CandModel>, c: CandModel, rules: Seq<RuleModel>)
    requires
        forall|k: int| 0 <= k < rules.len() ==> (#[trigger] rules[k]).from.len() > c.word.len(),
    ensures
        apply_rules(st, c, rules) == st,
    decreases rules.len(),
{
    if rules.len() > 0 {
        lemma_apply_rules_too_long(st, c, rules.drop_last());
        assert(rules[rules.len() - 1].from.len() > c.word.len());
    }
}

/// Applies one rule to candidate `c`, as `apply_rule`. `ending` holds the
/// last characters of the word, as many as the rule's ending has, and
/// `folded` the same with katakana folded onto hiragana.
pub(crate) fn apply_rule_exec(
    cands: &mut Vec<Cand>,
    c: &Cand,
    rule: &DeinflectionRule,
    ending: &String,
    folded: &String,
    stem_len: usize,
)
    requires
        rule.from@.len() <= c.word@.len(),
        stem_len == c.word@.len() - rule.from@.len(),
        ending@ == c.word@.skip(stem_len as int),
        folded@ == ending@.map_values(|ch: char| kana_fold(ch)),
    ensures
        cands_view(final(cands)@) == apply_rule(cands_view(old(cands)@), cand_view(*c), rule_model(*rule)),
{
    let ghost cm = cand_view(*c);
    let ghost r = rule_model(*rule);
    let ghost st = cands_view(cands@);
    if c.wtype & rule.from_type == 0 {
        return;
    }
    if !(*ending == rule.from) && !(*folded == rule.from) {
        assert(!ending_matches(cm.word, r.from));
        return;
    }
    assert(ending_matches(cm.word, r.from));
    // the word with the ending replaced
    let mut new_word: Vec<char> = Vec::new();
    let mut k: usize = 0;
    while k < stem_len
        invariant
            stem_len <= c.word.len(),
            k <= stem_len,
            new_word@ == c.word@.take(k as int),
        decreases stem_len - k,
    {
        new_word.push(c.word[k]);
        k += 1;
        proof {
            assert(c.word@.take(k as int) =~= c.word@.take(k - 1).push(c.word@[k - 1]));
        }
    }
    let to = chars_of(rule.to.as_str());
    let mut k: usize = 0;
    while k < to.len()
        invariant
            k <= to.len(),
            new_word@ == c.word@.take(stem_len as int) + to@.take(k as int),
        decreases to.len() - k,
    {
        new_word.push(to[k]);
        k += 1;
        proof {
            assert(to@.take(k as int) =~= to@.take(k - 1).push(to@[k - 1]));
        }
    }
    assert(to@.take(to.len() as int) =~= to@);
    assert(new_word@ == rewrite(cm.word, r));
    if new_word.len() == 0 {
        return;
    }
    if has_common_reason_exec(&c.chains, &rule.reasons) {
        return;
    }
    let found = find_last_registered(cands, &new_word);
    proof {
        lemma_last_registered_range(st, new_word@);
    }
    match found {
        Some(e) => {
            if cands[e].wtype == rule.to_type {
                if rule.reasons.len() > 0 {
                    let chains = prepend_chain(copy_reasons(&rule.reasons), &cands[e].chains);
                    let updated = Cand {
                        word: copy_chars(&cands[e].word),
                        chains,
                        wtype: cands[e].wtype,
                        registered: cands[e].registered,
                    };
                    let ghost old_cands = cands@;
                    cands.set(e, updated);
                    proof {
                        assert(cands_view(cands@) =~= st.update(
                            e as int,
                            CandModel { chains: seq![r.reasons] + st[e as int].chains, ..st[e as int] },
                        ));
                    }
                }
                return;
            }
        },
        None => {},
    }
    let chains = child_chains_exec(&c.chains, &rule.reasons);
    let ghost old_cands = cands@;
    cands.push(Cand { word: new_word, chains, wtype: rule.to_type, registered: true });
    assert(cands_view(cands@) =~= st.push(cand_view(cands@.last())));
}

} // verus!
