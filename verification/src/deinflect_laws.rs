//! What holds of every deinflection: it ends, the input word comes back
//! first, and every returned candidate has a dictionary-form word type.
use vstd::prelude::*;

use crate::deinflect_model::{
    apply_groups, apply_rule, apply_rules, process, stem_completion, deinflect_model, final_types, group_by_length, groups_down_from, groups_ok, has_final_type,
    initial_candidates, initial_type, length_ordered, max_from_len, rules_of_len, steps, CandModel,
    RuleModel,
};
use crate::deinflect_termination::{lemma_deinflection_ends, lemma_steps_first, lemma_steps_well_typed};

verus! {

/// The input word comes back first, with no reason chains and its initial
/// word type.
pub proof fn lemma_input_first(groups: Seq<Seq<RuleModel>>, word: Seq<char>)
    requires
        groups_ok(groups),
    ensures
        deinflect_model(groups, word).len() >= 1,
        deinflect_model(groups, word)[0] == initial_candidates(word)[0],
        deinflect_model(groups, word)[0].word == word,
        deinflect_model(groups, word)[0].chains.len() == 0,
        deinflect_model(groups, word)[0].wtype == initial_type(),
{
    lemma_deinflection_ends(groups, word);
    let n = choose|n: nat| steps(groups, word, n).len() == n;
    let st = steps(groups, word, n);
    lemma_steps_first(groups, word, n);
    lemma_steps_well_typed(groups, word, n);
    let pred = |c: CandModel| has_final_type(c);
    assert(62719u32 & 127u32 != 0) by (bit_vector);
    assert(pred(st[0]));
    assert(st =~= seq![st[0]] + st.skip(1));
    st.skip(1).lemma_filter_prepend(st[0], pred);
}

/// Every returned candidate has a dictionary-form (final) word type.
pub proof fn lemma_results_final(groups: Seq<Seq<RuleModel>>, word: Seq<char>, j: int)
    requires
        0 <= j < deinflect_model(groups, word).len(),
    ensures
        deinflect_model(groups, word)[j].wtype & final_types() != 0,
{
    let n = choose|n: nat| steps(groups, word, n).len() == n;
    let pred = |c: CandModel| has_final_type(c);
    steps(groups, word, n).lemma_filter_pred(pred, j);
    assert(pred(steps(groups, word, n).filter(pred)[j]));
}

/// No ending in a table is longer than its longest.
proof fn lemma_max_from_len_bound(t: Seq<RuleModel>)
    ensures
        forall|i: int| 0 <= i < t.len() ==> (#[trigger] t[i]).from.len() <= max_from_len(t),
    decreases t.len(),
{
    if t.len() > 0 {
        lemma_max_from_len_bound(t.drop_last());
        assert forall|i: int| 0 <= i < t.len() implies (#[trigger] t[i]).from.len() <= max_from_len(
            t,
        ) by {
            if i < t.len() - 1 {
                assert(t.drop_last()[i] == t[i]);
            }
        }
    }
}

/// Grouping the rules with endings of at most `n` characters by length:
/// the groups are ordered by ending length, their lengths are at most `n`,
/// and every rule whose ending has 1 to `n` characters lies in the group of
/// its length.
proof fn lemma_groups_down_from(t: Seq<RuleModel>, n: nat)
    ensures
        length_ordered(groups_down_from(t, n)),
        forall|g: int|
            0 <= g < groups_down_from(t, n).len() ==> 1 <= (#[trigger] groups_down_from(t, n)[g])[0].from.len()
                <= n,
        forall|i: int|
            0 <= i < t.len() && 1 <= (#[trigger] t[i]).from.len() <= n ==> exists|g: int|
                0 <= g < groups_down_from(t, n).len() && (#[trigger] groups_down_from(t, n)[g])[0].from.len()
                    == t[i].from.len(),
    decreases n,
{
    if n > 0 {
        let m = (n - 1) as nat;
        lemma_groups_down_from(t, m);
        let g0 = rules_of_len(t, n);
        let rest = groups_down_from(t, m);
        let pred = |r: RuleModel| r.from.len() == n;
        t.filter_lemma(pred);
        let gs = groups_down_from(t, n);
        if g0.len() > 0 {
            assert(gs == seq![g0] + rest);
            assert forall|g: int| 0 <= g < gs.len() implies 1 <= (#[trigger] gs[g])[0].from.len()
                <= n by {
                if g > 0 {
                    assert(gs[g] == rest[g - 1]);
                } else {
                    assert(pred(g0[0]));
                }
            }
            assert forall|g: int, k: int|
                0 <= g < gs.len() && 0 <= k < gs[g].len() implies (#[trigger] gs[g][k]).from.len()
                == gs[g][0].from.len() by {
                if g > 0 {
                    assert(gs[g] == rest[g - 1]);
                } else {
                    assert(pred(g0[k]));
                    assert(pred(g0[0]));
                }
            }
            assert forall|a: int, b: int| 0 <= a < b < gs.len() implies (#[trigger] gs[a][0]).from.len()
                > (#[trigger] gs[b][0]).from.len() by {
                assert(gs[b] == rest[b - 1]);
                if a > 0 {
                    assert(gs[a] == rest[a - 1]);
                } else {
                    assert(pred(g0[0]));
                }
            }
            assert forall|i: int| 0 <= i < t.len() && 1 <= (#[trigger] t[i]).from.len() <= n implies exists|g: int|
                0 <= g < gs.len() && (#[trigger] gs[g])[0].from.len() == t[i].from.len() by {
                if t[i].from.len() == n {
                    assert(pred(g0[0]));
                    assert(gs[0] == g0);
                } else {
                    let g = choose|g: int|
                        0 <= g < rest.len() && (#[trigger] rest[g])[0].from.len() == t[i].from.len();
                    assert(gs[g + 1] == rest[g]);
                }
            }
        } else {
            assert(gs == rest);
            assert forall|i: int| 0 <= i < t.len() && 1 <= (#[trigger] t[i]).from.len() <= n implies exists|g: int|
                0 <= g < gs.len() && (#[trigger] gs[g])[0].from.len() == t[i].from.len() by {
                if t[i].from.len() == n {
                    assert(t.filter(pred).contains(t[i]));
                    assert(false);
                }
            }
        }
    }
}

/// Rule groups made by ending length are ordered by it, longest first;
/// a table with a rule whose ending is not empty makes at least one group.
pub proof fn lemma_groups_by_length(t: Seq<RuleModel>)
    ensures
        length_ordered(group_by_length(t)),
        (exists|i: int| 0 <= i < t.len() && t[i].from.len() >= 1) ==> group_by_length(t).len() > 0,
{
    lemma_groups_down_from(t, max_from_len(t));
    lemma_max_from_len_bound(t);
    if exists|i: int| 0 <= i < t.len() && t[i].from.len() >= 1 {
        let i = choose|i: int| 0 <= i < t.len() && t[i].from.len() >= 1;
        assert(t[i].from.len() <= max_from_len(t));
    }
}

/// Whether every candidate has a non-empty word.
pub open spec fn words_nonempty(st: Seq<CandModel>) -> bool {
    forall|i: int| 0 <= i < st.len() ==> (#[trigger] st[i]).word.len() > 0
}

proof fn lemma_rule_keeps_nonempty(st: Seq<CandModel>, c: CandModel, r: RuleModel)
    requires
        words_nonempty(st),
    ensures
        words_nonempty(apply_rule(st, c, r)),
{
    let out = apply_rule(st, c, r);
    if c.wtype & r.from_type == 0 || !crate::deinflect_model::ending_matches(c.word, r.from) {
    } else if crate::deinflect_model::rewrite(c.word, r).len() == 0
        || crate::deinflect_model::has_common_reason(c.chains, r.reasons) {
    } else {
        let nw = crate::deinflect_model::rewrite(c.word, r);
        let e = crate::deinflect_model::last_registered(st, nw);
        crate::deinflect_termination::lemma_last_registered_range(st, nw);
        if e >= 0 && st[e].wtype == r.to_type {
            assert forall|i: int| 0 <= i < out.len() implies (#[trigger] out[i]).word.len() > 0 by {
                assert(out.len() == st.len());
                assert(out[i].word == st[i].word);
            }
        } else {
            assert forall|i: int| 0 <= i < out.len() implies (#[trigger] out[i]).word.len() > 0 by {
                if i < st.len() {
                    assert(out[i] == st[i]);
                } else {
                    assert(out[i].word == nw);
                }
            }
        }
    }
}

proof fn lemma_rules_keep_nonempty(st: Seq<CandModel>, c: CandModel, rules: Seq<RuleModel>)
    requires
        words_nonempty(st),
    ensures
        words_nonempty(apply_rules(st, c, rules)),
    decreases rules.len(),
{
    if rules.len() > 0 {
        lemma_rules_keep_nonempty(st, c, rules.drop_last());
        lemma_rule_keeps_nonempty(apply_rules(st, c, rules.drop_last()), c, rules.last());
    }
}

proof fn lemma_groups_keep_nonempty(st: Seq<CandModel>, c: CandModel, groups: Seq<Seq<RuleModel>>)
    requires
        words_nonempty(st),
    ensures
        words_nonempty(apply_groups(st, c, groups)),
    decreases groups.len(),
{
    if groups.len() > 0 {
        lemma_groups_keep_nonempty(st, c, groups.drop_last());
        lemma_rules_keep_nonempty(apply_groups(st, c, groups.drop_last()), c, groups.last());
    }
}

proof fn lemma_steps_keep_nonempty(groups: Seq<Seq<RuleModel>>, word: Seq<char>, k: nat)
    requires
        word.len() > 0,
    ensures
        words_nonempty(steps(groups, word, k)),
    decreases k,
{
    if k > 0 {
        let st = steps(groups, word, (k - 1) as nat);
        lemma_steps_keep_nonempty(groups, word, (k - 1) as nat);
        let i = k - 1;
        if 0 <= i < st.len() && !crate::deinflect_model::is_ichidan_masu_stem_result(st[i]) {
            let sc = stem_completion(st, st[i]);
            assert(words_nonempty(sc)) by {
                assert forall|j: int| 0 <= j < sc.len() implies (#[trigger] sc[j]).word.len() > 0 by {
                    if j < st.len() {
                        assert(sc[j] == st[j]);
                    }
                }
            }
            lemma_groups_keep_nonempty(sc, st[i], groups);
        }
    }
}

/// A non-empty word deinflects only to non-empty words: no rule rewrites a
/// word to nothing.
pub proof fn lemma_results_nonempty(groups: Seq<Seq<RuleModel>>, word: Seq<char>)
    requires
        word.len() > 0,
    ensures
        words_nonempty(deinflect_model(groups, word)),
{
    let n = choose|n: nat| steps(groups, word, n).len() == n;
    let st = steps(groups, word, n);
    lemma_steps_keep_nonempty(groups, word, n);
    let pred = |c: CandModel| has_final_type(c);
    let out = st.filter(pred);
    assert forall|j: int| 0 <= j < out.len() implies (#[trigger] out[j]).word.len() > 0 by {
        assert(out.contains(out[j]));
        st.lemma_filter_contains_rev(pred, out[j]);
    }
}

} // verus!
