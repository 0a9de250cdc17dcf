//! Why deinflection terminates: every candidate derived from a (non-input)
//! candidate has a smaller potential, so processing one candidate lowers
//! the total weight of the candidates still to be processed.
use vstd::prelude::*;

use crate::deinflect_model::{
    apply_groups, apply_rule, apply_rules, child_chains, initial_candidates, class_count, class_id, class_present,
    classes, completable_stems, ending_matches, groups_ok, has_common_reason, is_final_mask, is_ichidan_masu_stem_result, is_passive_class, is_single_bit,
    is_stem_bit, last_registered, potential, process, rewrite, rule_count, rule_ok,
    stem_completion, steps, weight, well_typed, wpow, CandModel, RuleModel,
};
use crate::deinflector::Reason;

verus! {

// ---------------------------------------------------------------------------
// Reason classes
// ---------------------------------------------------------------------------

proof fn lemma_class_id_range(r: Reason)
    ensures
        0 <= class_id(r) < 38,
{
}

proof fn lemma_class_id_injective(x: Reason, r: Reason)
    requires
        class_id(x) == class_id(r),
        !is_passive_class(r),
    ensures
        x == r,
{
}

proof fn lemma_class_count_le(chains: Seq<Seq<Reason>>, n: nat)
    ensures
        class_count(chains, n) <= n,
    decreases n,
{
    if n > 0 {
        lemma_class_count_le(chains, (n - 1) as nat);
    }
}

proof fn lemma_class_count_mono(c1: Seq<Seq<Reason>>, c2: Seq<Seq<Reason>>, n: nat)
    requires
        forall|k: int| 0 <= k < n && #[trigger] class_present(c1, k) ==> class_present(c2, k),
    ensures
        class_count(c1, n) <= class_count(c2, n),
    decreases n,
{
    if n > 0 {
        lemma_class_count_mono(c1, c2, (n - 1) as nat);
        assert(class_present(c1, n - 1) ==> class_present(c2, n - 1));
    }
}

proof fn lemma_class_count_strict(c1: Seq<Seq<Reason>>, c2: Seq<Seq<Reason>>, n: nat, k0: int)
    requires
        forall|k: int| 0 <= k < n && #[trigger] class_present(c1, k) ==> class_present(c2, k),
        0 <= k0 < n,
        class_present(c2, k0),
        !class_present(c1, k0),
    ensures
        class_count(c1, n) < class_count(c2, n),
    decreases n,
{
    if k0 == n - 1 {
        lemma_class_count_mono(c1, c2, (n - 1) as nat);
    } else {
        lemma_class_count_strict(c1, c2, (n - 1) as nat, k0);
        assert(class_present(c1, n - 1) ==> class_present(c2, n - 1));
    }
}

/// Prepending a chain keeps every class that was present.
proof fn lemma_classes_prepend_chain(chains: Seq<Seq<Reason>>, reasons: Seq<Reason>)
    ensures
        classes(chains) <= classes(seq![reasons] + chains),
{
    let c2 = seq![reasons] + chains;
    assert forall|k: int| 0 <= k < 38 && #[trigger] class_present(chains, k) implies class_present(
        c2,
        k,
    ) by {
        let (a, b) = choose|a: int, b: int|
            0 <= a < chains.len() && 0 <= b < chains[a].len() && class_id(#[trigger] chains[a][b])
                == k;
        assert(c2[a + 1][b] == chains[a][b]);
    }
    lemma_class_count_mono(chains, c2, 38);
}

/// Appending chains keeps every class that was present.
proof fn lemma_classes_append_chains(chains: Seq<Seq<Reason>>, more: Seq<Seq<Reason>>)
    ensures
        classes(chains) <= classes(chains + more),
{
    let c2 = chains + more;
    assert forall|k: int| 0 <= k < 38 && #[trigger] class_present(chains, k) implies class_present(
        c2,
        k,
    ) by {
        let (a, b) = choose|a: int, b: int|
            0 <= a < chains.len() && 0 <= b < chains[a].len() && class_id(#[trigger] chains[a][b])
                == k;
        assert(c2[a][b] == chains[a][b]);
    }
    lemma_class_count_mono(chains, c2, 38);
}

pub open spec fn is_merge(chains: Seq<Seq<Reason>>, reasons: Seq<Reason>) -> bool {
    reasons.len() > 0 && chains.len() > 0 && reasons[0] == Reason::Causative && chains[0].len() > 0
        && chains[0][0] == Reason::PotentialOrPassive
}

/// The classes of the derived chains: never fewer, and more when a reason
/// outside the passive class is added to the chains.
proof fn lemma_child_chains_classes(chains: Seq<Seq<Reason>>, reasons: Seq<Reason>)
    requires
        !has_common_reason(chains, reasons),
    ensures
        classes(chains) <= classes(child_chains(chains, reasons)),
        (reasons.len() > 0 && !is_merge(chains, reasons) && !(chains.len() > 0
            && reasons[0] == Reason::MasuStem && chains[0].len() > 0) && exists|k: int|
            0 <= k < reasons.len() && !is_passive_class(#[trigger] reasons[k])) ==> classes(chains)
            < classes(child_chains(chains, reasons)),
{
    let c2 = child_chains(chains, reasons);
    if reasons.len() == 0 {
    } else if chains.len() > 0 {
        if is_merge(chains, reasons) {
            assert forall|k: int| 0 <= k < 38 && #[trigger] class_present(chains, k) implies class_present(
                c2,
                k,
            ) by {
                let (a, b) = choose|a: int, b: int|
                    0 <= a < chains.len() && 0 <= b < chains[a].len() && class_id(
                        #[trigger] chains[a][b],
                    ) == k;
                if a == 0 && b == 0 {
                    assert(class_id(c2[0][0]) == class_id(chains[0][0]));
                } else {
                    assert(c2[a][b] == chains[a][b]);
                }
            }
            lemma_class_count_mono(chains, c2, 38);
        } else if reasons[0] == Reason::MasuStem && chains[0].len() > 0 {
        } else {
            assert forall|k: int| 0 <= k < 38 && #[trigger] class_present(chains, k) implies class_present(
                c2,
                k,
            ) by {
                let (a, b) = choose|a: int, b: int|
                    0 <= a < chains.len() && 0 <= b < chains[a].len() && class_id(
                        #[trigger] chains[a][b],
                    ) == k;
                if a == 0 {
                    assert(c2[0][reasons.len() + b] == chains[0][b]);
                } else {
                    assert(c2[a][b] == chains[a][b]);
                }
            }
            lemma_class_count_mono(chains, c2, 38);
            if exists|k: int| 0 <= k < reasons.len() && !is_passive_class(#[trigger] reasons[k]) {
                let k = choose|k: int| 0 <= k < reasons.len() && !is_passive_class(#[trigger] reasons[k]);
                let r = reasons[k];
                lemma_class_id_range(r);
                assert(c2[0][k] == r);
                assert(class_present(c2, class_id(r)));
                if class_present(chains, class_id(r)) {
                    let (a, b) = choose|a: int, b: int|
                        0 <= a < chains.len() && 0 <= b < chains[a].len() && class_id(
                            #[trigger] chains[a][b],
                        ) == class_id(r);
                    lemma_class_id_injective(chains[a][b], r);
                    assert(reasons.contains(chains[a][b]));
                    assert(false);
                }
                lemma_class_count_strict(chains, c2, 38, class_id(r));
            }
        }
    } else {
        let r = reasons[0];
        lemma_class_id_range(r);
        assert(c2[0][0] == r);
        assert(class_present(c2, class_id(r)));
        assert(!class_present(chains, class_id(r)));
        assert forall|k: int| 0 <= k < 38 && #[trigger] class_present(chains, k) implies class_present(
            c2,
            k,
        ) by {}
        lemma_class_count_strict(chains, c2, 38, class_id(r));
    }
}

// ---------------------------------------------------------------------------
// Word types
// ---------------------------------------------------------------------------

proof fn lemma_final_mask_rule_bits(t: u32, f: u32)
    requires
        is_final_mask(t),
        is_single_bit(f),
        t & f != 0,
    ensures
        f <= 64,
{
    assert((1 <= t && t <= 127 && (f == 128 || f == 256 || f == 512 || f == 1024 || f == 2048))
        ==> t & f == 0) by (bit_vector);
}

proof fn lemma_stem_rule_bits(t: u32, f: u32)
    requires
        is_stem_bit(t),
        is_single_bit(f),
        t & f != 0,
    ensures
        f == t,
{
    assert(((t == 256 || t == 512 || t == 1024 || t == 2048) && (f == 1 || f == 2 || f == 4 || f
        == 8 || f == 16 || f == 32 || f == 64 || f == 128 || f == 256 || f == 512 || f == 1024
        || f == 2048) && t & f != 0) ==> f == t) by (bit_vector);
}

proof fn lemma_final_mask_not_completable(t: u32)
    requires
        is_final_mask(t),
    ensures
        t & completable_stems() == 0,
{
    assert(1 <= t && t <= 127 ==> t & 3328 == 0) by (bit_vector);
}

// ---------------------------------------------------------------------------
// Potential
// ---------------------------------------------------------------------------

proof fn lemma_potential_value(c: CandModel)
    ensures
        potential(c) == 2 * c.word.len() - 2 * classes(c.chains) + (if is_stem_bit(c.wtype) {
            3int
        } else {
            0int
        }) + 76,
{
    lemma_class_count_le(c.chains, 38);
}

/// A rule result weighs less than the candidate it was derived from.
proof fn lemma_rule_child_potential(c: CandModel, r: RuleModel)
    requires
        rule_ok(r),
        is_final_mask(c.wtype) || is_stem_bit(c.wtype),
        c.wtype & r.from_type != 0,
        ending_matches(c.word, r.from),
        !has_common_reason(c.chains, r.reasons),
    ensures
        potential(
            CandModel {
                word: rewrite(c.word, r),
                chains: child_chains(c.chains, r.reasons),
                wtype: r.to_type,
                registered: true,
            },
        ) < potential(c),
{
    let child = CandModel {
        word: rewrite(c.word, r),
        chains: child_chains(c.chains, r.reasons),
        wtype: r.to_type,
        registered: true,
    };
    lemma_potential_value(c);
    lemma_potential_value(child);
    lemma_child_chains_classes(c.chains, r.reasons);
    assert(child.word.len() == c.word.len() - r.from.len() + r.to.len());
    if is_final_mask(c.wtype) {
        lemma_final_mask_rule_bits(c.wtype, r.from_type);
        if !is_merge(c.chains, r.reasons) && exists|k: int|
            0 <= k < r.reasons.len() && !is_passive_class(#[trigger] r.reasons[k]) {
        } else if !is_merge(c.chains, r.reasons) {
            assert(forall|k: int|
                0 <= k < r.reasons.len() ==> is_passive_class(#[trigger] r.reasons[k]));
        }
    } else {
        lemma_stem_rule_bits(c.wtype, r.from_type);
    }
}

// ---------------------------------------------------------------------------
// Weight
// ---------------------------------------------------------------------------

proof fn lemma_wpow_pos(b: nat, e: nat)
    requires
        b >= 1,
    ensures
        wpow(b, e) >= 1,
    decreases e,
{
    if e > 0 {
        lemma_wpow_pos(b, (e - 1) as nat);
        assert(b * wpow(b, (e - 1) as nat) >= 1) by (nonlinear_arith)
            requires
                b >= 1,
                wpow(b, (e - 1) as nat) >= 1,
        ;
    }
}

proof fn lemma_wpow_mono(b: nat, e1: nat, e2: nat)
    requires
        b >= 1,
        e1 <= e2,
    ensures
        wpow(b, e1) <= wpow(b, e2),
    decreases e2,
{
    if e1 < e2 {
        lemma_wpow_mono(b, e1, (e2 - 1) as nat);
        lemma_wpow_pos(b, (e2 - 1) as nat);
        assert(wpow(b, (e2 - 1) as nat) <= b * wpow(b, (e2 - 1) as nat)) by (nonlinear_arith)
            requires
                b >= 1,
        ;
    }
}

/// What one derived candidate may add to the weight: `b^(p - 1)` for a
/// parent of potential `p`.
pub open spec fn child_bound(c: CandModel, b: nat) -> nat {
    if potential(c) >= 1 {
        wpow(b, (potential(c) - 1) as nat)
    } else {
        0
    }
}

proof fn lemma_child_bound(c: CandModel, x: CandModel, b: nat)
    requires
        b >= 1,
        potential(x) < potential(c),
    ensures
        wpow(b, potential(x)) <= child_bound(c, b),
{
    lemma_wpow_mono(b, potential(x), (potential(c) - 1) as nat);
}

proof fn lemma_weight_push(st: Seq<CandModel>, x: CandModel, i: int, b: nat)
    requires
        0 <= i <= st.len(),
    ensures
        weight(st.push(x), i, b) == weight(st, i, b) + wpow(b, potential(x)),
    decreases st.len() - i,
{
    if i < st.len() {
        lemma_weight_push(st, x, i + 1, b);
        assert(st.push(x)[i] == st[i]);
    } else {
        assert(st.push(x)[i] == x);
        assert(weight(st.push(x), i + 1, b) == 0);
    }
}

proof fn lemma_weight_update(st: Seq<CandModel>, e: int, x: CandModel, i: int, b: nat)
    requires
        b >= 1,
        0 <= e < st.len(),
        0 <= i,
        potential(x) <= potential(st[e]),
    ensures
        weight(st.update(e, x), i, b) <= weight(st, i, b),
    decreases st.len() - i,
{
    if i < st.len() {
        lemma_weight_update(st, e, x, i + 1, b);
        if i == e {
            lemma_wpow_mono(b, potential(x), potential(st[e]));
        } else {
            assert(st.update(e, x)[i] == st[i]);
        }
    }
}

// ---------------------------------------------------------------------------
// Processing a candidate
// ---------------------------------------------------------------------------

proof fn lemma_apply_rule_shape(st: Seq<CandModel>, c: CandModel, r: RuleModel)
    requires
        well_typed(st),
        rule_ok(r),
    ensures
        well_typed(apply_rule(st, c, r)),
        st.len() <= apply_rule(st, c, r).len() <= st.len() + 1,
        apply_rule(st, c, r)[0] == st[0],
{
    let st2 = apply_rule(st, c, r);
    if c.wtype & r.from_type == 0 || !ending_matches(c.word, r.from) {
    } else if rewrite(c.word, r).len() == 0 || has_common_reason(c.chains, r.reasons) {
    } else {
        let nw = rewrite(c.word, r);
        let e = last_registered(st, nw);
        lemma_last_registered_range(st, nw);
        if e >= 0 && st[e].wtype == r.to_type {
            assert(e != 0);
            if r.reasons.len() > 0 {
                assert forall|j: int| 1 <= j < st2.len() implies is_final_mask(
                    #[trigger] st2[j].wtype,
                ) || is_stem_bit(st2[j].wtype) by {
                    assert(st2[j].wtype == st[j].wtype);
                }
                assert(st2[0].wtype == st[0].wtype);
            }
        } else {
            assert forall|j: int| 1 <= j < st2.len() implies is_final_mask(#[trigger] st2[j].wtype)
                || is_stem_bit(st2[j].wtype) by {
                if j < st.len() {
                    assert(st2[j] == st[j]);
                }
            }
            assert(st2[0] == st[0]);
        }
    }
}

proof fn lemma_apply_rule_weight(st: Seq<CandModel>, c: CandModel, r: RuleModel, i: int, b: nat)
    requires
        b >= 1,
        well_typed(st),
        rule_ok(r),
        is_final_mask(c.wtype) || is_stem_bit(c.wtype),
        0 <= i,
    ensures
        weight(apply_rule(st, c, r), i, b) <= weight(st, i, b) + (apply_rule(st, c, r).len() - st.len())
            * child_bound(c, b),
{
    let st2 = apply_rule(st, c, r);
    if c.wtype & r.from_type == 0 || !ending_matches(c.word, r.from) {
        assert(st2 == st);
        lemma_zero_growth(st2.len() - st.len(), child_bound(c, b));
    } else if rewrite(c.word, r).len() == 0 || has_common_reason(c.chains, r.reasons) {
        assert(st2 == st);
        lemma_zero_growth(st2.len() - st.len(), child_bound(c, b));
    } else {
        let nw = rewrite(c.word, r);
        let e = last_registered(st, nw);
        lemma_last_registered_range(st, nw);
        if e >= 0 && st[e].wtype == r.to_type {
            assert(st2.len() == st.len());
            lemma_zero_growth(st2.len() - st.len(), child_bound(c, b));
            if r.reasons.len() > 0 {
                let x = CandModel { chains: seq![r.reasons] + st[e].chains, ..st[e] };
                lemma_classes_prepend_chain(st[e].chains, r.reasons);
                lemma_potential_value(x);
                lemma_potential_value(st[e]);
                lemma_weight_update(st, e, x, i, b);
            }
        } else {
            let child = CandModel {
                word: nw,
                chains: child_chains(c.chains, r.reasons),
                wtype: r.to_type,
                registered: true,
            };
            lemma_rule_child_potential(c, r);
            lemma_child_bound(c, child, b);
            assert(st2 == st.push(child));
            if i <= st.len() {
                lemma_weight_push(st, child, i, b);
            } else {
                assert(weight(st2, i, b) == 0);
            }
            assert(weight(st2, i, b) <= weight(st, i, b) + child_bound(c, b));
            lemma_unit_growth(st2.len() - st.len(), child_bound(c, b));
        }
    }
}

proof fn lemma_zero_growth(n: int, x: nat)
    requires
        n == 0,
    ensures
        n * x == 0,
{
}

proof fn lemma_unit_growth(n: int, x: nat)
    requires
        n == 1,
    ensures
        n * x == x,
{
}

pub proof fn lemma_last_registered_range(st: Seq<CandModel>, w: Seq<char>)
    ensures
        -1 <= last_registered(st, w) < st.len(),
        last_registered(st, w) >= 0 ==> st[last_registered(st, w)].registered
            && st[last_registered(st, w)].word == w,
        last_registered(st, w) == -1 ==> forall|j: int|
            0 <= j < st.len() ==> !(#[trigger] st[j].registered && st[j].word == w),
        last_registered(st, w) >= 0 ==> forall|j: int|
            last_registered(st, w) < j < st.len() ==> !(#[trigger] st[j].registered && st[j].word
                == w),
    decreases st.len(),
{
    if st.len() > 0 {
        lemma_last_registered_range(st.drop_last(), w);
        assert forall|j: int| 0 <= j < st.len() - 1 implies #[trigger] st[j] == st.drop_last()[j] by {}
    }
}

proof fn lemma_apply_rules(st: Seq<CandModel>, c: CandModel, rules: Seq<RuleModel>, i: int, b: nat)
    requires
        b >= 1,
        well_typed(st),
        forall|k: int| 0 <= k < rules.len() ==> rule_ok(#[trigger] rules[k]),
        0 <= i,
    ensures
        well_typed(apply_rules(st, c, rules)),
        st.len() <= apply_rules(st, c, rules).len() <= st.len() + rules.len(),
        apply_rules(st, c, rules)[0] == st[0],
        (is_final_mask(c.wtype) || is_stem_bit(c.wtype)) ==> weight(apply_rules(st, c, rules), i, b)
            <= weight(st, i, b) + (apply_rules(st, c, rules).len() - st.len()) * child_bound(c, b),
    decreases rules.len(),
{
    if rules.len() > 0 {
        let prev = apply_rules(st, c, rules.drop_last());
        assert forall|k: int| 0 <= k < rules.drop_last().len() implies rule_ok(
            #[trigger] rules.drop_last()[k],
        ) by {
            assert(rules.drop_last()[k] == rules[k]);
        }
        lemma_apply_rules(st, c, rules.drop_last(), i, b);
        assert(rule_ok(rules[rules.len() - 1]));
        lemma_apply_rule_shape(prev, c, rules.last());
        if is_final_mask(c.wtype) || is_stem_bit(c.wtype) {
            lemma_apply_rule_weight(prev, c, rules.last(), i, b);
            let next = apply_rule(prev, c, rules.last());
            assert((next.len() - st.len()) * child_bound(c, b) == (prev.len() - st.len()) * child_bound(
                c,
                b,
            ) + (next.len() - prev.len()) * child_bound(c, b)) by (nonlinear_arith);
        }
    }
}

proof fn lemma_apply_groups(
    st: Seq<CandModel>,
    c: CandModel,
    groups: Seq<Seq<RuleModel>>,
    i: int,
    b: nat,
)
    requires
        b >= 1,
        well_typed(st),
        groups_ok(groups),
        0 <= i,
    ensures
        well_typed(apply_groups(st, c, groups)),
        st.len() <= apply_groups(st, c, groups).len() <= st.len() + rule_count(groups),
        apply_groups(st, c, groups)[0] == st[0],
        (is_final_mask(c.wtype) || is_stem_bit(c.wtype)) ==> weight(apply_groups(st, c, groups), i, b)
            <= weight(st, i, b) + (apply_groups(st, c, groups).len() - st.len()) * child_bound(c, b),
    decreases groups.len(),
{
    if groups.len() > 0 {
        let prev = apply_groups(st, c, groups.drop_last());
        assert forall|g: int, k: int|
            0 <= g < groups.drop_last().len() && 0 <= k < groups.drop_last()[g].len() implies rule_ok(
            #[trigger] groups.drop_last()[g][k],
        ) by {
            assert(groups.drop_last()[g] == groups[g]);
        }
        lemma_apply_groups(st, c, groups.drop_last(), i, b);
        let last = groups.last();
        assert forall|k: int| 0 <= k < last.len() implies rule_ok(#[trigger] last[k]) by {
            assert(rule_ok(groups[groups.len() - 1][k]));
        }
        lemma_apply_rules(prev, c, last, i, b);
        if is_final_mask(c.wtype) || is_stem_bit(c.wtype) {
            let next = apply_rules(prev, c, last);
            assert((next.len() - st.len()) * child_bound(c, b) == (prev.len() - st.len()) * child_bound(
                c,
                b,
            ) + (next.len() - prev.len()) * child_bound(c, b)) by (nonlinear_arith);
        }
    }
}

/// Processing a candidate keeps the list well typed and never shrinks it;
/// processing a candidate after the input lowers the weight of what is
/// left to process.
pub proof fn lemma_process(groups: Seq<Seq<RuleModel>>, st: Seq<CandModel>, i: int, b: nat)
    requires
        well_typed(st),
        groups_ok(groups),
        b == rule_count(groups) + 2,
        0 <= i,
    ensures
        well_typed(process(groups, st, i)),
        st.len() <= process(groups, st, i).len(),
        process(groups, st, i)[0] == st[0],
        1 <= i < st.len() ==> weight(process(groups, st, i), i + 1, b) < weight(st, i, b),
{
    let p = process(groups, st, i);
    if 0 <= i < st.len() && !is_ichidan_masu_stem_result(st[i]) {
        let c = st[i];
        let st1 = stem_completion(st, c);
        // the stem completion
        if c.wtype & completable_stems() != 0 && st1.len() == st.len() + 1 {
            assert forall|j: int| 1 <= j < st1.len() implies is_final_mask(#[trigger] st1[j].wtype)
                || is_stem_bit(st1[j].wtype) by {
                if j < st.len() {
                    assert(st1[j] == st[j]);
                }
            }
        }
        assert(well_typed(st1));
        assert(st1[0] == st[0]);
        lemma_apply_groups(st1, c, groups, i + 1, b);
        if 1 <= i {
            let x = st1.last();
            if st1.len() == st.len() + 1 {
                if is_final_mask(c.wtype) {
                    lemma_final_mask_not_completable(c.wtype);
                }
                lemma_classes_append_chains(c.chains, x.chains.skip(c.chains.len() as int));
                assert(x.chains == c.chains + x.chains.skip(c.chains.len() as int));
                lemma_potential_value(c);
                lemma_potential_value(x);
                lemma_child_bound(c, x, b);
                lemma_weight_push(st, x, i + 1, b);
                assert(st1 == st.push(x));
                lemma_unit_growth(st1.len() - st.len(), child_bound(c, b));
            } else {
                assert(st1 == st);
                lemma_zero_growth(st1.len() - st.len(), child_bound(c, b));
            }
            assert(weight(st1, i + 1, b) <= weight(st, i + 1, b) + (st1.len() - st.len()) * child_bound(c, b));
            assert(p.len() - st.len() <= b - 1);
            assert((p.len() - st1.len()) * child_bound(c, b) + (st1.len() - st.len()) * child_bound(c, b)
                == (p.len() - st.len()) * child_bound(c, b)) by (nonlinear_arith);
            assert((p.len() - st.len()) * child_bound(c, b) <= (b - 1) * child_bound(c, b)) by (nonlinear_arith)
                requires
                    p.len() - st.len() <= b - 1,
                    p.len() - st.len() >= 0,
            ;
            if potential(c) >= 1 {
                assert(wpow(b, potential(c)) == b * wpow(b, (potential(c) - 1) as nat));
                lemma_wpow_pos(b, (potential(c) - 1) as nat);
                assert((b - 1) * child_bound(c, b) < b * child_bound(c, b)) by (nonlinear_arith)
                    requires
                        child_bound(c, b) >= 1,
                        b >= 1,
                ;
                lemma_wpow_pos(b, (potential(c) - 1) as nat);
            }
            lemma_wpow_pos(b, potential(c));
        }
    } else if 1 <= i < st.len() {
        lemma_wpow_pos(b, potential(st[i]));
    }
}


// ---------------------------------------------------------------------------
// The sequence of steps
// ---------------------------------------------------------------------------

/// Every step keeps the candidate list well typed.
pub proof fn lemma_steps_well_typed(groups: Seq<Seq<RuleModel>>, word: Seq<char>, k: nat)
    requires
        groups_ok(groups),
    ensures
        well_typed(steps(groups, word, k)),
    decreases k,
{
    if k > 0 {
        lemma_steps_well_typed(groups, word, (k - 1) as nat);
        lemma_process(groups, steps(groups, word, (k - 1) as nat), k - 1, rule_count(groups) + 2);
    }
}

/// The input word stays first, with no reasons and its initial type.
pub proof fn lemma_steps_first(groups: Seq<Seq<RuleModel>>, word: Seq<char>, k: nat)
    requires
        groups_ok(groups),
    ensures
        steps(groups, word, k)[0] == initial_candidates(word)[0],
    decreases k,
{
    if k > 0 {
        lemma_steps_first(groups, word, (k - 1) as nat);
        lemma_steps_well_typed(groups, word, (k - 1) as nat);
        lemma_process(groups, steps(groups, word, (k - 1) as nat), k - 1, rule_count(groups) + 2);
    }
}

/// Once every candidate has been processed, further steps change nothing.
pub proof fn lemma_steps_stable(groups: Seq<Seq<RuleModel>>, word: Seq<char>, m: nat, k: nat)
    requires
        steps(groups, word, m).len() == m,
        m <= k,
    ensures
        steps(groups, word, k) == steps(groups, word, m),
    decreases k,
{
    if k > m {
        lemma_steps_stable(groups, word, m, (k - 1) as nat);
    }
}

/// There is only one step count at which every candidate has been processed.
pub proof fn lemma_steps_end_unique(groups: Seq<Seq<RuleModel>>, word: Seq<char>, n1: nat, n2: nat)
    requires
        steps(groups, word, n1).len() == n1,
        steps(groups, word, n2).len() == n2,
    ensures
        n1 == n2,
{
    if n1 < n2 {
        lemma_steps_stable(groups, word, n1, n2);
    } else if n2 < n1 {
        lemma_steps_stable(groups, word, n2, n1);
    }
}

proof fn lemma_steps_reach_end(groups: Seq<Seq<RuleModel>>, word: Seq<char>, i: nat)
    requires
        groups_ok(groups),
        i <= steps(groups, word, i).len(),
    ensures
        exists|n: nat| steps(groups, word, n).len() == n,
    decreases (if i == 0 {
        1int
    } else {
        0int
    }), weight(steps(groups, word, i), i as int, rule_count(groups) + 2),
{
    let st = steps(groups, word, i);
    if i == st.len() {
    } else {
        lemma_steps_well_typed(groups, word, i);
        lemma_process(groups, st, i as int, rule_count(groups) + 2);
        lemma_steps_reach_end(groups, word, i + 1);
    }
}

/// Deinflection ends: for every word, the candidate list reaches a point
/// where every candidate has been processed.
pub proof fn lemma_deinflection_ends(groups: Seq<Seq<RuleModel>>, word: Seq<char>)
    requires
        groups_ok(groups),
    ensures
        exists|n: nat| steps(groups, word, n).len() == n,
{
    lemma_steps_reach_end(groups, word, 0);
}

} // verus!
