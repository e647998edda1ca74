//! The matcher's laws: what holds of matching for whole classes of rule sets
//! and signatures, proved once here rather than observed case by case.

use vstd::prelude::*;
use crate::matcher::{
    MatchError, first_error_from, match_spec_error, bshift, binds_pattern, plan_exprs,
    pattern_pos_from, lemma_pattern_pos_from,
};
use crate::rules::{RuleV, lookup_rule, rule_names_unique, lemma_lookup_in};
use crate::sig::ParamV;

verus! {

/// Every parameter from `i` on passes the shape check, and every matchable
/// one among them is mapped.
pub open spec fn all_ok_from(params: Seq<ParamV>, rules: Seq<RuleV>, b: int, i: int) -> bool {
    forall|k: int|
        i <= k < params.len() ==> (#[trigger] params[k]).simple && (k >= b ==> lookup_rule(
            rules,
            params[k].name,
        ) is Some)
}

/// How many matchable parameters from `i` on bind a Pattern rule.
pub open spec fn pat_count_from(params: Seq<ParamV>, rules: Seq<RuleV>, b: int, i: int) -> nat
    decreases params.len() - i,
{
    if i < 0 || i >= params.len() {
        0
    } else {
        (if i >= b && binds_pattern(params, rules, i) {
            1nat
        } else {
            0nat
        }) + pat_count_from(params, rules, b, i + 1)
    }
}

/// The scan succeeds exactly when every parameter passes its checks and the
/// number of Pattern bindings still owed is exactly met.
pub proof fn lemma_scan_success_iff(
    params: Seq<ParamV>,
    rules: Seq<RuleV>,
    b: int,
    i: int,
    seen: bool,
)
    requires
        0 <= i,
    ensures
        (first_error_from(params, rules, b, i, seen) is None) <==> (all_ok_from(params, rules, b, i)
            && pat_count_from(params, rules, b, i) == (if seen {
            0nat
        } else {
            1nat
        })),
    decreases params.len() - i,
{
    if i >= params.len() {
    } else if !params[i].simple {
        assert(!all_ok_from(params, rules, b, i));
    } else if i < b {
        lemma_scan_success_iff(params, rules, b, i + 1, seen);
        assert(all_ok_from(params, rules, b, i) == all_ok_from(params, rules, b, i + 1));
    } else {
        match lookup_rule(rules, params[i].name) {
            Option::None => {
                assert(!all_ok_from(params, rules, b, i));
            },
            Option::Some(r) => {
                if r.is_pattern && seen {
                    assert(pat_count_from(params, rules, b, i) >= 1);
                } else {
                    lemma_scan_success_iff(params, rules, b, i + 1, seen || r.is_pattern);
                    assert(all_ok_from(params, rules, b, i) == all_ok_from(
                        params,
                        rules,
                        b,
                        i + 1,
                    ));
                }
            },
        }
    }
}

/// A scan over parameters none of which binds a Pattern, all simple and
/// mapped, ends owing the Pattern: at the call site.
pub proof fn lemma_scan_no_pattern_value(params: Seq<ParamV>, rules: Seq<RuleV>, b: int, i: int)
    requires
        0 <= i,
        all_ok_from(params, rules, b, i),
        forall|j: int| i <= j < params.len() && j >= b ==> !binds_pattern(params, rules, j),
    ensures
        first_error_from(params, rules, b, i, false) == Option::Some(MatchError::NoPattern),
    decreases params.len() - i,
{
    if i < params.len() {
        assert(params[i].simple && (i >= b ==> lookup_rule(rules, params[i].name) is Some));
        if i >= b {
            assert(!binds_pattern(params, rules, i));
        }
        lemma_scan_no_pattern_value(params, rules, b, i + 1);
    }
}

/// In a set whose names are unique, a rule's name looks its own rule up.
pub proof fn lemma_lookup_unique(rules: Seq<RuleV>, p: int)
    requires
        rule_names_unique(rules),
        0 <= p < rules.len(),
    ensures
        lookup_rule(rules, rules[p].name) == Option::Some(rules[p]),
    decreases rules.len(),
{
    if p > 0 {
        assert(rules[0].name != rules[p].name);
        assert forall|i: int, j: int|
            0 <= i < j < rules.skip(1).len() implies rules.skip(1)[i].name != rules.skip(
            1,
        )[j].name by {
            assert(rules.skip(1)[i] == rules[i + 1]);
            assert(rules.skip(1)[j] == rules[j + 1]);
        }
        assert(rules.skip(1)[p - 1] == rules[p]);
        lemma_lookup_unique(rules.skip(1), p - 1);
    }
}

/// Exactly one matchable parameter from `i` on binds a Pattern: the count
/// is one.
pub proof fn lemma_pat_count_single(
    params: Seq<ParamV>,
    rules: Seq<RuleV>,
    b: int,
    i: int,
    k: int,
)
    requires
        0 <= i <= k < params.len(),
        b <= k,
        binds_pattern(params, rules, k),
        forall|j: int| i <= j < params.len() && j != k && j >= b ==> !binds_pattern(params, rules, j),
    ensures
        pat_count_from(params, rules, b, i) == 1nat,
    decreases params.len() - i,
{
    if i < k {
        lemma_pat_count_single(params, rules, b, i + 1, k);
    } else {
        lemma_pat_count_zero(params, rules, b, i + 1);
    }
}

/// No matchable parameter from `i` on binds a Pattern: the count is zero.
pub proof fn lemma_pat_count_zero(params: Seq<ParamV>, rules: Seq<RuleV>, b: int, i: int)
    requires
        forall|j: int| i <= j < params.len() && j >= b ==> !binds_pattern(params, rules, j),
    ensures
        pat_count_from(params, rules, b, i) == 0nat,
    decreases params.len() - i,
{
    if 0 <= i && i < params.len() {
        lemma_pat_count_zero(params, rules, b, i + 1);
    }
}

/// A rule set with exactly one Pattern rule, matched against a signature of
/// simple bindings with distinct matchable names, each mapped and one of
/// them named by the Pattern rule, matches: and the plan's pattern position
/// is that parameter's plan position, the number of plan entries the
/// matchable parameter count.
pub proof fn law_single_pattern_matches(
    params: Seq<ParamV>,
    rules: Seq<RuleV>,
    bench: bool,
    p: int,
    k: int,
)
    requires
        rule_names_unique(rules),
        0 <= p < rules.len(),
        rules[p].is_pattern,
        forall|q: int| 0 <= q < rules.len() && q != p ==> !(#[trigger] rules[q]).is_pattern,
        forall|k2: int| 0 <= k2 < params.len() ==> (#[trigger] params[k2]).simple,
        forall|k2: int|
            bshift(bench) <= k2 < params.len() ==> lookup_rule(
                rules,
                (#[trigger] params[k2]).name,
            ) is Some,
        forall|k1: int, k2: int|
            bshift(bench) <= k1 < k2 < params.len() ==> params[k1].name != params[k2].name,
        bshift(bench) <= k < params.len(),
        params[k].name == rules[p].name,
    ensures
        match_spec_error(params, rules, bench) is None,
        pattern_pos_from(params, rules, bshift(bench), bshift(bench)) == k - bshift(bench),
        plan_exprs(params, rules, bshift(bench)).len() == params.len() - bshift(bench),
{
    let b = bshift(bench);
    lemma_lookup_unique(rules, p);
    assert(binds_pattern(params, rules, k));
    assert forall|j: int|
        b <= j < params.len() && j != k implies !binds_pattern(params, rules, j) by {
        lemma_lookup_in(rules, params[j].name);
        if binds_pattern(params, rules, j) {
            let r = lookup_rule(rules, params[j].name)->Some_0;
            let q = choose|q: int| 0 <= q < rules.len() && rules[q] == r;
            assert(rules[q].is_pattern);
            assert(q == p);
            assert(params[j].name == rules[p].name);
            assert(params[k].name == params[j].name);
            if j < k {
                assert(params[j].name != params[k].name);
            } else {
                assert(params[k].name != params[j].name);
            }
        }
    }
    lemma_pat_count_single(params, rules, b, 0, k);
    lemma_scan_success_iff(params, rules, b, 0, false);
    lemma_pattern_pos_from(params, rules, b, b, k);
}

/// A rule set with no Pattern rule fails against every signature; where the
/// shape and mapping checks all pass, the failure is the call-site "no
/// pattern" diagnostic.
pub proof fn law_zero_patterns_fail(params: Seq<ParamV>, rules: Seq<RuleV>, bench: bool)
    requires
        forall|q: int| 0 <= q < rules.len() ==> !(#[trigger] rules[q]).is_pattern,
    ensures
        match_spec_error(params, rules, bench) is Some,
        all_ok_from(params, rules, bshift(bench), 0) ==> match_spec_error(params, rules, bench)
            == Option::Some(MatchError::NoPattern),
{
    let b = bshift(bench);
    assert forall|j: int|
        0 <= j < params.len() && j >= b implies !binds_pattern(params, rules, j) by {
        lemma_lookup_in(rules, params[j].name);
        if binds_pattern(params, rules, j) {
            let r = lookup_rule(rules, params[j].name)->Some_0;
            let q = choose|q: int| 0 <= q < rules.len() && rules[q] == r;
            assert(!rules[q].is_pattern);
        }
    }
    lemma_pat_count_zero(params, rules, b, 0);
    lemma_scan_success_iff(params, rules, b, 0, false);
    if all_ok_from(params, rules, b, 0) {
        lemma_scan_no_pattern_value(params, rules, b, 0);
    }
}

/// With a Pattern already bound, a scan over simple, mapped parameters
/// reaches the next Pattern binding and fails there, at that rule's name
/// token.
pub proof fn lemma_scan_duplicate(params: Seq<ParamV>, rules: Seq<RuleV>, b: int, i: int, k2: int)
    requires
        0 <= i <= k2 < params.len(),
        b <= k2,
        forall|j: int| i <= j <= k2 ==> (#[trigger] params[j]).simple,
        forall|j: int|
            i <= j <= k2 && j >= b ==> lookup_rule(rules, (#[trigger] params[j]).name) is Some,
        forall|j: int| i <= j < k2 && j >= b ==> !binds_pattern(params, rules, j),
        binds_pattern(params, rules, k2),
    ensures
        first_error_from(params, rules, b, i, true) == Option::Some(
            MatchError::TwoPatterns {
                rule_offset: lookup_rule(rules, params[k2].name)->Some_0.name_offset as usize,
            },
        ),
    decreases k2 - i,
{
    if i < k2 {
        assert(params[i].simple);
        if i >= b {
            assert(lookup_rule(rules, params[i].name) is Some);
            assert(!binds_pattern(params, rules, i));
        }
        lemma_scan_duplicate(params, rules, b, i + 1, k2);
    } else {
        assert(params[k2].simple);
        assert(lookup_rule(rules, params[k2].name) is Some);
    }
}

/// The scan passes simple, mapped, non-Pattern-binding parameters through
/// unchanged until the first Pattern binding, which sets the owed state.
pub proof fn lemma_scan_to_first_pattern(
    params: Seq<ParamV>,
    rules: Seq<RuleV>,
    b: int,
    i: int,
    k1: int,
)
    requires
        0 <= i <= k1 < params.len(),
        b <= k1,
        forall|j: int| i <= j <= k1 ==> (#[trigger] params[j]).simple,
        forall|j: int|
            i <= j <= k1 && j >= b ==> lookup_rule(rules, (#[trigger] params[j]).name) is Some,
        forall|j: int| i <= j < k1 && j >= b ==> !binds_pattern(params, rules, j),
        binds_pattern(params, rules, k1),
    ensures
        first_error_from(params, rules, b, i, false) == first_error_from(
            params,
            rules,
            b,
            k1 + 1,
            true,
        ),
    decreases k1 - i,
{
    if i < k1 {
        assert(params[i].simple);
        if i >= b {
            assert(lookup_rule(rules, params[i].name) is Some);
            assert(!binds_pattern(params, rules, i));
        }
        lemma_scan_to_first_pattern(params, rules, b, i + 1, k1);
    } else {
        assert(params[k1].simple);
        assert(lookup_rule(rules, params[k1].name) is Some);
    }
}

/// A signature binding two Pattern rules fails, and the failure points at
/// the name token of the rule bound second.
pub proof fn law_two_patterns_fail(
    params: Seq<ParamV>,
    rules: Seq<RuleV>,
    bench: bool,
    k1: int,
    k2: int,
)
    requires
        bshift(bench) <= k1 < k2 < params.len(),
        forall|j: int| 0 <= j <= k2 ==> (#[trigger] params[j]).simple,
        forall|j: int|
            bshift(bench) <= j <= k2 ==> lookup_rule(rules, (#[trigger] params[j]).name) is Some,
        forall|j: int|
            bshift(bench) <= j < k2 && j != k1 ==> !binds_pattern(params, rules, j),
        binds_pattern(params, rules, k1),
        binds_pattern(params, rules, k2),
    ensures
        match_spec_error(params, rules, bench) == Option::Some(
            MatchError::TwoPatterns {
                rule_offset: lookup_rule(rules, params[k2].name)->Some_0.name_offset as usize,
            },
        ),
{
    let b = bshift(bench);
    lemma_scan_to_first_pattern(params, rules, b, 0, k1);
    lemma_scan_duplicate(params, rules, b, k1 + 1, k2);
}

/// A parameter whose name no rule keys fails the scan as unmapped, wherever
/// it stands, as long as every parameter before it passes its checks and at
/// most one of them binds a Pattern.
pub proof fn lemma_scan_to_unmapped(
    params: Seq<ParamV>,
    rules: Seq<RuleV>,
    b: int,
    i: int,
    u: int,
    seen: bool,
)
    requires
        0 <= i <= u < params.len(),
        b <= u,
        forall|j: int| i <= j <= u ==> (#[trigger] params[j]).simple,
        forall|j: int|
            i <= j < u && j >= b ==> lookup_rule(rules, (#[trigger] params[j]).name) is Some,
        lookup_rule(rules, params[u].name) is None,
        seen ==> forall|j: int| i <= j < u && j >= b ==> !binds_pattern(params, rules, j),
        forall|j1: int, j2: int|
            i <= j1 < j2 < u && j1 >= b ==> !(binds_pattern(params, rules, j1) && binds_pattern(
                params,
                rules,
                j2,
            )),
    ensures
        first_error_from(params, rules, b, i, seen) == Option::Some(
            MatchError::UnmappedArgument { param_index: u as usize },
        ),
    decreases u - i,
{
    if i < u {
        if i >= b && binds_pattern(params, rules, i) {
            lemma_scan_to_unmapped(params, rules, b, i + 1, u, true);
        } else {
            lemma_scan_to_unmapped(params, rules, b, i + 1, u, seen);
        }
    }
}

/// A matchable parameter absent from the rule set fails matching with the
/// unmapped-argument diagnostic at that parameter, independent of where in
/// the parameter list it stands.
pub proof fn law_unmapped_fails(params: Seq<ParamV>, rules: Seq<RuleV>, bench: bool, u: int)
    requires
        bshift(bench) <= u < params.len(),
        forall|j: int| 0 <= j <= u ==> (#[trigger] params[j]).simple,
        forall|j: int|
            bshift(bench) <= j < u ==> lookup_rule(rules, (#[trigger] params[j]).name) is Some,
        lookup_rule(rules, params[u].name) is None,
        forall|j1: int, j2: int|
            bshift(bench) <= j1 < j2 < u ==> !(binds_pattern(params, rules, j1) && binds_pattern(
                params,
                rules,
                j2,
            )),
    ensures
        match_spec_error(params, rules, bench) == Option::Some(
            MatchError::UnmappedArgument { param_index: u as usize },
        ),
{
    lemma_scan_to_unmapped(params, rules, bshift(bench), 0, u, false);
}

/// A benchmark-style function's first parameter is excluded from matching:
/// once its shape check passes, the scan is the scan of the remaining
/// parameters, whatever the rule set holds of its name.
pub proof fn law_bench_first_excluded(params: Seq<ParamV>, rules: Seq<RuleV>, seen: bool)
    requires
        params.len() > 0,
        params[0].simple,
    ensures
        first_error_from(params, rules, 1, 0, seen) == first_error_from(params, rules, 1, 1, seen),
{
}

/// Under the benchmark shift, the second declared parameter stands at plan
/// position zero: binding the Pattern there makes zero the pattern index.
pub proof fn law_bench_second_param_is_plan_zero(params: Seq<ParamV>, rules: Seq<RuleV>)
    requires
        params.len() > 1,
        binds_pattern(params, rules, 1),
    ensures
        pattern_pos_from(params, rules, 1, 1) == 0,
{
    lemma_pattern_pos_from(params, rules, 1, 1, 1);
}

/// The descriptor's `params` track declared parameter order: the plan's
/// `j`-th expression is the expression of the rule keyed by the `j`-th
/// matchable parameter's name, wherever that rule stands in the annotation.
pub proof fn law_params_follow_declaration(
    params: Seq<ParamV>,
    rules: Seq<RuleV>,
    b: int,
    j: int,
)
    requires
        0 <= b,
        0 <= j < params.len() - b,
    ensures
        plan_exprs(params, rules, b)[j] == match lookup_rule(rules, params[j + b].name) {
            Option::Some(r) => r.expr,
            Option::None => Seq::empty(),
        },
{
}

} // verus!
