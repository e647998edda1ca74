//! The signature matcher: walks the annotated function's declared parameters
//! in order, pairs each with the rule keyed by its name, and enforces the
//! cross-cutting invariants (every parameter is a simple named binding, every
//! parameter is mapped, exactly one Pattern rule is bound).

use vstd::prelude::*;
use crate::rules::{Rule, RuleSet, RuleV, lookup_rule, rules_view, opt_view};
use crate::sig::{ParamShape, ParamV, params_view};
use crate::text::str_eq_str;

verus! {

/// A matching failure, bound to the offending source position.
#[derive(Clone, Copy, PartialEq, Eq, Structural, Debug)]
pub enum MatchError {
    /// The parameter at this declared index is not a simple named binding.
    UnexpectedArgument { param_index: usize },
    /// No rule is keyed by the name of the parameter at this declared index.
    UnmappedArgument { param_index: usize },
    /// A second parameter bound a Pattern rule; the offset of that rule's
    /// argument-name token in the annotation text.
    TwoPatterns { rule_offset: usize },
    /// No parameter bound a Pattern rule; reported at the call site.
    NoPattern,
}

/// The first failure the scan meets from declared index `i` on, given that a
/// Pattern rule was already bound (`seen`) or not; `None` means the scan
/// succeeds. `b` is 1 for a benchmark-style function, whose first declared
/// parameter is reserved for the benchmark controller: it must still be a
/// simple binding, but is never matched against the rules. The benchmark
/// convention is positional only: the controller parameter's type is,
/// deliberately, not validated here.
pub open spec fn first_error_from(
    params: Seq<ParamV>,
    rules: Seq<RuleV>,
    b: int,
    i: int,
    seen: bool,
) -> Option<MatchError>
    decreases params.len() - i,
{
    if i < 0 || i >= params.len() {
        if seen {
            Option::None
        } else {
            Option::Some(MatchError::NoPattern)
        }
    } else if !params[i].simple {
        Option::Some(MatchError::UnexpectedArgument { param_index: i as usize })
    } else if i < b {
        first_error_from(params, rules, b, i + 1, seen)
    } else {
        match lookup_rule(rules, params[i].name) {
            Option::None => Option::Some(MatchError::UnmappedArgument { param_index: i as usize }),
            Option::Some(r) => {
                if r.is_pattern && seen {
                    Option::Some(MatchError::TwoPatterns { rule_offset: r.name_offset as usize })
                } else {
                    first_error_from(params, rules, b, i + 1, seen || r.is_pattern)
                }
            },
        }
    }
}

/// Benchmark shift: 1 when the first declared parameter is the benchmark
/// controller, 0 otherwise.
pub open spec fn bshift(bench: bool) -> int {
    if bench {
        1int
    } else {
        0int
    }
}

/// The matcher's outcome on a whole signature: its first failure, or `None`
/// for success.
pub open spec fn match_spec_error(params: Seq<ParamV>, rules: Seq<RuleV>, bench: bool) -> Option<
    MatchError,
> {
    first_error_from(params, rules, bshift(bench), 0, false)
}

/// Whether the parameter at declared index `i` binds a Pattern rule.
pub open spec fn binds_pattern(params: Seq<ParamV>, rules: Seq<RuleV>, i: int) -> bool {
    match lookup_rule(rules, params[i].name) {
        Option::Some(r) => r.is_pattern,
        Option::None => false,
    }
}

/// One entry of the argument plan: the declared type of the parameter, the
/// bound rule's expression and kind, and the parameter's declared index.
#[derive(Debug)]
pub struct PlanEntry {
    pub ty: String,
    pub expr: String,
    pub is_pattern: bool,
    pub source_index: usize,
}

/// The matched-against-signature argument plan: one entry per non-benchmark
/// parameter in declaration order, the plan position of the Pattern-bound
/// entry, and the Pattern rule's ignore predicate, if any.
#[derive(Debug)]
pub struct ArgumentPlan {
    pub entries: Vec<PlanEntry>,
    pub pattern_index: usize,
    pub ignore_pred: Option<String>,
}

/// What a successful match promises of the produced plan, for the declared
/// parameters `pv` and rules `rv`.
pub open spec fn plan_matches(plan: ArgumentPlan, pv: Seq<ParamV>, rv: Seq<RuleV>, b: int) -> bool {
    let m = plan.entries@.len();
    &&& m == pv.len() - b
    &&& forall|j: int|
        0 <= j < m ==> {
            &&& (#[trigger] plan.entries@[j]).ty@ == pv[j + b].ty
            &&& plan.entries@[j].source_index == j + b
            &&& match lookup_rule(rv, pv[j + b].name) {
                Option::Some(r) => plan.entries@[j].expr@ == r.expr && plan.entries@[j].is_pattern
                    == r.is_pattern,
                Option::None => false,
            }
        }
    &&& plan.pattern_index < m
    &&& plan.entries@[plan.pattern_index as int].is_pattern
    &&& forall|j: int|
        0 <= j < m && j != plan.pattern_index ==> !(#[trigger] plan.entries@[j]).is_pattern
    &&& match lookup_rule(rv, pv[plan.pattern_index + b].name) {
        Option::Some(r) => opt_view(plan.ignore_pred) == r.ignore_pred,
        Option::None => false,
    }
}

/// The bound expressions of a successful plan, one per matchable parameter,
/// in declared parameter order.
pub open spec fn plan_exprs(params: Seq<ParamV>, rules: Seq<RuleV>, b: int) -> Seq<Seq<char>> {
    Seq::new(
        (params.len() - b) as nat,
        |j: int|
            match lookup_rule(rules, params[j + b].name) {
                Option::Some(r) => r.expr,
                Option::None => Seq::empty(),
            },
    )
}

/// The declared types of the matchable parameters, in declared order.
pub open spec fn plan_tys(params: Seq<ParamV>, b: int) -> Seq<Seq<char>> {
    Seq::new((params.len() - b) as nat, |j: int| params[j + b].ty)
}

/// The plan position of the first matchable parameter binding a Pattern
/// rule, scanning from declared index `i`; -1 when none binds one.
pub open spec fn pattern_pos_from(params: Seq<ParamV>, rules: Seq<RuleV>, b: int, i: int) -> int
    decreases params.len() - i,
{
    if !(b <= i && i < params.len()) {
        -1
    } else if binds_pattern(params, rules, i) {
        i - b
    } else {
        pattern_pos_from(params, rules, b, i + 1)
    }
}

/// The Pattern rule's ignore predicate, read off the first Pattern-binding
/// parameter.
pub open spec fn spec_ignore_pred(params: Seq<ParamV>, rules: Seq<RuleV>, b: int) -> Option<
    Seq<char>,
> {
    let pi = pattern_pos_from(params, rules, b, b);
    match lookup_rule(rules, params[pi + b].name) {
        Option::Some(r) => r.ignore_pred,
        Option::None => Option::None,
    }
}

/// The first Pattern-binding parameter fixes the scan's pattern position.
pub proof fn lemma_pattern_pos_from(params: Seq<ParamV>, rules: Seq<RuleV>, b: int, i: int, k: int)
    requires
        b <= i <= k < params.len(),
        binds_pattern(params, rules, k),
        forall|j: int| i <= j < k ==> !binds_pattern(params, rules, j),
    ensures
        pattern_pos_from(params, rules, b, i) == k - b,
    decreases k - i,
{
    if i < k {
        lemma_pattern_pos_from(params, rules, b, i + 1, k);
    }
}

/// Returns the index of the rule keyed by `name`, if any.
pub fn find_rule(rules: &Vec<Rule>, name: &String) -> (r: Option<usize>)
    ensures
        match r {
            Option::Some(k) => k < rules@.len() && lookup_rule(rules_view(rules@), name@)
                == Option::Some(rules@[k as int]@),
            Option::None => lookup_rule(rules_view(rules@), name@) is None,
        },
{
    let ghost rv = rules_view(rules@);
    proof {
        assert(rv.skip(0) =~= rv);
    }
    let mut i: usize = 0;
    while i < rules.len()
        invariant
            i <= rules.len(),
            rv == rules_view(rules@),
            lookup_rule(rv, name@) == lookup_rule(rv.skip(i as int), name@),
            forall|j: int| 0 <= j < i ==> (#[trigger] rv[j]).name != name@,
        decreases rules.len() - i,
    {
        let ghost iv = i as int;
        proof {
            assert(rv.skip(iv)[0] == rv[iv]);
            assert(rv.skip(iv).skip(1) =~= rv.skip(iv + 1));
        }
        if str_eq_str(rules[i].name.as_str(), name.as_str()) {
            proof {
                assert(rv[iv].name == name@);
                assert(lookup_rule(rv.skip(iv), name@) == Option::Some(rv[iv]));
            }
            return Some(i);
        }
        proof {
            assert(rv[iv].name != name@);
        }
        i += 1;
    }
    proof {
        assert(rv.skip(rules.len() as int) =~= Seq::<RuleV>::empty());
    }
    None
}

/// Matches the declared parameter list against a rule set, producing the
/// argument plan or the first failure, in declared order: a non-simple
/// parameter fails as unexpected; a name with no rule fails as unmapped; a
/// second Pattern binding fails at the second rule's name token; and a scan
/// that bound no Pattern fails at the call site. A benchmark-style function's
/// first parameter is excluded from matching, and plan positions shift by one
/// against declared indexes then.
pub fn match_signature(params: &Vec<ParamShape>, rules: &RuleSet, bench: bool) -> (r: Result<
    ArgumentPlan,
    MatchError,
>)
    ensures
        match r {
            Result::Ok(plan) => match_spec_error(params_view(params@), rules@.rules, bench)
                is None && plan_matches(
                plan,
                params_view(params@),
                rules@.rules,
                bshift(bench),
            ),
            Result::Err(e) => match_spec_error(params_view(params@), rules@.rules, bench)
                == Option::Some(e),
        },
{
    let ghost pv = params_view(params@);
    let ghost rv = rules@.rules;
    let b: usize = if bench {
        1
    } else {
        0
    };
    let mut entries: Vec<PlanEntry> = Vec::new();
    let mut pattern_index: Option<usize> = None;
    let mut ignore_pred: Option<String> = None;
    let mut i: usize = 0;
    while i < params.len()
        invariant
            i <= params.len(),
            pv == params_view(params@),
            rv == rules@.rules,
            b == bshift(bench),
            first_error_from(pv, rv, b as int, 0, false) == first_error_from(
                pv,
                rv,
                b as int,
                i as int,
                pattern_index is Some,
            ),
            entries@.len() == if i <= b {
                0int
            } else {
                i - b
            },
            forall|j: int|
                0 <= j < entries@.len() ==> {
                    &&& (#[trigger] entries@[j]).ty@ == pv[j + b].ty
                    &&& entries@[j].source_index == j + b
                    &&& match lookup_rule(rv, pv[j + b].name) {
                        Option::Some(ru) => entries@[j].expr@ == ru.expr && entries@[j].is_pattern
                            == ru.is_pattern,
                        Option::None => false,
                    }
                },
            match pattern_index {
                Option::Some(pi) => pi < entries@.len() && entries@[pi as int].is_pattern && match
                    lookup_rule(rv, pv[pi + b].name) {
                    Option::Some(ru) => opt_view(ignore_pred) == ru.ignore_pred,
                    Option::None => false,
                },
                Option::None => forall|j: int|
                    0 <= j < entries@.len() ==> !(#[trigger] entries@[j]).is_pattern,
            },
            forall|j: int|
                0 <= j < entries@.len() && Some(j as usize) != pattern_index ==> !(
                #[trigger] entries@[j]).is_pattern,
        decreases params.len() - i,
    {
        let ghost iv = i as int;
        let ghost seen = pattern_index is Some;
        match &params[i] {
            ParamShape::Other => {
                proof {
                    assert(!pv[iv].simple);
                }
                return Err(MatchError::UnexpectedArgument { param_index: i });
            },
            ParamShape::Simple { name, ty, by_ref: _, elem: _ } => {
                proof {
                    assert(pv[iv].simple);
                    assert(pv[iv].name == name@);
                    assert(pv[iv].ty == ty@);
                }
                if i < b {
                    proof {
                        assert(first_error_from(pv, rv, b as int, iv, seen) == first_error_from(
                            pv,
                            rv,
                            b as int,
                            iv + 1,
                            seen,
                        ));
                    }
                } else {
                    match find_rule(&rules.rules, name) {
                        None => {
                            return Err(MatchError::UnmappedArgument { param_index: i });
                        },
                        Some(k) => {
                            let ghost ru = rv[k as int];
                            proof {
                                assert(lookup_rule(rv, pv[iv].name) == Option::Some(ru));
                            }
                            if rules.rules[k].is_pattern {
                                if pattern_index.is_some() {
                                    return Err(MatchError::TwoPatterns {
                                        rule_offset: rules.rules[k].name_offset,
                                    });
                                }
                                pattern_index = Some(entries.len());
                                ignore_pred = match &rules.rules[k].ignore_pred {
                                    Some(p) => Some(p.clone()),
                                    None => None,
                                };
                            }
                            entries.push(
                                PlanEntry {
                                    ty: ty.clone(),
                                    expr: rules.rules[k].expr.clone(),
                                    is_pattern: rules.rules[k].is_pattern,
                                    source_index: i,
                                },
                            );
                            proof {
                                let m = entries@.len() - 1;
                                assert(m + b == iv);
                                assert(entries@[m].ty@ == pv[m + b].ty);
                                assert(entries@[m].source_index == m + b);
                                assert(entries@[m].expr@ == ru.expr);
                                assert(entries@[m].is_pattern == ru.is_pattern);
                                assert(first_error_from(pv, rv, b as int, iv, seen)
                                    == first_error_from(
                                    pv,
                                    rv,
                                    b as int,
                                    iv + 1,
                                    seen || ru.is_pattern,
                                ));
                            }
                        },
                    }
                }
            },
        }
        i += 1;
    }
    proof {
        assert(first_error_from(pv, rv, b as int, params.len() as int, pattern_index is Some)
            == if pattern_index is Some {
            Option::<MatchError>::None
        } else {
            Option::Some(MatchError::NoPattern)
        });
    }
    match pattern_index {
        None => Err(MatchError::NoPattern),
        Some(pi) => Ok(ArgumentPlan { entries, pattern_index: pi, ignore_pred }),
    }
}

} // verus!
