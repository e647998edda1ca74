//! The rule model: one argument-binding instruction per annotation rule, and
//! the rule set parsed from one file-rule annotation.

use vstd::prelude::*;

verus! {

/// Mathematical image of one rule.
pub struct RuleV {
    pub name: Seq<char>,
    pub is_pattern: bool,
    pub expr: Seq<char>,
    pub ignore_pred: Option<Seq<char>>,
    pub name_offset: int,
}

/// One argument-binding instruction from a file-rule annotation.
///
/// A Pattern rule (`name in "regex"`) is matched directly against candidate
/// file names; a Template rule (`name = "template"`) derives a related file
/// path from the Pattern match's capture groups. `ignore_pred` is the
/// predicate path of an `if !path` suffix, legal only on a Pattern rule.
/// `name_offset` is the character offset of the rule's argument-name token in
/// the annotation text; diagnostics about this rule point at it.
#[derive(Debug)]
pub struct Rule {
    pub name: String,
    pub is_pattern: bool,
    pub expr: String,
    pub ignore_pred: Option<String>,
    pub name_offset: usize,
}

/// View of an optional string.
pub open spec fn opt_view(o: Option<String>) -> Option<Seq<char>> {
    match o {
        Option::Some(p) => Option::Some(p@),
        Option::None => Option::None,
    }
}

impl View for Rule {
    type V = RuleV;

    open spec fn view(&self) -> RuleV {
        RuleV {
            name: self.name@,
            is_pattern: self.is_pattern,
            expr: self.expr@,
            ignore_pred: opt_view(self.ignore_pred),
            name_offset: self.name_offset as int,
        }
    }
}

/// View of a rule sequence.
pub open spec fn rules_view(rs: Seq<Rule>) -> Seq<RuleV> {
    rs.map_values(|r: Rule| r@)
}

/// A parsed file-rule annotation: the root directory to scan, and the rules,
/// keyed by argument name. The parser keeps argument names unique (a later
/// rule for the same name replaces an earlier one).
#[derive(Debug)]
pub struct RuleSet {
    pub root: String,
    pub rules: Vec<Rule>,
}

/// Mathematical image of a rule set.
pub struct RuleSetV {
    pub root: Seq<char>,
    pub rules: Seq<RuleV>,
}

impl View for RuleSet {
    type V = RuleSetV;

    open spec fn view(&self) -> RuleSetV {
        RuleSetV { root: self.root@, rules: rules_view(self.rules@) }
    }
}

/// No two rules share an argument name.
pub open spec fn rule_names_unique(rs: Seq<RuleV>) -> bool {
    forall|i: int, j: int| 0 <= i < j < rs.len() ==> rs[i].name != rs[j].name
}

/// The rule keyed by `name`: the first rule with that name.
pub open spec fn lookup_rule(rs: Seq<RuleV>, name: Seq<char>) -> Option<RuleV>
    decreases rs.len(),
{
    if rs.len() == 0 {
        Option::None
    } else if rs[0].name == name {
        Option::Some(rs[0])
    } else {
        lookup_rule(rs.skip(1), name)
    }
}

/// A successful lookup returns a rule of the set, under the looked-up name.
pub proof fn lemma_lookup_in(rs: Seq<RuleV>, name: Seq<char>)
    ensures
        match lookup_rule(rs, name) {
            Option::Some(r) => r.name == name && exists|k: int| 0 <= k < rs.len() && rs[k] == r,
            Option::None => forall|k: int| 0 <= k < rs.len() ==> rs[k].name != name,
        },
    decreases rs.len(),
{
    if rs.len() > 0 {
        lemma_lookup_in(rs.skip(1), name);
        match lookup_rule(rs, name) {
            Option::Some(r) => {
                if rs[0].name == name {
                    assert(rs[0] == r);
                } else {
                    let k = choose|k: int|
                        0 <= k < rs.skip(1).len() && rs.skip(1)[k] == r;
                    assert(rs[k + 1] == r);
                }
            },
            Option::None => {
                assert forall|k: int| 0 <= k < rs.len() implies rs[k].name != name by {
                    if k > 0 {
                        assert(rs.skip(1)[k - 1] == rs[k]);
                    }
                }
            },
        }
    }
}

} // verus!
