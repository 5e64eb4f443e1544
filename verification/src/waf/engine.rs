//! The header phase of the rule engine: decides on what the request line
//! and the path show, and hands the rules with body patterns on to the
//! body phase.

use vstd::prelude::*;
use vstd::utf8::encode_utf8;
use crate::text::{starts_with, str_eq};
use crate::waf::context::{WafContext, WafContextView};
use crate::waf::decision::{Decision, DecisionView};
use crate::waf::rules::compiler::{CompiledRule, CompiledRuleset};
use crate::waf::rules::matcher::{any_occurs, longest};
use crate::waf::rules::rule::Action;

verus! {

/// Holds the ruleset in force.
pub struct WafEngine {
    rules: CompiledRuleset,
}

/// Whether the rule is open to the request's method: it names no methods,
/// or the method is one of them.
pub open spec fn method_ok(rule: &CompiledRule, ctx: WafContextView) -> bool {
    match rule.methods {
        Some(ms) => exists|i: int| 0 <= i < ms@.len() && (#[trigger] ms@[i])@ == ctx.method,
        None => true,
    }
}

/// Whether the rule is open to the request's path: it names no prefixes,
/// or the path begins with one of them.
pub open spec fn prefix_ok(rule: &CompiledRule, ctx: WafContextView) -> bool {
    match rule.path_prefix {
        Some(ps) => exists|i: int| 0 <= i < ps@.len() && (#[trigger] ps@[i])@.is_prefix_of(ctx.path),
        None => true,
    }
}

/// Whether the rule's path patterns, if it has any, are met: one of them
/// stands in the bytes of the path.
pub open spec fn uri_ok(rule: &CompiledRule, ctx: WafContextView) -> bool {
    match rule.uri_ac {
        Some(ac) => any_occurs(ac.patterns(), encode_utf8(ctx.path)),
        None => true,
    }
}

/// Whether the header conditions of the rule hold of the request.
pub open spec fn applies(rule: &CompiledRule, ctx: WafContextView) -> bool {
    method_ok(rule, ctx) && prefix_ok(rule, ctx) && uri_ok(rule, ctx)
}

/// The decision that a rule's action stands for.
pub open spec fn decision_of(rule: &CompiledRule) -> DecisionView {
    match rule.action {
        Action::Allow => DecisionView::Allow,
        Action::Block => DecisionView::Block { status: 403, reason: "matched"@, rule_id: rule.id@ },
        Action::Challenge => DecisionView::Challenge {
            status: 403,
            reason: "challenge"@,
            rule_id: rule.id@,
        },
    }
}

/// The outcome of the header phase over `rules[from..]`, with `deferred`
/// the rules set aside so far.
///
/// A rule whose header conditions do not hold is passed over. One that
/// holds and has body patterns is set aside for the body phase. The first
/// that holds and has none decides. Where none decides, the request is
/// allowed.
pub open spec fn headers_result(
    rules: Seq<CompiledRule>,
    ctx: WafContextView,
    from: int,
    deferred: Seq<usize>,
) -> (DecisionView, Seq<usize>)
    decreases rules.len() - from,
{
    if from < 0 || from >= rules.len() {
        (DecisionView::Allow, deferred)
    } else if !applies(&rules[from], ctx) {
        headers_result(rules, ctx, from + 1, deferred)
    } else if rules[from].body_ac is Some {
        headers_result(rules, ctx, from + 1, deferred.push(from as usize))
    } else {
        (decision_of(&rules[from]), deferred)
    }
}

fn any_equal(xs: &Vec<String>, s: &str) -> (r: bool)
    ensures
        r == exists|i: int| 0 <= i < xs@.len() && (#[trigger] xs@[i])@ == s@,
{
    let mut i: usize = 0;
    while i < xs.len()
        invariant
            0 <= i <= xs.len(),
            forall|j: int| 0 <= j < i ==> (#[trigger] xs@[j])@ != s@,
        decreases xs.len() - i,
    {
        if str_eq(xs[i].as_str(), s) {
            return true;
        }
        i += 1;
    }
    false
}

fn any_prefix(xs: &Vec<String>, s: &str) -> (r: bool)
    ensures
        r == exists|i: int| 0 <= i < xs@.len() && (#[trigger] xs@[i])@.is_prefix_of(s@),
{
    let mut i: usize = 0;
    while i < xs.len()
        invariant
            0 <= i <= xs.len(),
            forall|j: int| 0 <= j < i ==> !(#[trigger] xs@[j])@.is_prefix_of(s@),
        decreases xs.len() - i,
    {
        if starts_with(s, xs[i].as_str()) {
            return true;
        }
        i += 1;
    }
    false
}

fn rule_applies(rule: &CompiledRule, ctx: &WafContext) -> (r: bool)
    ensures
        r == applies(rule, ctx@),
{
    if let Some(ms) = &rule.methods {
        if !any_equal(ms, ctx.method.as_str()) {
            return false;
        }
    }
    if let Some(ps) = &rule.path_prefix {
        if !any_prefix(ps, ctx.path.as_str()) {
            return false;
        }
    }
    if let Some(ac) = &rule.uri_ac {
        if !ac.is_match(ctx.path.as_str().as_bytes()) {
            return false;
        }
    }
    true
}

impl WafEngine {
    pub closed spec fn rules(&self) -> Seq<CompiledRule> {
        self.rules.rules@
    }

    pub fn new(initial: CompiledRuleset) -> (e: Self)
        ensures
            e.rules() == initial.rules@,
    {
        WafEngine { rules: initial }
    }

    /// Puts a new ruleset in force.
    pub fn swap_rules(&mut self, new_rules: CompiledRuleset)
        ensures
            final(self).rules() == new_rules.rules@,
    {
        self.rules = new_rules;
    }

    /// The ruleset in force.
    pub fn rules_snapshot(&self) -> (rs: &CompiledRuleset)
        ensures
            rs.rules@ == self.rules(),
    {
        &self.rules
    }

    /// Evaluates the header phase. Returns the decision and the indices of
    /// the rules set aside for the request body and for the response body;
    /// the two lists are the same.
    pub fn eval_request_headers(&self, ctx: &WafContext) -> (r: (Decision, Vec<usize>, Vec<usize>))
        ensures
            (r.0@, r.1@) == headers_result(self.rules(), ctx@, 0, Seq::empty()),
            r.2@ == r.1@,
    {
        let mut req_body_rules: Vec<usize> = Vec::new();
        let mut resp_body_rules: Vec<usize> = Vec::new();
        let rules = &self.rules.rules;
        let mut idx: usize = 0;
        while idx < rules.len()
            invariant
                0 <= idx <= rules.len(),
                rules@ == self.rules(),
                resp_body_rules@ == req_body_rules@,
                headers_result(self.rules(), ctx@, 0, Seq::empty()) == headers_result(
                    self.rules(),
                    ctx@,
                    idx as int,
                    req_body_rules@,
                ),
            decreases rules.len() - idx,
        {
            let rule = &rules[idx];
            if rule_applies(rule, ctx) {
                if rule.body_ac.is_some() {
                    req_body_rules.push(idx);
                    resp_body_rules.push(idx);
                } else {
                    let d = rule.action_to_decision();
                    return (d, req_body_rules, resp_body_rules);
                }
            }
            idx += 1;
        }
        (Decision::Allow, req_body_rules, resp_body_rules)
    }
}

impl CompiledRule {
    /// Whether one of the rule's body patterns stands in `window`.
    pub open spec fn body_matches(&self, window: Seq<u8>) -> bool {
        match self.body_ac {
            Some(ac) => any_occurs(ac.patterns(), window),
            None => false,
        }
    }

    /// How many bytes of a body must be kept so that a pattern that began
    /// in them is found when more bytes arrive: the length of the rule's
    /// longest body pattern less one.
    pub open spec fn keep_len(&self) -> nat {
        match self.body_ac {
            Some(ac) => if longest(ac.patterns()) > 0 {
                (longest(ac.patterns()) - 1) as nat
            } else {
                0
            },
            None => 0,
        }
    }

    pub fn body_match(&self, window: &[u8]) -> (r: bool)
        ensures
            r == self.body_matches(window@),
    {
        match &self.body_ac {
            Some(ac) => ac.is_match(window),
            None => false,
        }
    }

    pub fn body_keep_len(&self) -> (n: usize)
        ensures
            n == self.keep_len(),
    {
        match &self.body_ac {
            Some(ac) => {
                let m = ac.max_pat_len();
                if m > 0 {
                    m - 1
                } else {
                    0
                }
            },
            None => 0,
        }
    }

    /// The decision that the rule's action stands for.
    pub fn action_to_decision(&self) -> (d: Decision)
        ensures
            d@ == decision_of(self),
    {
        match self.action {
            Action::Allow => Decision::Allow,
            Action::Block => Decision::Block {
                status: 403,
                reason: "matched".to_owned(),
                rule_id: self.id.clone(),
            },
            Action::Challenge => Decision::Challenge {
                status: 403,
                reason: "challenge".to_owned(),
                rule_id: self.id.clone(),
            },
        }
    }
}

} // verus!
