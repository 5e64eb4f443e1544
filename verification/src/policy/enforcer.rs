//! Brings a request before its policy: the precise rules, then the base
//! rules, then the header/body rule engine.

use vstd::prelude::*;
use crate::policy::cc::{CcEntry, MAX_TIME};
use crate::policy::compiled::CompiledPolicy;
use crate::policy::manager::{policy_for_host, select_policy, PolicyManager};
use crate::policy::protection::compiled::CompiledRule as ProtectionRule;
use crate::policy::protection::engine::{
    note_views, rules_result, NoteView, ProtectionEngine, RuleNote,
};
use crate::policy::protection::key::or_empty;
use crate::policy::protection::matcher::HeaderView;
use crate::waf::context::{WafContext, WafContextView};
use crate::waf::decision::{Decision, DecisionView};
use crate::waf::engine::{headers_result, WafEngine};
use crate::waf::rules::compiler::CompiledRule;

verus! {

/// The outcome for a request: the decision, the id of the policy that
/// governed it, and the rules whose body patterns are still to be looked
/// for in the request body and in the response body.
pub struct EnforceResult {
    pub decision: Decision,
    pub policy_id: String,
    pub req_body_rules: Vec<usize>,
    pub resp_body_rules: Vec<usize>,
    /// What the policy's rules left to be recorded, in the order in which
    /// they held.
    pub notes: Vec<RuleNote>,
}

/// What enforcing a policy comes to: the decision, the rules set aside for
/// the body phase, the limiter's table afterwards, and the notes taken.
pub struct Enforced {
    pub decision: DecisionView,
    pub deferred: Seq<usize>,
    pub table: Map<Seq<char>, CcEntry>,
    pub notes: Seq<NoteView>,
}

pub struct PolicyEnforcer {
    pub mgr: PolicyManager,
    pub engine: WafEngine,
}

/// What a policy and the rule engine come to for a request at time `now`.
///
/// A precise rule that blocks or challenges decides, and nothing after it
/// is evaluated. Else a base rule that does so decides. Else, with the rule
/// engine switched off, the request is allowed. Else the header phase of
/// the rule engine decides. Only the rule engine sets rules aside.
pub open spec fn enforce_result<H: HeaderView>(
    precise: Seq<ProtectionRule>,
    base: Seq<ProtectionRule>,
    waf_enabled: bool,
    engine_rules: Seq<CompiledRule>,
    ctx: WafContextView,
    headers: &H,
    table: Map<Seq<char>, CcEntry>,
    now: u128,
) -> Enforced {
    let first = rules_result(precise, ctx, headers, table, now, Seq::empty(), 0);
    if first.decision.is_terminal() {
        Enforced {
            decision: first.decision,
            deferred: Seq::empty(),
            table: first.table,
            notes: first.notes,
        }
    } else {
        let second = rules_result(base, ctx, headers, first.table, now, first.notes, 0);
        if second.decision.is_terminal() {
            Enforced {
                decision: second.decision,
                deferred: Seq::empty(),
                table: second.table,
                notes: second.notes,
            }
        } else if !waf_enabled {
            Enforced {
                decision: DecisionView::Allow,
                deferred: Seq::empty(),
                table: second.table,
                notes: second.notes,
            }
        } else {
            let (d, deferred) = headers_result(engine_rules, ctx, 0, Seq::empty());
            Enforced { decision: d, deferred, table: second.table, notes: second.notes }
        }
    }
}

/// A precise rule that blocks or challenges keeps the base rules and the
/// rule engine from being evaluated: the decision is its own, the limiter's
/// table and the notes are as the precise rules left them, and no rule is
/// set aside. In the same way a base rule that blocks or challenges keeps
/// the rule engine out.
pub proof fn lemma_terminal_precedence<H: HeaderView>(
    precise: Seq<ProtectionRule>,
    base: Seq<ProtectionRule>,
    waf_enabled: bool,
    engine_rules: Seq<CompiledRule>,
    ctx: WafContextView,
    headers: &H,
    table: Map<Seq<char>, CcEntry>,
    now: u128,
)
    ensures
        ({
            let out = enforce_result(
                precise,
                base,
                waf_enabled,
                engine_rules,
                ctx,
                headers,
                table,
                now,
            );
            let first = rules_result(precise, ctx, headers, table, now, Seq::empty(), 0);
            let second = rules_result(base, ctx, headers, first.table, now, first.notes, 0);
            &&& first.decision.is_terminal() ==> out == (Enforced {
                decision: first.decision,
                deferred: Seq::empty(),
                table: first.table,
                notes: first.notes,
            })
            &&& !first.decision.is_terminal() && second.decision.is_terminal() ==> out == (Enforced {
                decision: second.decision,
                deferred: Seq::empty(),
                table: second.table,
                notes: second.notes,
            })
        }),
{
}

impl PolicyEnforcer {
    pub fn new(mgr: PolicyManager, engine: WafEngine) -> (e: Self)
        ensures
            e.mgr == mgr,
            e.engine == engine,
    {
        PolicyEnforcer { mgr, engine }
    }

    /// The policy that governs a request for `host`; a request without a
    /// host is governed as the empty host is.
    pub open spec fn policy_of(&self, host: Option<Seq<char>>) -> CompiledPolicy {
        policy_for_host(
            self.mgr.state.matcher@,
            self.mgr.state.policies@,
            self.mgr.fallback,
            or_empty(host),
        )
    }

    /// Decides on a request by what its headers show, at time `now`. Rate
    /// limits on the way count the request in the limiter of the state in
    /// force; nothing else of the state changes.
    pub fn enforce_request_headers<H: HeaderView>(
        &mut self,
        wctx: &WafContext,
        headers: &H,
        now: u128,
    ) -> (r: EnforceResult)
        requires
            now <= MAX_TIME,
        ensures
            ({
                let policy = old(self).policy_of(wctx@.host);
                let out = enforce_result(
                    policy.precise@,
                    policy.base@,
                    policy.waf.enabled,
                    old(self).engine.rules(),
                    wctx@,
                    headers,
                    old(self).mgr.state.cc@,
                    now,
                );
                &&& r.policy_id@ == policy.id@
                &&& r.decision@ == out.decision
                &&& r.req_body_rules@ == out.deferred
                &&& r.resp_body_rules@ == out.deferred
                &&& note_views(r.notes@) == out.notes
                &&& final(self).mgr.state.cc@ == out.table
            }),
            final(self).mgr.state.matcher == old(self).mgr.state.matcher,
            final(self).mgr.state.policies == old(self).mgr.state.policies,
            final(self).mgr.fallback == old(self).mgr.fallback,
            final(self).engine == old(self).engine,
    {
        let host: &str = match &wctx.host {
            Some(h) => h.as_str(),
            None => "",
        };
        proof {
            reveal_strlit("");
            assert(""@ =~= Seq::<char>::empty());
        }
        let policy = select_policy(
            &self.mgr.state.matcher,
            &self.mgr.state.policies,
            &self.mgr.fallback,
            host,
        );
        let policy_id = policy.id.clone();
        let mut notes: Vec<RuleNote> = Vec::new();
        assert(note_views(notes@) =~= Seq::<NoteView>::empty());

        let d1 = ProtectionEngine::eval_rules(
            &policy.precise,
            wctx,
            headers,
            &mut self.mgr.state.cc,
            now,
            &mut notes,
        );
        if d1.is_terminal() {
            return EnforceResult {
                decision: d1,
                policy_id,
                req_body_rules: Vec::new(),
                resp_body_rules: Vec::new(),
                notes,
            };
        }
        let d2 = ProtectionEngine::eval_rules(
            &policy.base,
            wctx,
            headers,
            &mut self.mgr.state.cc,
            now,
            &mut notes,
        );
        if d2.is_terminal() {
            return EnforceResult {
                decision: d2,
                policy_id,
                req_body_rules: Vec::new(),
                resp_body_rules: Vec::new(),
                notes,
            };
        }
        if !policy.waf.enabled {
            return EnforceResult {
                decision: Decision::Allow,
                policy_id,
                req_body_rules: Vec::new(),
                resp_body_rules: Vec::new(),
                notes,
            };
        }
        let (decision, req_body_rules, resp_body_rules) = self.engine.eval_request_headers(wctx);
        EnforceResult { decision, policy_id, req_body_rules, resp_body_rules, notes }
    }
}

} // verus!
