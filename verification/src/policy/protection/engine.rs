//! Runs a policy's rule list against a request.

use vstd::prelude::*;
use crate::policy::cc::{
    cc_step, entry_of, hit_of, table_key, CcEntry, CcLimiter, CcParams, MAX_TIME,
};
use crate::policy::protection::compiled::{CompiledAction, CompiledRule};
use crate::policy::protection::key::{build_key, key_of};
use crate::policy::protection::matcher::{eval, holds, HeaderView};
use crate::text::{opt_view, views};
use crate::waf::context::{WafContext, WafContextView};
use crate::waf::decision::{Decision, DecisionView};

verus! {

/// The status of a block that a rate limit without a usable `on_limit`
/// falls back to.
pub const FALLBACK_LIMIT_STATUS: u16 = 429;

/// What a rule left to be recorded at the moment it held, whether or not
/// it decided.
#[derive(Debug, Clone)]
pub enum RuleNote {
    /// A `Log` action.
    Log { rule_id: String, reason: String },
    /// A hit of the rate limiter, with the reason of the rule's `on_limit`
    /// where that is a `Log`.
    LimitHit { rule_id: String, hit_reason: String, logged: Option<String> },
}

pub enum NoteView {
    Log { rule_id: Seq<char>, reason: Seq<char> },
    LimitHit { rule_id: Seq<char>, hit_reason: Seq<char>, logged: Option<Seq<char>> },
}

impl View for RuleNote {
    type V = NoteView;

    open spec fn view(&self) -> NoteView {
        match self {
            RuleNote::Log { rule_id, reason } => NoteView::Log { rule_id: rule_id@, reason: reason@ },
            RuleNote::LimitHit { rule_id, hit_reason, logged } => NoteView::LimitHit {
                rule_id: rule_id@,
                hit_reason: hit_reason@,
                logged: opt_view(*logged),
            },
        }
    }
}

/// The notes of a list, as plain values.
pub open spec fn note_views(notes: Seq<RuleNote>) -> Seq<NoteView> {
    Seq::new(notes.len(), |i: int| notes[i]@)
}

/// What evaluating rules comes to: the decision, the limiter's table
/// afterwards, and the notes taken.
pub struct Outcome {
    pub decision: DecisionView,
    pub table: Map<Seq<char>, CcEntry>,
    pub notes: Seq<NoteView>,
}

/// The decision that a rate limit's `on_limit` action gives for a hit with
/// `hit_reason`. A `Log` lets the request pass; a `Block` or `Challenge`
/// carries `<hit_reason>; <its own reason>`.
pub open spec fn on_limit_decision(
    on_limit: CompiledAction,
    rule_id: Seq<char>,
    hit_reason: Seq<char>,
) -> DecisionView {
    match on_limit {
        CompiledAction::Log { .. } => DecisionView::Allow,
        CompiledAction::Challenge { status, reason } => DecisionView::Challenge {
            status,
            reason: hit_reason + "; "@ + reason@,
            rule_id,
        },
        CompiledAction::Block { status, reason } => DecisionView::Block {
            status,
            reason: hit_reason + "; "@ + reason@,
            rule_id,
        },
        _ => DecisionView::Block { status: 429, reason: hit_reason, rule_id },
    }
}

/// The note of a hit of the rate limiter.
pub open spec fn hit_note(on_limit: CompiledAction, rule_id: Seq<char>, hit_reason: Seq<char>) -> NoteView {
    NoteView::LimitHit {
        rule_id,
        hit_reason,
        logged: match on_limit {
            CompiledAction::Log { reason } => Some(reason@),
            _ => None,
        },
    }
}

/// What an action comes to for a request, with `notes` taken before it.
///
/// `Allow` and `Log` let the request pass, and a `Log` is noted. `Block`
/// and `Challenge` decide with their own status and reason. A rate limit
/// counts the request under the rule and the key built from its parts;
/// only a hit brings its `on_limit` action to bear, and each hit is noted.
pub open spec fn action_result<H: HeaderView>(
    rule_id: Seq<char>,
    action: CompiledAction,
    ctx: WafContextView,
    headers: &H,
    table: Map<Seq<char>, CcEntry>,
    now: u128,
    notes: Seq<NoteView>,
) -> Outcome {
    match action {
        CompiledAction::Allow { .. } => Outcome { decision: DecisionView::Allow, table, notes },
        CompiledAction::Log { reason } => Outcome {
            decision: DecisionView::Allow,
            table,
            notes: notes.push(NoteView::Log { rule_id, reason: reason@ }),
        },
        CompiledAction::Block { status, reason } => Outcome {
            decision: DecisionView::Block { status, reason: reason@, rule_id },
            table,
            notes,
        },
        CompiledAction::Challenge { status, reason } => Outcome {
            decision: DecisionView::Challenge { status, reason: reason@, rule_id },
            table,
            notes,
        },
        CompiledAction::Cc { key_parts, window_secs, max_requests, block_secs, on_limit } => {
            let p = CcParams { window_secs, max_requests, block_secs };
            let k = table_key(rule_id, key_of(views(key_parts@), ctx, headers));
            let (entry, verdict) = cc_step(entry_of(table, k), now, p);
            match hit_of(verdict, rule_id, p) {
                Some(hit_reason) => Outcome {
                    decision: on_limit_decision(*on_limit, rule_id, hit_reason),
                    table: table.insert(k, entry),
                    notes: notes.push(hit_note(*on_limit, rule_id, hit_reason)),
                },
                None => Outcome {
                    decision: DecisionView::Allow,
                    table: table.insert(k, entry),
                    notes,
                },
            }
        },
    }
}

/// What the rules `rules[from..]` come to for a request: the action of
/// each rule whose condition holds is carried out in order, up to the first
/// that blocks or challenges. Where none does, the request is allowed.
pub open spec fn rules_result<H: HeaderView>(
    rules: Seq<CompiledRule>,
    ctx: WafContextView,
    headers: &H,
    table: Map<Seq<char>, CcEntry>,
    now: u128,
    notes: Seq<NoteView>,
    from: int,
) -> Outcome
    decreases rules.len() - from,
{
    if from < 0 || from >= rules.len() {
        Outcome { decision: DecisionView::Allow, table, notes }
    } else if !holds(&rules[from].matcher, ctx, headers) {
        rules_result(rules, ctx, headers, table, now, notes, from + 1)
    } else {
        let out = action_result(
            rules[from].id@,
            rules[from].action,
            ctx,
            headers,
            table,
            now,
            notes,
        );
        if out.decision.is_terminal() {
            out
        } else {
            rules_result(rules, ctx, headers, out.table, now, out.notes, from + 1)
        }
    }
}

pub struct ProtectionEngine;

impl ProtectionEngine {
    /// Evaluates the rules in order at time `now`. The first action that
    /// blocks or challenges decides; else the request is allowed. Rate
    /// limits on the way count the request in `limiter`, and what is to be
    /// recorded is added to `trail`.
    pub fn eval_rules<H: HeaderView>(
        rules: &Vec<CompiledRule>,
        wctx: &WafContext,
        headers: &H,
        limiter: &mut CcLimiter,
        now: u128,
        trail: &mut Vec<RuleNote>,
    ) -> (d: Decision)
        requires
            now <= MAX_TIME,
        ensures
            (Outcome { decision: d@, table: final(limiter)@, notes: note_views(final(trail)@) })
                == rules_result(
                rules@,
                wctx@,
                headers,
                old(limiter)@,
                now,
                note_views(old(trail)@),
                0,
            ),
    {
        let mut i: usize = 0;
        while i < rules.len()
            invariant
                0 <= i <= rules.len(),
                now <= MAX_TIME,
                rules_result(
                    rules@,
                    wctx@,
                    headers,
                    old(limiter)@,
                    now,
                    note_views(old(trail)@),
                    0,
                ) == rules_result(
                    rules@,
                    wctx@,
                    headers,
                    limiter@,
                    now,
                    note_views(trail@),
                    i as int,
                ),
            decreases rules.len() - i,
        {
            let r = &rules[i];
            if eval(&r.matcher, wctx, headers) {
                let d = Self::exec_action(
                    r.id.as_str(),
                    &r.action,
                    wctx,
                    headers,
                    limiter,
                    now,
                    trail,
                );
                if d.is_terminal() {
                    return d;
                }
            }
            i += 1;
        }
        Decision::Allow
    }

    /// Carries out the action of a rule whose condition holds.
    pub fn exec_action<H: HeaderView>(
        rule_id: &str,
        action: &CompiledAction,
        wctx: &WafContext,
        headers: &H,
        limiter: &mut CcLimiter,
        now: u128,
        trail: &mut Vec<RuleNote>,
    ) -> (d: Decision)
        requires
            now <= MAX_TIME,
        ensures
            (Outcome { decision: d@, table: final(limiter)@, notes: note_views(final(trail)@) })
                == action_result(
                rule_id@,
                *action,
                wctx@,
                headers,
                old(limiter)@,
                now,
                note_views(old(trail)@),
            ),
    {
        let ghost before = note_views(trail@);
        match action {
            CompiledAction::Allow { .. } => Decision::Allow,
            CompiledAction::Log { reason } => {
                trail.push(RuleNote::Log { rule_id: rule_id.to_owned(), reason: reason.clone() });
                assert(note_views(trail@) =~= before.push(
                    NoteView::Log { rule_id: rule_id@, reason: reason@ },
                ));
                Decision::Allow
            },
            CompiledAction::Block { status, reason } => Decision::Block {
                status: *status,
                rule_id: rule_id.to_owned(),
                reason: reason.clone(),
            },
            CompiledAction::Challenge { status, reason } => Decision::Challenge {
                status: *status,
                rule_id: rule_id.to_owned(),
                reason: reason.clone(),
            },
            CompiledAction::Cc { key_parts, window_secs, max_requests, block_secs, on_limit } => {
                let key_body = build_key(key_parts, wctx, headers);
                let params = CcParams {
                    window_secs: *window_secs,
                    max_requests: *max_requests,
                    block_secs: *block_secs,
                };
                match limiter.check(rule_id, key_body.as_str(), params, now) {
                    Some(hit) => {
                        let logged = match &**on_limit {
                            CompiledAction::Log { reason } => Some(reason.clone()),
                            _ => None,
                        };
                        trail.push(
                            RuleNote::LimitHit {
                                rule_id: rule_id.to_owned(),
                                hit_reason: hit.reason.clone(),
                                logged,
                            },
                        );
                        assert(note_views(trail@) =~= before.push(
                            hit_note(**on_limit, rule_id@, hit.reason@),
                        ));
                        match &**on_limit {
                            CompiledAction::Log { .. } => Decision::Allow,
                            CompiledAction::Challenge { status, reason } => {
                                let mut text = hit.reason;
                                text.append("; ");
                                text.append(reason.as_str());
                                Decision::Challenge {
                                    status: *status,
                                    rule_id: rule_id.to_owned(),
                                    reason: text,
                                }
                            },
                            CompiledAction::Block { status, reason } => {
                                let mut text = hit.reason;
                                text.append("; ");
                                text.append(reason.as_str());
                                Decision::Block {
                                    status: *status,
                                    rule_id: rule_id.to_owned(),
                                    reason: text,
                                }
                            },
                            _ => Decision::Block {
                                status: FALLBACK_LIMIT_STATUS,
                                rule_id: rule_id.to_owned(),
                                reason: hit.reason,
                            },
                        }
                    },
                    None => Decision::Allow,
                }
            },
        }
    }
}

} // verus!
