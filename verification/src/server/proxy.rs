//! What the proxy remembers of a request on its way, and what it does at
//! each step: after the headers, with each chunk of the request body and
//! of the response body, and when the request is done.
//!
//! The proxy itself reads and writes outside this crate. Here each step
//! takes what was read and says what to write and what to record.

use vstd::prelude::*;
use crate::policy::enforcer::EnforceResult;
use crate::policy::protection::engine::{note_views, RuleNote};
use crate::server::block_page::{rendered, BlockPage};
use vstd::utf8::encode_utf8;
use crate::text::{
    clone_opt, decimal, hexadecimal, opt_view, or_default, push_decimal, push_hex,
    push_signed_decimal, signed_decimal,
};
use crate::waf::context::{WafContext, WafContextView};
use crate::waf::decision::{Decision, DecisionView};
use crate::waf::rules::compiler::{CompiledRule, CompiledRuleset};
use crate::waf::scanner::{first_body_match, keep_of, retained, scan_chunk};

verus! {

/// The status of a block in the body phase.
pub const BODY_BLOCK_STATUS: u16 = 403;

/// The status of a request that nothing decided on.
pub const DEFAULT_ACCESS_STATUS: u16 = 200;

/// What the proxy remembers of a request.
pub struct ProxyCtx {
    pub ctx: Option<WafContext>,
    pub request_id: Option<String>,
    pub edge_key: Option<String>,
    pub upstream: Option<String>,
    pub policy_id: Option<String>,
    pub action: Option<String>,
    pub decision_status: Option<u16>,
    /// The end of the request body seen so far.
    pub req_tail: Vec<u8>,
    pub req_body_rules: Vec<usize>,
    /// The end of the response body seen so far.
    pub resp_tail: Vec<u8>,
    pub resp_body_rules: Vec<usize>,
    pub blocked: bool,
    /// When the request began, in nanoseconds on the caller's clock.
    pub start: Option<u128>,
    pub host: Option<String>,
}

/// A response that the proxy writes itself in place of the upstream's.
/// It goes out with the headers `content-type`, `content-length`,
/// `cache-control: no-store` and `x-request-id`.
pub struct BlockResponse {
    pub status: u16,
    pub content_type: String,
    pub body: String,
    pub request_id: String,
}

/// A decision worth recording.
pub struct SecurityEvent {
    pub request_id: String,
    pub edge_key: String,
    pub policy_id: String,
    pub action: String,
    pub rule_id: String,
    pub reason: String,
    pub phase: String,
    pub status: u16,
    pub host: String,
    pub path: String,
    pub method: String,
    pub client_ip: Option<String>,
}

/// The record of a finished request.
pub struct AccessLog {
    pub request_id: String,
    pub edge_key: String,
    pub policy_id: String,
    pub action: String,
    pub method: String,
    pub host: String,
    pub path: String,
    pub status: u16,
    pub latency_ms: u64,
    pub upstream: Option<String>,
    pub client_ip: Option<String>,
    pub user_agent: Option<String>,
    pub error: Option<String>,
}

pub struct BlockResponseView {
    pub status: u16,
    pub content_type: Seq<char>,
    pub body: Seq<char>,
    pub request_id: Seq<char>,
}

pub struct SecurityEventView {
    pub request_id: Seq<char>,
    pub edge_key: Seq<char>,
    pub policy_id: Seq<char>,
    pub action: Seq<char>,
    pub rule_id: Seq<char>,
    pub reason: Seq<char>,
    pub phase: Seq<char>,
    pub status: u16,
    pub host: Seq<char>,
    pub path: Seq<char>,
    pub method: Seq<char>,
    pub client_ip: Option<Seq<char>>,
}

pub struct AccessLogView {
    pub request_id: Seq<char>,
    pub edge_key: Seq<char>,
    pub policy_id: Seq<char>,
    pub action: Seq<char>,
    pub method: Seq<char>,
    pub host: Seq<char>,
    pub path: Seq<char>,
    pub status: u16,
    pub latency_ms: u64,
    pub upstream: Option<Seq<char>>,
    pub client_ip: Option<Seq<char>>,
    pub user_agent: Option<Seq<char>>,
    pub error: Option<Seq<char>>,
}

impl View for BlockResponse {
    type V = BlockResponseView;

    open spec fn view(&self) -> BlockResponseView {
        BlockResponseView {
            status: self.status,
            content_type: self.content_type@,
            body: self.body@,
            request_id: self.request_id@,
        }
    }
}

impl View for SecurityEvent {
    type V = SecurityEventView;

    open spec fn view(&self) -> SecurityEventView {
        SecurityEventView {
            request_id: self.request_id@,
            edge_key: self.edge_key@,
            policy_id: self.policy_id@,
            action: self.action@,
            rule_id: self.rule_id@,
            reason: self.reason@,
            phase: self.phase@,
            status: self.status,
            host: self.host@,
            path: self.path@,
            method: self.method@,
            client_ip: opt_view(self.client_ip),
        }
    }
}

impl View for AccessLog {
    type V = AccessLogView;

    open spec fn view(&self) -> AccessLogView {
        AccessLogView {
            request_id: self.request_id@,
            edge_key: self.edge_key@,
            policy_id: self.policy_id@,
            action: self.action@,
            method: self.method@,
            host: self.host@,
            path: self.path@,
            status: self.status,
            latency_ms: self.latency_ms,
            upstream: opt_view(self.upstream),
            client_ip: opt_view(self.client_ip),
            user_agent: opt_view(self.user_agent),
            error: opt_view(self.error),
        }
    }
}

/// What the proxy remembers of a request, as plain values.
pub struct ProxyCtxView {
    pub ctx: Option<WafContextView>,
    pub request_id: Option<Seq<char>>,
    pub edge_key: Option<Seq<char>>,
    pub upstream: Option<Seq<char>>,
    pub policy_id: Option<Seq<char>>,
    pub action: Option<Seq<char>>,
    pub decision_status: Option<u16>,
    pub req_tail: Seq<u8>,
    pub req_body_rules: Seq<usize>,
    pub resp_tail: Seq<u8>,
    pub resp_body_rules: Seq<usize>,
    pub blocked: bool,
    pub start: Option<u128>,
    pub host: Option<Seq<char>>,
}

impl View for ProxyCtx {
    type V = ProxyCtxView;

    open spec fn view(&self) -> ProxyCtxView {
        ProxyCtxView {
            ctx: match self.ctx {
                Some(c) => Some(c@),
                None => None,
            },
            request_id: opt_view(self.request_id),
            edge_key: opt_view(self.edge_key),
            upstream: opt_view(self.upstream),
            policy_id: opt_view(self.policy_id),
            action: opt_view(self.action),
            decision_status: self.decision_status,
            req_tail: self.req_tail@,
            req_body_rules: self.req_body_rules@,
            resp_tail: self.resp_tail@,
            resp_body_rules: self.resp_body_rules@,
            blocked: self.blocked,
            start: self.start,
            host: opt_view(self.host),
        }
    }
}

pub open spec fn or_text(o: Option<Seq<char>>, default: Seq<char>) -> Seq<char> {
    match o {
        Some(s) => s,
        None => default,
    }
}

/// The context that stands in for a request whose own is not at hand.
pub open spec fn unknown_context(host: Option<Seq<char>>) -> WafContextView {
    WafContextView {
        method: "UNKNOWN"@,
        path: Seq::empty(),
        client_ip: None,
        host,
        user_agent: None,
    }
}

/// The event for a decision on a request: what identifies the request
/// comes from what the proxy remembers of it, with `default` for a missing
/// edge key and `unknown` for a missing policy or host.
pub open spec fn event_of(
    ctx: ProxyCtxView,
    wctx: WafContextView,
    action: Seq<char>,
    rule_id: Seq<char>,
    reason: Seq<char>,
    phase: Seq<char>,
    status: u16,
) -> SecurityEventView {
    SecurityEventView {
        request_id: or_text(ctx.request_id, Seq::empty()),
        edge_key: or_text(ctx.edge_key, "default"@),
        policy_id: or_text(ctx.policy_id, "unknown"@),
        action,
        rule_id,
        reason,
        phase,
        status,
        host: or_text(wctx.host, "unknown"@),
        path: wctx.path,
        method: wctx.method,
        client_ip: wctx.client_ip,
    }
}

/// The headers that a response of the proxy's own goes out with.
pub open spec fn response_headers(r: BlockResponseView) -> Seq<(Seq<char>, Seq<char>)> {
    seq![
        ("content-type"@, r.content_type),
        ("content-length"@, decimal(encode_utf8(r.body).len())),
        ("cache-control"@, "no-store"@),
        ("x-request-id"@, r.request_id),
    ]
}

impl BlockResponse {
    /// The headers of the response, in the order in which they are set.
    pub fn headers(&self) -> (h: Vec<(String, String)>)
        ensures
            Seq::new(h@.len(), |i: int| (h@[i].0@, h@[i].1@)) == response_headers(self@),
    {
        let mut len = String::new();
        push_decimal(&mut len, self.body.as_str().as_bytes().len() as u64);
        let mut h: Vec<(String, String)> = Vec::new();
        h.push(("content-type".to_owned(), self.content_type.clone()));
        h.push(("content-length".to_owned(), len));
        h.push(("cache-control".to_owned(), "no-store".to_owned()));
        h.push(("x-request-id".to_owned(), self.request_id.clone()));
        assert(Seq::new(h@.len(), |i: int| (h@[i].0@, h@[i].1@)) =~= response_headers(self@));
        h
    }
}

/// The id of a request: `req-`, the time in milliseconds, `-`, and the
/// request's number in hexadecimal.
pub open spec fn request_id_of(ts_millis: i64, n: u64) -> Seq<char> {
    "req-"@ + signed_decimal(ts_millis as int) + seq!['-'] + hexadecimal(n as nat)
}

/// The id of the `n`-th request, begun at `ts_millis`.
pub fn gen_request_id(ts_millis: i64, n: u64) -> (id: String)
    ensures
        id@ == request_id_of(ts_millis, n),
{
    let mut id = "req-".to_owned();
    push_signed_decimal(&mut id, ts_millis);
    id.push('-');
    push_hex(&mut id, n);
    id
}

/// A copy of a context.
pub fn clone_context(c: &WafContext) -> (r: WafContext)
    ensures
        r@ == c@,
{
    WafContext {
        method: c.method.clone(),
        path: c.path.clone(),
        client_ip: clone_opt(&c.client_ip),
        host: clone_opt(&c.host),
        user_agent: clone_opt(&c.user_agent),
    }
}

/// What a step asks of the proxy.
pub struct FilterOutcome {
    /// The response to write in place of going upstream; `None` lets the
    /// request go on.
    pub respond: Option<BlockResponse>,
    /// The event to record.
    pub event: Option<SecurityEvent>,
    /// What the policy's rules left to be recorded.
    pub notes: Vec<RuleNote>,
}

pub open spec fn response_view(r: Option<BlockResponse>) -> Option<BlockResponseView> {
    match r {
        Some(r) => Some(r@),
        None => None,
    }
}

pub open spec fn event_view(e: Option<SecurityEvent>) -> Option<SecurityEventView> {
    match e {
        Some(e) => Some(e@),
        None => None,
    }
}

/// What the proxy remembers once the headers of a request are decided on.
/// A block or a challenge marks the request as blocked and keeps its
/// status.
pub open spec fn after_headers(
    before: ProxyCtxView,
    wctx: WafContextView,
    request_id: Seq<char>,
    edge_key: Seq<char>,
    upstream: Seq<char>,
    policy_id: Seq<char>,
    decision: DecisionView,
    req_body_rules: Seq<usize>,
    resp_body_rules: Seq<usize>,
    now: u128,
) -> ProxyCtxView {
    ProxyCtxView {
        ctx: Some(wctx),
        request_id: Some(request_id),
        edge_key: Some(edge_key),
        upstream: Some(upstream),
        policy_id: Some(policy_id),
        action: Some(kind_of(decision)),
        decision_status: match decision {
            DecisionView::Block { status, .. } => Some(status),
            DecisionView::Challenge { status, .. } => Some(status),
            _ => before.decision_status,
        },
        req_tail: before.req_tail,
        req_body_rules,
        resp_tail: before.resp_tail,
        resp_body_rules,
        blocked: before.blocked || decision.is_terminal(),
        start: Some(now),
        host: Some(or_text(wctx.host, "unknown"@)),
    }
}

/// The lower-case name of a decision's kind.
pub open spec fn kind_of(d: DecisionView) -> Seq<char> {
    match d {
        DecisionView::Allow => "allow"@,
        DecisionView::Log { .. } => "log"@,
        DecisionView::Block { .. } => "block"@,
        DecisionView::Challenge { .. } => "challenge"@,
    }
}

/// The event that a decision on the headers is recorded as. An allowed
/// request leaves no event.
pub open spec fn headers_event(after: ProxyCtxView, wctx: WafContextView, decision: DecisionView) -> Option<
    SecurityEventView,
> {
    match decision {
        DecisionView::Allow => None,
        DecisionView::Log { reason, rule_id } => Some(
            event_of(after, wctx, "log"@, rule_id, reason, "request_headers"@, 0),
        ),
        DecisionView::Block { status, reason, rule_id } => Some(
            event_of(after, wctx, "block"@, rule_id, reason, "request_headers"@, status),
        ),
        DecisionView::Challenge { status, reason, rule_id } => Some(
            event_of(after, wctx, "challenge"@, rule_id, reason, "request_headers"@, status),
        ),
    }
}

/// The response that a decision on the headers is answered with: the block
/// page for a block, a line of text for a challenge, and none for a request
/// that goes on.
pub open spec fn headers_response(
    decision: DecisionView,
    template: Seq<char>,
    request_id: Seq<char>,
    time: Seq<char>,
) -> Option<BlockResponseView> {
    match decision {
        DecisionView::Block { status, reason, rule_id } => Some(
            BlockResponseView {
                status,
                content_type: "text/html; charset=utf-8"@,
                body: rendered(template, status, "Forbidden"@, rule_id, reason, request_id, time),
                request_id,
            },
        ),
        DecisionView::Challenge { status, reason, .. } => Some(
            BlockResponseView {
                status,
                content_type: "text/plain; charset=utf-8"@,
                body: "challenge: "@ + reason,
                request_id,
            },
        ),
        _ => None,
    }
}

/// The window of a body scan: the kept tail followed by the chunk.
pub open spec fn body_hit(rules: Seq<CompiledRule>, deferred: Seq<usize>, tail: Seq<u8>, chunk: Seq<u8>) -> Option<
    usize,
> {
    first_body_match(rules, deferred, tail + chunk, 0)
}

/// Whether a chunk of a body is looked at: the request is not blocked yet
/// and rules were set aside for the body.
pub open spec fn scans(blocked: bool, deferred: Seq<usize>, chunk: Option<Seq<u8>>) -> bool {
    !blocked && deferred.len() > 0 && chunk is Some
}

pub open spec fn chunk_view(chunk: Option<&[u8]>) -> Option<Seq<u8>> {
    match chunk {
        Some(c) => Some(c@),
        None => None,
    }
}

/// The context for the events of the body phases.
pub open spec fn body_context(ctx: ProxyCtxView) -> WafContextView {
    match ctx.ctx {
        Some(c) => c,
        None => unknown_context(ctx.host),
    }
}

impl Default for ProxyCtx {
    fn default() -> (c: Self)
        ensures
            c@ == (ProxyCtxView {
                ctx: None,
                request_id: None,
                edge_key: None,
                upstream: None,
                policy_id: None,
                action: None,
                decision_status: None,
                req_tail: Seq::empty(),
                req_body_rules: Seq::empty(),
                resp_tail: Seq::empty(),
                resp_body_rules: Seq::empty(),
                blocked: false,
                start: None,
                host: None,
            }),
    {
        ProxyCtx {
            ctx: None,
            request_id: None,
            edge_key: None,
            upstream: None,
            policy_id: None,
            action: None,
            decision_status: None,
            req_tail: Vec::new(),
            req_body_rules: Vec::new(),
            resp_tail: Vec::new(),
            resp_body_rules: Vec::new(),
            blocked: false,
            start: None,
            host: None,
        }
    }
}

impl ProxyCtx {
    /// The event for a decision on this request.
    pub fn log_event(
        &self,
        wctx: &WafContext,
        action: &str,
        rule_id: &str,
        reason: &str,
        phase: &str,
        status: u16,
    ) -> (e: SecurityEvent)
        ensures
            e@ == event_of(self@, wctx@, action@, rule_id@, reason@, phase@, status),
    {
        proof {
            reveal_strlit("");
            assert(""@ =~= Seq::<char>::empty());
        }
        SecurityEvent {
            request_id: or_default(&self.request_id, ""),
            edge_key: or_default(&self.edge_key, "default"),
            policy_id: or_default(&self.policy_id, "unknown"),
            action: action.to_owned(),
            rule_id: rule_id.to_owned(),
            reason: reason.to_owned(),
            phase: phase.to_owned(),
            status,
            host: or_default(&wctx.host, "unknown"),
            path: wctx.path.clone(),
            method: wctx.method.clone(),
            client_ip: clone_opt(&wctx.client_ip),
        }
    }

    /// Takes the decision on the headers of a request that began at `now`:
    /// keeps what is known of the request, and says what to answer and
    /// what to record. `time` is the time as the block page shows it.
    pub fn on_request_headers(
        &mut self,
        wctx: WafContext,
        request_id: String,
        edge_key: String,
        upstream: String,
        r: EnforceResult,
        page: &BlockPage,
        time: &str,
        now: u128,
    ) -> (out: FilterOutcome)
        ensures
            final(self)@ == after_headers(
                old(self)@,
                wctx@,
                request_id@,
                edge_key@,
                upstream@,
                r.policy_id@,
                r.decision@,
                r.req_body_rules@,
                r.resp_body_rules@,
                now,
            ),
            event_view(out.event) == headers_event(final(self)@, wctx@, r.decision@),
            response_view(out.respond) == headers_response(
                r.decision@,
                page.template(),
                request_id@,
                time@,
            ),
            note_views(out.notes@) == note_views(r.notes@),
    {
        self.start = Some(now);
        self.host = Some(or_default(&wctx.host, "unknown"));
        self.edge_key = Some(edge_key);
        self.upstream = Some(upstream);
        self.policy_id = Some(r.policy_id);
        self.req_body_rules = r.req_body_rules;
        self.resp_body_rules = r.resp_body_rules;
        self.action = Some(r.decision.kind_str().to_owned());
        self.request_id = Some(request_id.clone());
        self.ctx = Some(clone_context(&wctx));
        let notes = r.notes;
        match r.decision {
            Decision::Allow => FilterOutcome { respond: None, event: None, notes },
            Decision::Log { reason, rule_id } => {
                let event = self.log_event(
                    &wctx,
                    "log",
                    rule_id.as_str(),
                    reason.as_str(),
                    "request_headers",
                    0,
                );
                FilterOutcome { respond: None, event: Some(event), notes }
            },
            Decision::Block { status, reason, rule_id } => {
                self.blocked = true;
                self.decision_status = Some(status);
                let event = self.log_event(
                    &wctx,
                    "block",
                    rule_id.as_str(),
                    reason.as_str(),
                    "request_headers",
                    status,
                );
                let body = page.render_403(
                    status,
                    "Forbidden",
                    rule_id.as_str(),
                    reason.as_str(),
                    request_id.as_str(),
                    time,
                );
                let respond = BlockResponse {
                    status,
                    content_type: "text/html; charset=utf-8".to_owned(),
                    body,
                    request_id,
                };
                FilterOutcome { respond: Some(respond), event: Some(event), notes }
            },
            Decision::Challenge { status, reason, rule_id } => {
                self.blocked = true;
                self.decision_status = Some(status);
                let event = self.log_event(
                    &wctx,
                    "challenge",
                    rule_id.as_str(),
                    reason.as_str(),
                    "request_headers",
                    status,
                );
                let mut body = "challenge: ".to_owned();
                body.append(reason.as_str());
                let respond = BlockResponse {
                    status,
                    content_type: "text/plain; charset=utf-8".to_owned(),
                    body,
                    request_id,
                };
                FilterOutcome { respond: Some(respond), event: Some(event), notes }
            },
        }
    }

    /// The context for the events of the body phases: the request's own,
    /// or one that says `UNKNOWN` where the proxy has none.
    fn context_for_body(&self) -> (c: WafContext)
        ensures
            c@ == body_context(self@),
    {
        match &self.ctx {
            Some(c) => clone_context(c),
            None => WafContext {
                method: "UNKNOWN".to_owned(),
                path: String::new(),
                client_ip: None,
                host: clone_opt(&self.host),
                user_agent: None,
            },
        }
    }

    /// Takes a chunk of the request body. Nothing is looked at once the
    /// request is blocked, where no rule was set aside for the body, or
    /// without a chunk. Where a body pattern is found, the request is
    /// blocked with status 403: the chunk is to be dropped, the event
    /// recorded and the response written; it carries the request's id, or
    /// `fresh_id` where the request has none. Else the end of the body seen
    /// so far is kept for the next chunk.
    pub fn on_request_body(
        &mut self,
        chunk: Option<&[u8]>,
        ruleset: &CompiledRuleset,
        fresh_id: &str,
    ) -> (out: FilterOutcome)
        requires
            chunk matches Some(c) ==> old(self).req_tail@.len() + c@.len() <= usize::MAX,
        ensures
            out.notes@.len() == 0,
            ({
                let before = old(self)@;
                if !scans(before.blocked, before.req_body_rules, chunk_view(chunk)) {
                    &&& final(self)@ == before
                    &&& out.respond is None
                    &&& out.event is None
                } else {
                    let c = chunk_view(chunk).unwrap();
                    match body_hit(ruleset.rules@, before.req_body_rules, before.req_tail, c) {
                        Some(idx) => {
                            let after = ProxyCtxView {
                                blocked: true,
                                action: Some("block"@),
                                decision_status: Some(403),
                                ..before
                            };
                            &&& final(self)@ == after
                            &&& event_view(out.event) == Some(
                                event_of(
                                    after,
                                    body_context(after),
                                    "block"@,
                                    ruleset.rules@[idx as int].id@,
                                    "request body match"@,
                                    "request_body"@,
                                    403,
                                ),
                            )
                            &&& response_view(out.respond) == Some(
                                BlockResponseView {
                                    status: 403,
                                    content_type: "text/plain; charset=utf-8"@,
                                    body: "blocked by WAF (request body)"@,
                                    request_id: or_text(before.request_id, fresh_id@),
                                },
                            )
                        },
                        None => {
                            &&& final(self)@ == ProxyCtxView {
                                req_tail: retained(
                                    before.req_tail + c,
                                    keep_of(ruleset.rules@, before.req_body_rules),
                                    before.req_tail,
                                ),
                                ..before
                            }
                            &&& out.respond is None
                            &&& out.event is None
                        },
                    }
                }
            }),
    {
        if self.blocked || self.req_body_rules.len() == 0 {
            return FilterOutcome { respond: None, event: None, notes: Vec::new() };
        }
        let chunk: &[u8] = match chunk {
            Some(c) => c,
            None => {
                return FilterOutcome { respond: None, event: None, notes: Vec::new() };
            },
        };
        match scan_chunk(&mut self.req_tail, chunk, &self.req_body_rules, ruleset) {
            Some(idx) => {
                proof {
                    lemma_match_in_range(ruleset.rules@, self.req_body_rules@, old(self).req_tail@ + chunk@, 0);
                }
                self.blocked = true;
                self.action = Some("block".to_owned());
                self.decision_status = Some(BODY_BLOCK_STATUS);
                let wctx = self.context_for_body();
                let event = self.log_event(
                    &wctx,
                    "block",
                    ruleset.rules[idx].id.as_str(),
                    "request body match",
                    "request_body",
                    BODY_BLOCK_STATUS,
                );
                let respond = BlockResponse {
                    status: BODY_BLOCK_STATUS,
                    content_type: "text/plain; charset=utf-8".to_owned(),
                    body: "blocked by WAF (request body)".to_owned(),
                    request_id: or_default(&self.request_id, fresh_id),
                };
                FilterOutcome { respond: Some(respond), event: Some(event), notes: Vec::new() }
            },
            None => FilterOutcome { respond: None, event: None, notes: Vec::new() },
        }
    }

    /// Takes a chunk of the response body. Nothing is looked at once the
    /// request is blocked, where no rule was set aside for the response
    /// body, or without a chunk. Where a body pattern is found, the
    /// response ends there: the chunk is to be dropped and the event
    /// recorded. Else the end of the body seen so far is kept for the next
    /// chunk.
    pub fn on_response_body(&mut self, chunk: Option<&[u8]>, ruleset: &CompiledRuleset) -> (event:
        Option<SecurityEvent>)
        requires
            chunk matches Some(c) ==> old(self).resp_tail@.len() + c@.len() <= usize::MAX,
        ensures
            ({
                let before = old(self)@;
                if !scans(before.blocked, before.resp_body_rules, chunk_view(chunk)) {
                    &&& final(self)@ == before
                    &&& event is None
                } else {
                    let c = chunk_view(chunk).unwrap();
                    match body_hit(ruleset.rules@, before.resp_body_rules, before.resp_tail, c) {
                        Some(idx) => {
                            let after = ProxyCtxView {
                                blocked: true,
                                action: Some("block"@),
                                ..before
                            };
                            &&& final(self)@ == after
                            &&& event_view(event) == Some(
                                event_of(
                                    after,
                                    body_context(after),
                                    "block"@,
                                    ruleset.rules@[idx as int].id@,
                                    "response body match"@,
                                    "response_body"@,
                                    0,
                                ),
                            )
                        },
                        None => {
                            &&& final(self)@ == ProxyCtxView {
                                resp_tail: retained(
                                    before.resp_tail + c,
                                    keep_of(ruleset.rules@, before.resp_body_rules),
                                    before.resp_tail,
                                ),
                                ..before
                            }
                            &&& event is None
                        },
                    }
                }
            }),
    {
        if self.blocked || self.resp_body_rules.len() == 0 {
            return None;
        }
        let chunk: &[u8] = match chunk {
            Some(c) => c,
            None => {
                return None;
            },
        };
        match scan_chunk(&mut self.resp_tail, chunk, &self.resp_body_rules, ruleset) {
            Some(idx) => {
                proof {
                    lemma_match_in_range(ruleset.rules@, self.resp_body_rules@, old(self).resp_tail@ + chunk@, 0);
                }
                self.blocked = true;
                self.action = Some("block".to_owned());
                let wctx = self.context_for_body();
                Some(
                    self.log_event(
                        &wctx,
                        "block",
                        ruleset.rules[idx].id.as_str(),
                        "response body match",
                        "response_body",
                        0,
                    ),
                )
            },
            None => None,
        }
    }

    /// The record of the finished request. `session` is what the session
    /// itself tells of the request, for a request whose context was never
    /// built; `latency_ms` the time the request took.
    pub fn access_log(&self, session: &WafContext, latency_ms: u64, error: Option<String>) -> (log:
        AccessLog)
        ensures
            ({
                let c = self@;
                let wctx = match c.ctx {
                    Some(w) => w,
                    None => WafContextView { host: c.host, user_agent: None, ..session@ },
                };
                log@ == AccessLogView {
                    request_id: or_text(c.request_id, Seq::empty()),
                    edge_key: or_text(c.edge_key, "default"@),
                    policy_id: or_text(c.policy_id, "unknown"@),
                    action: or_text(c.action, "allow"@),
                    method: wctx.method,
                    host: or_text(wctx.host, or_text(c.host, "unknown"@)),
                    path: wctx.path,
                    status: match c.decision_status {
                        Some(s) => s,
                        None => 200,
                    },
                    latency_ms,
                    upstream: c.upstream,
                    client_ip: wctx.client_ip,
                    user_agent: wctx.user_agent,
                    error: opt_view(error),
                }
            }),
    {
        let wctx = match &self.ctx {
            Some(w) => clone_context(w),
            None => WafContext {
                method: session.method.clone(),
                path: session.path.clone(),
                client_ip: clone_opt(&session.client_ip),
                host: clone_opt(&self.host),
                user_agent: None,
            },
        };
        let host_default = or_default(&self.host, "unknown");
        proof {
            reveal_strlit("");
            assert(""@ =~= Seq::<char>::empty());
        }
        AccessLog {
            request_id: or_default(&self.request_id, ""),
            edge_key: or_default(&self.edge_key, "default"),
            policy_id: or_default(&self.policy_id, "unknown"),
            action: or_default(&self.action, "allow"),
            method: wctx.method,
            host: or_default(&wctx.host, host_default.as_str()),
            path: wctx.path,
            status: match self.decision_status {
                Some(s) => s,
                None => DEFAULT_ACCESS_STATUS,
            },
            latency_ms,
            upstream: clone_opt(&self.upstream),
            client_ip: wctx.client_ip,
            user_agent: wctx.user_agent,
            error,
        }
    }
}

/// A rule that a body scan reports is one of the ruleset.
pub proof fn lemma_match_in_range(
    rules: Seq<CompiledRule>,
    deferred: Seq<usize>,
    window: Seq<u8>,
    from: int,
)
    requires
        0 <= from <= deferred.len(),
    ensures
        first_body_match(rules, deferred, window, from) matches Some(idx) ==> idx < rules.len(),
    decreases deferred.len() - from,
{
    if from < deferred.len() {
        lemma_match_in_range(rules, deferred, window, from + 1);
    }
}

} // verus!
