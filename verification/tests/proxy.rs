use pingora_waf::policy::enforcer::EnforceResult;
use pingora_waf::policy::protection::engine::RuleNote;
use pingora_waf::server::block_page::BlockPage;
use pingora_waf::server::proxy::{gen_request_id, BlockResponse, ProxyCtx};
use pingora_waf::waf::context::WafContext;
use pingora_waf::waf::decision::Decision;
use pingora_waf::waf::rules::compiler::CompiledRuleset;
use pingora_waf::waf::rules::rule::{Action, Rule, Ruleset, When};

fn wctx() -> WafContext {
    WafContext {
        method: "POST".to_string(),
        path: "/api/x".to_string(),
        client_ip: Some("1.2.3.4".to_string()),
        host: Some("example.com".to_string()),
        user_agent: Some("curl/8".to_string()),
    }
}

fn result(decision: Decision, deferred: Vec<usize>) -> EnforceResult {
    EnforceResult {
        decision,
        policy_id: "strict".to_string(),
        req_body_rules: deferred.clone(),
        resp_body_rules: deferred,
        notes: vec![RuleNote::Log { rule_id: "l".to_string(), reason: "why".to_string() }],
    }
}

fn page() -> BlockPage {
    BlockPage::with_template("{{status}} {{rule_id}} {{reason}} {{request_id}} {{time}}".to_string())
}

fn ruleset() -> CompiledRuleset {
    let rule = Rule {
        id: "sqli".to_string(),
        _description: None,
        when: When {
            methods: None,
            path_prefix: Some(vec!["/api/".to_string()]),
            uri_ac: None,
            body_ac: Some(vec!["DROP TABLE".to_string()]),
            header_regex: None,
        },
        action: Action::Block,
    };
    CompiledRuleset::compile(&Ruleset { version: None, rules: vec![rule] }).unwrap()
}

fn after_headers(decision: Decision, deferred: Vec<usize>) -> (ProxyCtx, pingora_waf::server::proxy::FilterOutcome) {
    let mut c = ProxyCtx::default();
    let out = c.on_request_headers(
        wctx(),
        "req-1".to_string(),
        "42".to_string(),
        "u1".to_string(),
        result(decision, deferred),
        &page(),
        "T",
        77,
    );
    (c, out)
}

#[test]
fn request_ids() {
    assert_eq!(gen_request_id(1700000000123, 255), "req-1700000000123-ff");
    assert_eq!(gen_request_id(0, 0), "req-0-0");
    assert_eq!(gen_request_id(-5, 16), "req--5-10");
    assert_eq!(gen_request_id(i64::MIN, u64::MAX), "req--9223372036854775808-ffffffffffffffff");
}

#[test]
fn fresh_context_is_empty() {
    let c = ProxyCtx::default();
    assert!(c.ctx.is_none() && c.request_id.is_none() && c.edge_key.is_none());
    assert!(c.upstream.is_none() && c.policy_id.is_none() && c.action.is_none());
    assert!(c.decision_status.is_none() && c.start.is_none() && c.host.is_none());
    assert!(c.req_tail.is_empty() && c.resp_tail.is_empty());
    assert!(c.req_body_rules.is_empty() && c.resp_body_rules.is_empty());
    assert!(!c.blocked);
}

#[test]
fn allowed_request_goes_on() {
    let (c, out) = after_headers(Decision::Allow, vec![0]);
    assert!(out.respond.is_none() && out.event.is_none());
    assert_eq!(out.notes.len(), 1);
    assert!(matches!(&out.notes[0], RuleNote::Log { rule_id, reason } if rule_id == "l" && reason == "why"));
    assert!(!c.blocked);
    assert_eq!(c.action, Some("allow".to_string()));
    assert_eq!(c.request_id, Some("req-1".to_string()));
    assert_eq!(c.edge_key, Some("42".to_string()));
    assert_eq!(c.upstream, Some("u1".to_string()));
    assert_eq!(c.policy_id, Some("strict".to_string()));
    assert_eq!(c.host, Some("example.com".to_string()));
    assert_eq!(c.start, Some(77));
    assert_eq!(c.req_body_rules, vec![0]);
    assert_eq!(c.resp_body_rules, vec![0]);
    assert_eq!(c.decision_status, None);
    assert_eq!(c.ctx.unwrap().path, "/api/x");
}

#[test]
fn logged_request_goes_on_with_an_event() {
    let (c, out) = after_headers(Decision::log("r-log", "seen"), vec![]);
    assert!(out.respond.is_none());
    let e = out.event.unwrap();
    assert_eq!(e.action, "log");
    assert_eq!(e.rule_id, "r-log");
    assert_eq!(e.reason, "seen");
    assert_eq!(e.phase, "request_headers");
    assert_eq!(e.status, 0);
    assert!(!c.blocked);
    assert_eq!(c.action, Some("log".to_string()));
}

#[test]
fn blocked_request_gets_the_block_page() {
    let (c, out) = after_headers(Decision::block_with_status(451, "r<1>", "a&b"), vec![]);
    let r = out.respond.unwrap();
    assert_eq!(r.status, 451);
    assert_eq!(r.content_type, "text/html; charset=utf-8");
    assert_eq!(r.body, "451 r&lt;1&gt; a&amp;b req-1 T");
    assert_eq!(r.request_id, "req-1");
    let e = out.event.unwrap();
    assert_eq!(e.request_id, "req-1");
    assert_eq!(e.edge_key, "42");
    assert_eq!(e.policy_id, "strict");
    assert_eq!(e.action, "block");
    assert_eq!(e.rule_id, "r<1>");
    assert_eq!(e.reason, "a&b");
    assert_eq!(e.phase, "request_headers");
    assert_eq!(e.status, 451);
    assert_eq!(e.host, "example.com");
    assert_eq!(e.path, "/api/x");
    assert_eq!(e.method, "POST");
    assert_eq!(e.client_ip, Some("1.2.3.4".to_string()));
    assert!(c.blocked);
    assert_eq!(c.decision_status, Some(451));
    assert_eq!(c.action, Some("block".to_string()));
}

#[test]
fn challenged_request_gets_a_line_of_text() {
    let (c, out) = after_headers(Decision::challenge("r2", "prove it"), vec![]);
    let r = out.respond.unwrap();
    assert_eq!(r.status, 403);
    assert_eq!(r.content_type, "text/plain; charset=utf-8");
    assert_eq!(r.body, "challenge: prove it");
    assert_eq!(out.event.unwrap().action, "challenge");
    assert!(c.blocked);
    assert_eq!(c.decision_status, Some(403));
}

#[test]
fn response_headers() {
    let r = BlockResponse {
        status: 403,
        content_type: "text/plain; charset=utf-8".to_string(),
        body: "blöcked".to_string(),
        request_id: "req-9".to_string(),
    };
    let want: Vec<(String, String)> = [
        ("content-type", "text/plain; charset=utf-8"),
        ("content-length", "8"),
        ("cache-control", "no-store"),
        ("x-request-id", "req-9"),
    ]
    .iter()
    .map(|(a, b)| (a.to_string(), b.to_string()))
    .collect();
    assert_eq!(r.headers(), want);
}

#[test]
fn request_body_match_across_chunks_blocks_with_403() {
    let rs = ruleset();
    let (mut c, _) = after_headers(Decision::Allow, vec![0]);
    let out = c.on_request_body(Some(b"SELECT * ; DRO"), &rs, "fresh");
    assert!(out.respond.is_none() && out.event.is_none());
    assert!(!c.blocked);
    assert_eq!(c.req_tail, b"T * ; DRO".to_vec());
    let out = c.on_request_body(Some(b"P TABLE users"), &rs, "fresh");
    let r = out.respond.unwrap();
    assert_eq!(r.status, 403);
    assert_eq!(r.content_type, "text/plain; charset=utf-8");
    assert_eq!(r.body, "blocked by WAF (request body)");
    assert_eq!(r.request_id, "req-1");
    let e = out.event.unwrap();
    assert_eq!(e.action, "block");
    assert_eq!(e.rule_id, "sqli");
    assert_eq!(e.reason, "request body match");
    assert_eq!(e.phase, "request_body");
    assert_eq!(e.status, 403);
    assert_eq!(e.method, "POST");
    assert!(c.blocked);
    assert_eq!(c.action, Some("block".to_string()));
    assert_eq!(c.decision_status, Some(403));
    // Nothing more is looked at.
    let out = c.on_request_body(Some(b"DROP TABLE"), &rs, "fresh");
    assert!(out.respond.is_none() && out.event.is_none());
}

#[test]
fn request_body_is_not_scanned_without_rules_or_chunk() {
    let rs = ruleset();
    let (mut c, _) = after_headers(Decision::Allow, vec![]);
    let out = c.on_request_body(Some(b"DROP TABLE"), &rs, "fresh");
    assert!(out.respond.is_none());
    assert!(c.req_tail.is_empty());
    let (mut c, _) = after_headers(Decision::Allow, vec![0]);
    let out = c.on_request_body(None, &rs, "fresh");
    assert!(out.respond.is_none());
    assert!(c.req_tail.is_empty());
}

#[test]
fn body_block_without_context_uses_placeholders() {
    let rs = ruleset();
    let mut c = ProxyCtx::default();
    c.req_body_rules = vec![0];
    c.host = Some("h.example".to_string());
    let out = c.on_request_body(Some(b"drop table"), &rs, "fresh-7");
    assert_eq!(out.respond.unwrap().request_id, "fresh-7");
    let e = out.event.unwrap();
    assert_eq!(e.request_id, "");
    assert_eq!(e.edge_key, "default");
    assert_eq!(e.policy_id, "unknown");
    assert_eq!(e.method, "UNKNOWN");
    assert_eq!(e.path, "");
    assert_eq!(e.host, "h.example");
    assert_eq!(e.client_ip, None);
}

#[test]
fn response_body_match_ends_the_response() {
    let rs = ruleset();
    let (mut c, _) = after_headers(Decision::Allow, vec![0]);
    assert!(c.on_response_body(Some(b"xx drop ta"), &rs).is_none());
    assert_eq!(c.resp_tail, b"x drop ta".to_vec());
    let e = c.on_response_body(Some(b"ble"), &rs).unwrap();
    assert_eq!(e.action, "block");
    assert_eq!(e.rule_id, "sqli");
    assert_eq!(e.reason, "response body match");
    assert_eq!(e.phase, "response_body");
    assert_eq!(e.status, 0);
    assert!(c.blocked);
    assert_eq!(c.action, Some("block".to_string()));
    assert_eq!(c.decision_status, None);
    assert!(c.on_response_body(Some(b"drop table"), &rs).is_none());
    assert!(c.req_tail.is_empty());
}

#[test]
fn access_log_of_a_decided_request() {
    let (c, _) = after_headers(Decision::block_with_status(429, "r", "x"), vec![]);
    let session = WafContext {
        method: "GET".to_string(),
        path: "/other".to_string(),
        client_ip: None,
        host: None,
        user_agent: None,
    };
    let log = c.access_log(&session, 12, Some("boom".to_string()));
    assert_eq!(log.request_id, "req-1");
    assert_eq!(log.edge_key, "42");
    assert_eq!(log.policy_id, "strict");
    assert_eq!(log.action, "block");
    assert_eq!(log.method, "POST");
    assert_eq!(log.host, "example.com");
    assert_eq!(log.path, "/api/x");
    assert_eq!(log.status, 429);
    assert_eq!(log.latency_ms, 12);
    assert_eq!(log.upstream, Some("u1".to_string()));
    assert_eq!(log.client_ip, Some("1.2.3.4".to_string()));
    assert_eq!(log.user_agent, Some("curl/8".to_string()));
    assert_eq!(log.error, Some("boom".to_string()));
}

#[test]
fn access_log_of_a_request_that_never_got_a_context() {
    let c = ProxyCtx::default();
    let session = WafContext {
        method: "GET".to_string(),
        path: "/raw".to_string(),
        client_ip: Some("9.9.9.9".to_string()),
        host: Some("ignored".to_string()),
        user_agent: Some("ignored".to_string()),
    };
    let log = c.access_log(&session, 0, None);
    assert_eq!(log.request_id, "");
    assert_eq!(log.edge_key, "default");
    assert_eq!(log.policy_id, "unknown");
    assert_eq!(log.action, "allow");
    assert_eq!(log.method, "GET");
    assert_eq!(log.host, "unknown");
    assert_eq!(log.path, "/raw");
    assert_eq!(log.status, 200);
    assert_eq!(log.upstream, None);
    assert_eq!(log.client_ip, Some("9.9.9.9".to_string()));
    assert_eq!(log.user_agent, None);
    assert_eq!(log.error, None);
}
