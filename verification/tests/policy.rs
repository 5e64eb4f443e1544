use pingora_waf::policy::compiled::compile_policy;
use pingora_waf::policy::domain_map::{DomainMapFile, DomainTarget};
use pingora_waf::policy::enforcer::PolicyEnforcer;
use pingora_waf::policy::manager::{PolicyLoadError, PolicyManager};
use pingora_waf::policy::protection::matcher::HeaderList;
use pingora_waf::policy::protection::types::{
    ActionSpec, AllowSpec, BlockSpec, CcSpec, HeaderRegex, MatchExpr, OnLimitActionSpec,
    ProtectionsSpec, RuleSpec,
};
use pingora_waf::policy::types::{PolicyFile, WafConfig};
use pingora_waf::policy::update::{DomainMapUpdater, PolicyDirUpdater};
use pingora_waf::waf::context::WafContext;
use pingora_waf::waf::decision::Decision;
use pingora_waf::waf::engine::WafEngine;
use pingora_waf::waf::rules::compiler::CompiledRuleset;
use pingora_waf::waf::rules::rule::{Action, Rule, Ruleset, When};

fn block_all(id: &str) -> RuleSpec {
    RuleSpec {
        id: id.to_string(),
        match_expr: MatchExpr::Any,
        action: ActionSpec::Block { block: BlockSpec { status: 403, reason: "deny all".to_string() } },
    }
}

fn allow_all(id: &str) -> RuleSpec {
    RuleSpec {
        id: id.to_string(),
        match_expr: MatchExpr::Any,
        action: ActionSpec::Allow { allow: AllowSpec { reason: None } },
    }
}

fn policy(id: &str, precise: Vec<RuleSpec>, base: Vec<RuleSpec>, waf: bool) -> PolicyFile {
    PolicyFile {
        version: 1,
        id: id.to_string(),
        protections: ProtectionsSpec { precise, base },
        waf: WafConfig { enabled: waf, ruleset: None },
    }
}

fn domain_map(entries: &[(&str, &str)], default: &str) -> DomainMapFile {
    DomainMapFile {
        version: 1,
        domains: entries
            .iter()
            .map(|(k, p)| (k.to_string(), DomainTarget { policy: p.to_string() }))
            .collect(),
        default_policy: default.to_string(),
    }
}

fn scenario_map() -> DomainMapFile {
    domain_map(
        &[("a.example.com", "strict"), ("*.example.com", "wild"), ("*.com", "tld")],
        "dflt",
    )
}

fn scenario_policies() -> Vec<PolicyFile> {
    vec![
        policy("strict", vec![block_all("deny")], vec![], false),
        policy("wild", vec![], vec![allow_all("ok")], false),
        policy("tld", vec![], vec![allow_all("ok")], false),
        policy("dflt", vec![], vec![allow_all("ok")], false),
    ]
}

fn ctx(method: &str, path: &str, host: Option<&str>) -> WafContext {
    WafContext {
        method: method.to_string(),
        path: path.to_string(),
        client_ip: Some("1.2.3.4".to_string()),
        host: host.map(|h| h.to_string()),
        user_agent: None,
    }
}

fn engine(rules: Vec<Rule>) -> WafEngine {
    WafEngine::new(CompiledRuleset::compile(&Ruleset { version: None, rules }).unwrap())
}

fn waf_rule(id: &str, prefix: &str, action: Action) -> Rule {
    Rule {
        id: id.to_string(),
        _description: None,
        when: When {
            methods: None,
            path_prefix: Some(vec![prefix.to_string()]),
            uri_ac: None,
            body_ac: None,
            header_regex: None,
        },
        action,
    }
}

#[test]
fn policy_is_resolved_by_host() {
    let st = PolicyManager::load_from_files(scenario_map(), &scenario_policies()).unwrap();
    let mgr = PolicyManager::new(st);
    assert_eq!(mgr.get_policy_for_host("a.example.com").id, "strict");
    assert_eq!(mgr.get_policy_for_host("b.example.com").id, "wild");
    assert_eq!(mgr.get_policy_for_host("foo.net").id, "dflt");
    assert_eq!(mgr.get_policy_for_host("").id, "dflt");
}

#[test]
fn scenario_hosts_get_their_policies_applied() {
    let st = PolicyManager::load_from_files(scenario_map(), &scenario_policies()).unwrap();
    let mut enf = PolicyEnforcer::new(PolicyManager::new(st), engine(vec![]));
    let h = HeaderList::new();
    let r = enf.enforce_request_headers(&ctx("GET", "/", Some("a.example.com")), &h, 0);
    assert_eq!(r.policy_id, "strict");
    assert!(matches!(r.decision, Decision::Block { status: 403, .. }));
    let r = enf.enforce_request_headers(&ctx("GET", "/", Some("b.example.com")), &h, 0);
    assert_eq!(r.policy_id, "wild");
    assert!(matches!(r.decision, Decision::Allow));
    let r = enf.enforce_request_headers(&ctx("GET", "/", Some("foo.net")), &h, 0);
    assert_eq!(r.policy_id, "dflt");
    assert!(matches!(r.decision, Decision::Allow));
}

#[test]
fn unknown_policy_id_falls_to_default_policy() {
    let st = PolicyManager::load_from_files(
        domain_map(&[("a.com", "missing")], "dflt"),
        &vec![policy("dflt", vec![], vec![], false)],
    )
    .unwrap();
    let mgr = PolicyManager::new(st);
    assert_eq!(mgr.get_policy_for_host("a.com").id, "dflt");
}

#[test]
fn missing_default_policy_is_refused() {
    match PolicyManager::load_from_files(
        domain_map(&[], "dflt"),
        &vec![policy("strict", vec![], vec![], false)],
    ) {
        Err(PolicyLoadError::MissingDefault { id }) => {
            assert_eq!(id, "dflt");
            let e = PolicyLoadError::MissingDefault { id };
            assert_eq!(e.message(), "default policy 'dflt' not found");
        }
        Err(other) => panic!("unexpected {:?}", other),
        Ok(_) => panic!("loaded without a default policy"),
    }
}

#[test]
fn policy_that_does_not_compile_is_refused() {
    let bad = RuleSpec {
        id: "bad".to_string(),
        match_expr: MatchExpr::HeaderRegex {
            header_regex: HeaderRegex { name: "x".to_string(), pattern: "[".to_string() },
        },
        action: ActionSpec::Allow { allow: AllowSpec { reason: None } },
    };
    let files = vec![policy("dflt", vec![], vec![], false), policy("strict", vec![], vec![bad], false)];
    match PolicyManager::load_from_files(domain_map(&[], "dflt"), &files) {
        Err(PolicyLoadError::Compile(e)) => {
            assert!(e.message().starts_with("bad header_regex pattern for x: "));
        }
        Err(other) => panic!("unexpected {:?}", other),
        Ok(_) => panic!("loaded a policy that does not compile"),
    }
    assert!(compile_policy(&files[1]).is_err());
    assert!(compile_policy(&files[0]).is_ok());
}

#[test]
fn later_policy_file_of_an_id_replaces_the_earlier() {
    let files = vec![
        policy("dflt", vec![block_all("first")], vec![], false),
        policy("dflt", vec![], vec![], true),
    ];
    let st = PolicyManager::load_from_files(domain_map(&[], "dflt"), &files).unwrap();
    let mgr = PolicyManager::new(st);
    let p = mgr.get_policy_for_host("x");
    assert!(p.precise.is_empty());
    assert!(p.waf.enabled);
}

#[test]
fn state_without_its_default_uses_the_fallback() {
    let st = PolicyManager::load_from_files(scenario_map(), &scenario_policies()).unwrap();
    let mut mgr = PolicyManager::new(st);
    // A state put together by hand may lack its default policy.
    let other =
        PolicyManager::load_from_files(domain_map(&[], "X"), &vec![policy("X", vec![], vec![], true)])
            .unwrap();
    let mut broken =
        PolicyManager::load_from_files(domain_map(&[], "dflt"), &vec![policy("dflt", vec![], vec![], true)])
            .unwrap();
    broken.policies = other.policies;
    mgr.swap(broken);
    let p = mgr.get_policy_for_host("a.example.com");
    assert_eq!(p.id, "policy-fallback");
    assert_eq!(p.version, 1);
    assert!(!p.waf.enabled);
    assert!(p.precise.is_empty() && p.base.is_empty());
}

fn admin_policy(waf: bool) -> PolicyFile {
    let precise = RuleSpec {
        id: "admin-post".to_string(),
        match_expr: MatchExpr::And {
            and: vec![
                MatchExpr::MethodIn { method_in: vec!["POST".to_string()] },
                MatchExpr::PathPrefix { path_prefix: "/admin".to_string() },
            ],
        },
        action: ActionSpec::Block { block: BlockSpec { status: 403, reason: "no".to_string() } },
    };
    policy("dflt", vec![precise], vec![allow_all("base-allow")], waf)
}

#[test]
fn precise_block_preempts_base_and_rule_engine() {
    let st = PolicyManager::load_from_files(domain_map(&[], "dflt"), &vec![admin_policy(true)]).unwrap();
    let mut enf = PolicyEnforcer::new(
        PolicyManager::new(st),
        engine(vec![waf_rule("w1", "/admin", Action::Challenge)]),
    );
    let h = HeaderList::new();
    let r = enf.enforce_request_headers(&ctx("POST", "/admin/x", Some("h")), &h, 0);
    match r.decision {
        Decision::Block { status, rule_id, reason } => {
            assert_eq!(status, 403);
            assert_eq!(rule_id, "admin-post");
            assert_eq!(reason, "no");
        }
        other => panic!("unexpected {:?}", other),
    }
    assert!(r.req_body_rules.is_empty() && r.resp_body_rules.is_empty());
    // GET passes both rule lists and reaches the rule engine.
    let r = enf.enforce_request_headers(&ctx("GET", "/admin/x", Some("h")), &h, 0);
    match r.decision {
        Decision::Challenge { status, rule_id, reason } => {
            assert_eq!(status, 403);
            assert_eq!(rule_id, "w1");
            assert_eq!(reason, "challenge");
        }
        other => panic!("unexpected {:?}", other),
    }
}

#[test]
fn rule_engine_is_skipped_when_switched_off() {
    let st = PolicyManager::load_from_files(domain_map(&[], "dflt"), &vec![admin_policy(false)]).unwrap();
    let mut enf = PolicyEnforcer::new(
        PolicyManager::new(st),
        engine(vec![waf_rule("w1", "/", Action::Block)]),
    );
    let r = enf.enforce_request_headers(&ctx("GET", "/admin/x", None), &HeaderList::new(), 0);
    assert!(matches!(r.decision, Decision::Allow));
    assert!(r.req_body_rules.is_empty());
}

#[test]
fn base_block_preempts_rule_engine() {
    let p = policy("dflt", vec![allow_all("p")], vec![block_all("base-deny")], true);
    let st = PolicyManager::load_from_files(domain_map(&[], "dflt"), &vec![p]).unwrap();
    let mut enf =
        PolicyEnforcer::new(PolicyManager::new(st), engine(vec![waf_rule("w1", "/", Action::Allow)]));
    let r = enf.enforce_request_headers(&ctx("GET", "/", None), &HeaderList::new(), 0);
    match r.decision {
        Decision::Block { rule_id, .. } => assert_eq!(rule_id, "base-deny"),
        other => panic!("unexpected {:?}", other),
    }
    assert!(r.notes.is_empty());
}

#[test]
fn notes_of_both_rule_lists_come_in_order() {
    let log = |id: &str| RuleSpec {
        id: id.to_string(),
        match_expr: MatchExpr::Any,
        action: ActionSpec::Log {
            log: pingora_waf::policy::protection::types::LogSpec { reason: id.to_string() },
        },
    };
    let p = policy("dflt", vec![log("one")], vec![log("two"), block_all("stop"), log("three")], true);
    let st = PolicyManager::load_from_files(domain_map(&[], "dflt"), &vec![p]).unwrap();
    let mut enf = PolicyEnforcer::new(PolicyManager::new(st), engine(vec![]));
    let r = enf.enforce_request_headers(&ctx("GET", "/", None), &HeaderList::new(), 0);
    assert!(matches!(r.decision, Decision::Block { .. }));
    let ids: Vec<String> = r
        .notes
        .iter()
        .map(|n| match n {
            pingora_waf::policy::protection::engine::RuleNote::Log { rule_id, .. } => rule_id.clone(),
            pingora_waf::policy::protection::engine::RuleNote::LimitHit { rule_id, .. } => rule_id.clone(),
        })
        .collect();
    assert_eq!(ids, vec!["one".to_string(), "two".to_string()]);
}

fn cc_policy() -> PolicyFile {
    let cc = RuleSpec {
        id: "cc".to_string(),
        match_expr: MatchExpr::Any,
        action: ActionSpec::Cc {
            cc: CcSpec {
                key_parts: vec!["client_ip".to_string()],
                window_secs: 60,
                max_requests: 1,
                block_secs: 60,
                on_limit: OnLimitActionSpec::Block {
                    block: BlockSpec { status: 429, reason: "x".to_string() },
                },
            },
        },
    };
    policy("dflt", vec![cc], vec![], false)
}

#[test]
fn reload_keeps_what_the_limiter_counted() {
    let st = PolicyManager::load_from_files(domain_map(&[], "dflt"), &vec![cc_policy()]).unwrap();
    let mut enf = PolicyEnforcer::new(PolicyManager::new(st), engine(vec![]));
    let h = HeaderList::new();
    let c = ctx("GET", "/", None);
    assert!(matches!(enf.enforce_request_headers(&c, &h, 0).decision, Decision::Allow));
    // The same files again: the new state takes over the limiter.
    let again = PolicyManager::load_from_files(domain_map(&[], "dflt"), &vec![cc_policy()]).unwrap();
    let up = DomainMapUpdater::new(3);
    assert!(up.on_loaded(&mut enf.mgr, Some(again)));
    assert!(matches!(enf.enforce_request_headers(&c, &h, 1).decision, Decision::Block { .. }));
    // A failed load changes nothing.
    let up2 = PolicyDirUpdater::new(3);
    assert!(!up2.on_loaded(&mut enf.mgr, None));
    assert!(matches!(enf.enforce_request_headers(&c, &h, 2).decision, Decision::Block { .. }));
}

#[test]
fn swap_replaces_the_limiter_too() {
    let st = PolicyManager::load_from_files(domain_map(&[], "dflt"), &vec![cc_policy()]).unwrap();
    let mut enf = PolicyEnforcer::new(PolicyManager::new(st), engine(vec![]));
    let h = HeaderList::new();
    let c = ctx("GET", "/", None);
    assert!(matches!(enf.enforce_request_headers(&c, &h, 0).decision, Decision::Allow));
    let again = PolicyManager::load_from_files(domain_map(&[], "dflt"), &vec![cc_policy()]).unwrap();
    enf.mgr.swap(again);
    assert!(matches!(enf.enforce_request_headers(&c, &h, 1).decision, Decision::Allow));
    assert_eq!(enf.mgr.load().matcher.default_policy(), "dflt");
}

#[test]
fn updaters_decide_when_to_reload() {
    let mut d = DomainMapUpdater::new(3);
    assert_eq!(d.interval_secs, 3);
    assert!(!d.on_tick(None));
    assert!(d.on_tick(Some(100)));
    assert!(!d.on_tick(Some(100)));
    assert!(!d.on_tick(Some(99)));
    assert!(d.on_tick(Some(101)));
    let mut p = PolicyDirUpdater::new(5);
    assert!(!p.on_tick(None));
    assert!(p.on_tick(Some(7)));
    assert!(!p.on_tick(Some(7)));
    assert!(p.on_tick(Some(6)));
    assert!(p.on_tick(Some(7)));
}

#[test]
fn waf_config_default_is_off() {
    let w = WafConfig::default();
    assert!(!w.enabled);
    assert_eq!(w.ruleset, None);
}
