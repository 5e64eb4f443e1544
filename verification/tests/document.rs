use pingora_waf::policy::protection::document::{
    read_match, read_rule, ActionDoc, CcDoc, DocError, MatchDoc, OnLimitDoc, RuleDoc,
};
use pingora_waf::policy::protection::types::{
    ActionSpec, AllowSpec, BlockSpec, HeaderEq, HeaderRegex, LogSpec, MatchExpr,
    OnLimitActionSpec,
};

fn no_match() -> MatchDoc {
    MatchDoc {
        path_prefix: None,
        method_in: None,
        host_in: None,
        header_exists: None,
        header_equals: None,
        header_regex: None,
        and: None,
        or: None,
        not: None,
    }
}

fn no_action() -> ActionDoc {
    ActionDoc { allow: None, log: None, block: None, challenge: None, cc: None }
}

fn block(status: u16) -> BlockSpec {
    BlockSpec { status, reason: "why".to_string() }
}

#[test]
fn no_key_reads_as_any() {
    assert!(matches!(read_match(no_match()), Ok(MatchExpr::Any)));
}

#[test]
fn each_key_reads_as_its_condition() {
    let mut d = no_match();
    d.path_prefix = Some("/a".to_string());
    assert!(matches!(read_match(d), Ok(MatchExpr::PathPrefix { path_prefix }) if path_prefix == "/a"));
    let mut d = no_match();
    d.method_in = Some(vec!["GET".to_string()]);
    assert!(matches!(read_match(d), Ok(MatchExpr::MethodIn { method_in }) if method_in == vec!["GET".to_string()]));
    let mut d = no_match();
    d.host_in = Some(vec!["h".to_string()]);
    assert!(matches!(read_match(d), Ok(MatchExpr::HostIn { host_in }) if host_in == vec!["h".to_string()]));
    let mut d = no_match();
    d.header_exists = Some("x".to_string());
    assert!(matches!(read_match(d), Ok(MatchExpr::HeaderExists { header_exists }) if header_exists == "x"));
    let mut d = no_match();
    d.header_equals = Some(HeaderEq { name: "n".to_string(), value: "v".to_string() });
    assert!(matches!(read_match(d), Ok(MatchExpr::HeaderEquals { header_equals }) if header_equals.value == "v"));
    let mut d = no_match();
    d.header_regex = Some(HeaderRegex { name: "n".to_string(), pattern: "p".to_string() });
    assert!(matches!(read_match(d), Ok(MatchExpr::HeaderRegex { header_regex }) if header_regex.pattern == "p"));
}

#[test]
fn nested_conditions_are_read_in_order() {
    let mut a = no_match();
    a.path_prefix = Some("/a".to_string());
    let mut b = no_match();
    b.not = Some(Box::new(no_match()));
    let mut d = no_match();
    d.and = Some(vec![a, b]);
    match read_match(d) {
        Ok(MatchExpr::And { and }) => {
            assert_eq!(and.len(), 2);
            assert!(matches!(&and[0], MatchExpr::PathPrefix { path_prefix } if path_prefix == "/a"));
            assert!(matches!(&and[1], MatchExpr::Not { not } if matches!(**not, MatchExpr::Any)));
        }
        other => panic!("unexpected {:?}", other),
    }
    let mut d = no_match();
    d.or = Some(vec![]);
    assert!(matches!(read_match(d), Ok(MatchExpr::Or { or }) if or.is_empty()));
}

#[test]
fn two_keys_at_one_level_are_refused() {
    let mut d = no_match();
    d.path_prefix = Some("/a".to_string());
    d.method_in = Some(vec!["GET".to_string()]);
    assert_eq!(read_match(d).err(), Some(DocError::AmbiguousMatch));
    // Deep inside too.
    let mut inner = no_match();
    inner.host_in = Some(vec![]);
    inner.not = Some(Box::new(no_match()));
    let mut mid = no_match();
    mid.or = Some(vec![no_match(), inner]);
    let mut d = no_match();
    d.not = Some(Box::new(mid));
    assert_eq!(read_match(d).err(), Some(DocError::AmbiguousMatch));
}

#[test]
fn each_action_key_reads_as_its_action() {
    let mut a = no_action();
    a.allow = Some(AllowSpec { reason: None });
    assert!(matches!(a.read(), Ok(ActionSpec::Allow { .. })));
    let mut a = no_action();
    a.log = Some(LogSpec { reason: "r".to_string() });
    assert!(matches!(a.read(), Ok(ActionSpec::Log { log }) if log.reason == "r"));
    let mut a = no_action();
    a.block = Some(block(403));
    assert!(matches!(a.read(), Ok(ActionSpec::Block { block }) if block.status == 403));
    let mut a = no_action();
    a.challenge = Some(block(401));
    assert!(matches!(a.read(), Ok(ActionSpec::Challenge { challenge }) if challenge.status == 401));
}

fn cc(on_limit: OnLimitDoc) -> ActionDoc {
    let mut a = no_action();
    a.cc = Some(CcDoc {
        key_parts: vec!["client_ip".to_string()],
        window_secs: 1,
        max_requests: 3,
        block_secs: 10,
        on_limit,
    });
    a
}

#[test]
fn rate_limit_reads_with_its_own_action() {
    let a = cc(OnLimitDoc { log: None, block: Some(block(429)), challenge: None });
    match a.read() {
        Ok(ActionSpec::Cc { cc }) => {
            assert_eq!(cc.key_parts, vec!["client_ip".to_string()]);
            assert_eq!((cc.window_secs, cc.max_requests, cc.block_secs), (1, 3, 10));
            assert!(matches!(cc.on_limit, OnLimitActionSpec::Block { block } if block.status == 429));
        }
        other => panic!("unexpected {:?}", other),
    }
    let a = cc(OnLimitDoc { log: Some(LogSpec { reason: "r".to_string() }), block: None, challenge: None });
    assert!(matches!(a.read(), Ok(ActionSpec::Cc { cc }) if matches!(cc.on_limit, OnLimitActionSpec::Log { .. })));
    let a = cc(OnLimitDoc { log: None, block: None, challenge: Some(block(401)) });
    assert!(matches!(a.read(), Ok(ActionSpec::Cc { cc }) if matches!(cc.on_limit, OnLimitActionSpec::Challenge { .. })));
}

#[test]
fn actions_with_no_or_several_keys_are_refused() {
    assert_eq!(no_action().read().err(), Some(DocError::MissingAction));
    let mut a = no_action();
    a.allow = Some(AllowSpec { reason: None });
    a.block = Some(block(403));
    assert_eq!(a.read().err(), Some(DocError::AmbiguousAction));
    let a = cc(OnLimitDoc { log: None, block: None, challenge: None });
    assert_eq!(a.read().err(), Some(DocError::MissingOnLimit));
    let a = cc(OnLimitDoc {
        log: Some(LogSpec { reason: "r".to_string() }),
        block: Some(block(429)),
        challenge: None,
    });
    assert_eq!(a.read().err(), Some(DocError::AmbiguousOnLimit));
}

#[test]
fn errors_in_words() {
    assert_eq!(DocError::AmbiguousMatch.message(), "match has more than one key");
    assert_eq!(DocError::AmbiguousAction.message(), "action has more than one key");
    assert_eq!(DocError::MissingAction.message(), "action has no key");
    assert_eq!(DocError::AmbiguousOnLimit.message(), "on_limit has more than one key");
    assert_eq!(DocError::MissingOnLimit.message(), "on_limit has no key");
}

#[test]
fn rule_is_read_condition_first() {
    let mut a = no_action();
    a.block = Some(block(403));
    let r = read_rule(RuleDoc { id: "r1".to_string(), match_expr: None, action: a }).unwrap();
    assert_eq!(r.id, "r1");
    assert!(matches!(r.match_expr, MatchExpr::Any));
    assert!(matches!(r.action, ActionSpec::Block { .. }));
    let mut bad = no_match();
    bad.and = Some(vec![]);
    bad.or = Some(vec![]);
    let r = read_rule(RuleDoc { id: "r2".to_string(), match_expr: Some(bad), action: no_action() });
    assert_eq!(r.err(), Some(DocError::AmbiguousMatch));
    let r = read_rule(RuleDoc { id: "r3".to_string(), match_expr: Some(no_match()), action: no_action() });
    assert_eq!(r.err(), Some(DocError::MissingAction));
}
