use pingora_waf::policy::protection::cookie::get_cookie_value;
use pingora_waf::policy::protection::key::build_key;
use pingora_waf::policy::protection::matcher::{HeaderList, HeaderView};
use pingora_waf::waf::context::WafContext;

fn ctx() -> WafContext {
    WafContext {
        method: "GET".to_string(),
        path: "/a".to_string(),
        client_ip: Some("1.2.3.4".to_string()),
        host: Some("example.com".to_string()),
        user_agent: Some("curl/8".to_string()),
    }
}

fn headers() -> HeaderList {
    let mut h = HeaderList::new();
    h.push("X-Api-Key".to_string(), "k-17".to_string());
    h.push("Cookie".to_string(), "theme=dark; SID = abc123 ;empty=".to_string());
    h.push("x-api-key".to_string(), "second".to_string());
    h
}

#[test]
fn cookie_first_match_wins() {
    assert_eq!(get_cookie_value("a=1; b=2; a=3", "a"), Some("1".to_string()));
    assert_eq!(get_cookie_value("a=1; b=2; a=3", "b"), Some("2".to_string()));
}

#[test]
fn cookie_name_is_case_insensitive_and_trimmed() {
    assert_eq!(get_cookie_value("theme=dark; SID = abc123 ", "sid"), Some("abc123".to_string()));
    assert_eq!(get_cookie_value("  ;; theme = dark", "THEME"), Some("dark".to_string()));
}

#[test]
fn cookie_missing_or_malformed() {
    assert_eq!(get_cookie_value("", "a"), None);
    assert_eq!(get_cookie_value("a; b; c", "a"), None);
    assert_eq!(get_cookie_value("a=1", "b"), None);
    assert_eq!(get_cookie_value("a=", "a"), Some("".to_string()));
    assert_eq!(get_cookie_value("a=x=y", "a"), Some("x=y".to_string()));
}

#[test]
fn header_lookup_ignores_case_and_takes_first() {
    let h = headers();
    assert_eq!(h.get("x-api-key"), Some("k-17"));
    assert_eq!(h.get("X-API-KEY"), Some("k-17"));
    assert_eq!(h.get("missing"), None);
}

#[test]
fn key_of_context_fields() {
    let parts = vec![
        "client_ip".to_string(),
        "host".to_string(),
        "path".to_string(),
        "method".to_string(),
        "user_agent".to_string(),
    ];
    assert_eq!(
        build_key(&parts, &ctx(), &headers()),
        "client_ip=1.2.3.4|host=example.com|path=/a|method=GET|user_agent=curl/8"
    );
}

#[test]
fn key_defaults_for_missing_fields() {
    let c = WafContext {
        method: "GET".to_string(),
        path: "/".to_string(),
        client_ip: None,
        host: None,
        user_agent: None,
    };
    let parts = vec!["client_ip".to_string(), "host".to_string(), "user_agent".to_string()];
    assert_eq!(build_key(&parts, &c, &HeaderList::new()), "client_ip=0.0.0.0|host=|user_agent=");
}

#[test]
fn key_of_headers_and_cookies() {
    let parts = vec![
        "header:x-api-key".to_string(),
        "cookie:sid".to_string(),
        "cookie:none".to_string(),
        "header:none".to_string(),
        "bogus".to_string(),
    ];
    assert_eq!(
        build_key(&parts, &ctx(), &headers()),
        "header:x-api-key=k-17|cookie:sid=abc123|cookie:none=|header:none=|bogus="
    );
}

#[test]
fn key_of_no_parts_is_empty() {
    assert_eq!(build_key(&Vec::new(), &ctx(), &headers()), "");
}

#[test]
fn cookie_part_without_cookie_header_is_empty() {
    let parts = vec!["cookie:sid".to_string()];
    assert_eq!(build_key(&parts, &ctx(), &HeaderList::new()), "cookie:sid=");
}
