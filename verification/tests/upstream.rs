use pingora_waf::upstream::manager::UpstreamManager;
use pingora_waf::upstream::reload::UpstreamHotReload;
use pingora_waf::upstream::router::{
    peer_from_parts, ChaseStep, CnameChase, LookupOutcome, Routed, RouterError, UpstreamRouter,
    UriParts,
};
use pingora_waf::upstream::types::{
    CnameRouting, ResolverConfig, TenantUpstreams, UpstreamConfigFile,
};
use pingora_waf::upstream::update::UpstreamUpdater;

const SEC: u128 = 1_000_000_000;

fn ups(v: &[&str]) -> TenantUpstreams {
    TenantUpstreams { upstreams: v.iter().map(|s| s.to_string()).collect() }
}

fn config(resolver: ResolverConfig, regex: &str, default: &[&str]) -> UpstreamConfigFile {
    UpstreamConfigFile {
        version: 1,
        resolver,
        cname_routing: CnameRouting { tenant_from_cname_regex: regex.to_string() },
        tenants: vec![("42".to_string(), ups(&["u1", "u2"])), ("7".to_string(), ups(&[]))],
        default: ups(default),
    }
}

fn static_router() -> UpstreamRouter {
    let table = vec![
        ("api.customer.com".to_string(), "t-42.pool.svc".to_string()),
        ("empty.customer.com".to_string(), "t-7.pool.svc".to_string()),
        ("unknown.customer.com".to_string(), "t-99.pool.svc".to_string()),
        ("odd.customer.com".to_string(), "elsewhere.example".to_string()),
    ];
    UpstreamRouter::new(config(ResolverConfig::Static { host_to_cname: table }, r"^t-(\d+)\.", &["u0"]))
        .unwrap()
}

fn dns_router(ttl: Option<u64>, limit: Option<usize>) -> UpstreamRouter {
    let r = ResolverConfig::Dns { timeout_ms: Some(250), cache_ttl_secs: ttl, cname_chain_limit: limit };
    UpstreamRouter::new(config(r, r"^t-(\d+)\.", &["u0", "u9"])).unwrap()
}

fn picked(r: Routed) -> (String, String) {
    match r {
        Routed::Picked { edge_key, upstream } => (edge_key, upstream),
        Routed::NeedLookup { host } => panic!("asked for a lookup of {}", host),
    }
}

fn pair(a: &str, b: &str) -> (String, String) {
    (a.to_string(), b.to_string())
}

#[test]
fn tenant_upstreams_are_picked_in_turn() {
    let mut r = static_router();
    assert_eq!(picked(r.pick_endpoint_and_edge_key(Some("api.customer.com"), 0)), pair("42", "u1"));
    assert_eq!(picked(r.pick_endpoint_and_edge_key(Some("api.customer.com"), 0)), pair("42", "u2"));
    assert_eq!(picked(r.pick_endpoint_and_edge_key(Some("api.customer.com"), 0)), pair("42", "u1"));
}

#[test]
fn host_is_stripped_of_its_port_and_normalized() {
    let mut r = static_router();
    assert_eq!(picked(r.pick_endpoint_and_edge_key(Some("API.Customer.com:8443"), 0)), pair("42", "u1"));
    assert_eq!(picked(r.pick_endpoint_and_edge_key(Some("api.customer.com."), 0)), pair("42", "u2"));
}

#[test]
fn everything_else_goes_to_the_default_upstreams() {
    let mut r = static_router();
    assert_eq!(picked(r.pick_endpoint_and_edge_key(None, 0)), pair("default", "u0"));
    assert_eq!(picked(r.pick_endpoint_and_edge_key(Some("nowhere.com"), 0)), pair("default", "u0"));
    // The CNAME names a tenant that is not configured.
    assert_eq!(picked(r.pick_endpoint_and_edge_key(Some("unknown.customer.com"), 0)), pair("default", "u0"));
    // The CNAME does not match the tenant expression.
    assert_eq!(picked(r.pick_endpoint_and_edge_key(Some("odd.customer.com"), 0)), pair("default", "u0"));
}

#[test]
fn tenant_without_upstreams_gets_the_first_default() {
    let mut r = static_router();
    assert_eq!(picked(r.pick_endpoint_and_edge_key(Some("empty.customer.com"), 0)), pair("7", "u0"));
    assert_eq!(picked(r.pick_endpoint_and_edge_key(Some("empty.customer.com"), 0)), pair("7", "u0"));
}

#[test]
fn no_upstream_at_all_gives_the_empty_string() {
    let mut r = UpstreamRouter::new(config(
        ResolverConfig::Static { host_to_cname: vec![] },
        r"^t-(\d+)\.",
        &[],
    ))
    .unwrap();
    assert!(!r.has_default_upstreams());
    assert_eq!(picked(r.pick_endpoint_and_edge_key(Some("x"), 0)), pair("default", ""));
}

#[test]
fn default_counter_is_apart_from_tenant_counters() {
    let mut r = dns_router(Some(0), None);
    assert_eq!(r.pick_for_cname(None), pair("default", "u0"));
    assert_eq!(r.pick_for_cname(Some("t-42.pool.svc")), pair("42", "u1"));
    assert_eq!(r.pick_for_cname(None), pair("default", "u9"));
    assert_eq!(r.pick_for_cname(Some("t-42.pool.svc")), pair("42", "u2"));
    assert_eq!(r.pick_for_cname(None), pair("default", "u0"));
}

#[test]
fn tenant_is_group_one_of_the_expression() {
    let r = static_router();
    assert_eq!(r.tenant_from_cname(Some("t-42.pool.svc")), Some("42".to_string()));
    assert_eq!(r.tenant_from_cname(Some("x-42.pool.svc")), None);
    assert_eq!(r.tenant_from_cname(None), None);
    let no_group = UpstreamRouter::new(config(
        ResolverConfig::Static { host_to_cname: vec![] },
        r"^t-\d+\.",
        &["u0"],
    ))
    .unwrap();
    assert_eq!(no_group.tenant_from_cname(Some("t-42.pool.svc")), None);
}

#[test]
fn bad_tenant_expression_is_refused() {
    let cfg = config(ResolverConfig::Static { host_to_cname: vec![] }, r"^t-(\d+", &["u0"]);
    match UpstreamRouter::new(cfg) {
        Err(RouterError::BadTenantRegex { detail }) => {
            assert!(!detail.is_empty());
            let e = RouterError::BadTenantRegex { detail: detail.clone() };
            assert_eq!(e.message(), format!("bad tenant_from_cname_regex: {}", detail));
        }
        Ok(_) => panic!("built a router from a bad expression"),
    }
}

#[test]
fn resolver_settings_and_their_defaults() {
    let s = static_router();
    assert!(s.is_static());
    assert_eq!(s.cname_chain_limit(), 1);
    assert_eq!(s.dns_timeout(), None);
    let d = dns_router(None, None);
    assert!(!d.is_static());
    assert_eq!(d.cname_chain_limit(), 5);
    assert_eq!(d.dns_timeout(), Some(250));
    assert_eq!(dns_router(None, Some(0)).cname_chain_limit(), 1);
    assert_eq!(dns_router(None, Some(9)).cname_chain_limit(), 9);
}

#[test]
fn dns_mode_asks_for_a_lookup_and_caches_the_answer() {
    let mut r = dns_router(None, None);
    match r.pick_endpoint_and_edge_key(Some("Api.Customer.com:443"), 0) {
        Routed::NeedLookup { host } => assert_eq!(host, "api.customer.com"),
        Routed::Picked { .. } => panic!("picked without a lookup"),
    }
    let answer = Ok(Some("t-42.pool.svc".to_string()));
    assert_eq!(r.pick_after_lookup("api.customer.com", answer, 10 * SEC), pair("42", "u1"));
    // Good for the default 30 s, counted from the lookup.
    assert_eq!(picked(r.pick_endpoint_and_edge_key(Some("api.customer.com"), 40 * SEC)), pair("42", "u2"));
    match r.pick_endpoint_and_edge_key(Some("api.customer.com"), 40 * SEC + 1) {
        Routed::NeedLookup { host } => assert_eq!(host, "api.customer.com"),
        Routed::Picked { .. } => panic!("used an answer that is too old"),
    }
}

#[test]
fn an_answer_without_cname_is_cached_too() {
    let mut r = dns_router(Some(5), None);
    assert_eq!(r.pick_after_lookup("plain.com", Ok(None), 0), pair("default", "u0"));
    assert_eq!(r.resolve_known("plain.com", 5 * SEC), Some(None));
    assert_eq!(r.resolve_known("plain.com", 5 * SEC + 1), None);
    assert_eq!(r.resolve_known("other.com", 0), None);
}

#[test]
fn a_failed_lookup_goes_to_default_and_is_not_cached() {
    let mut r = dns_router(Some(5), None);
    assert_eq!(r.pick_after_lookup("x.com", Err("timeout".to_string()), 0), pair("default", "u0"));
    assert_eq!(r.resolve_known("x.com", 1), None);
}

#[test]
fn cache_switched_off_keeps_nothing() {
    let mut r = dns_router(Some(0), None);
    r.remember("x.com", &Some("t-42.pool.svc".to_string()), 0);
    assert_eq!(r.resolve_known("x.com", 0), None);
    let mut s = static_router();
    s.remember("x.com", &Some("t-42.pool.svc".to_string()), 0);
    assert_eq!(s.resolve_known("x.com", 0), Some(None));
    assert_eq!(s.resolve_known("api.customer.com", 0), Some(Some("t-42.pool.svc".to_string())));
}

#[test]
fn reload_keeps_the_cname_cache() {
    let mut first = dns_router(Some(60), None);
    first.remember("api.customer.com", &Some("t-42.pool.svc".to_string()), 0);
    let mut mgr = UpstreamManager::new(first);
    let up = UpstreamUpdater::new(3);
    assert!(up.on_loaded(&mut mgr, Some(dns_router(Some(60), Some(2)))));
    assert_eq!(mgr.get().cname_chain_limit(), 2);
    assert_eq!(mgr.get().resolve_known("api.customer.com", SEC), Some(Some("t-42.pool.svc".to_string())));
    assert!(!up.on_loaded(&mut mgr, None));
    assert_eq!(mgr.get().cname_chain_limit(), 2);
    mgr.swap(dns_router(Some(60), Some(3)));
    assert_eq!(mgr.get().resolve_known("api.customer.com", SEC), None);
}

#[test]
fn hot_reload_builds_only_changed_content() {
    let mut mgr = UpstreamManager::new(static_router());
    let mut hr = UpstreamHotReload::new();
    let h = hr.on_read(b"version: 1").unwrap();
    assert!(!hr.on_built(&mut mgr, h, None));
    // After a failure the same content is tried again.
    assert_eq!(hr.on_read(b"version: 1"), Some(h));
    assert!(hr.on_built(&mut mgr, h, Some(dns_router(None, None))));
    assert_eq!(hr.on_read(b"version: 1"), None);
    assert!(hr.on_read(b"version: 2").is_some());
    assert!(!mgr.get().is_static());
}

#[test]
fn updater_follows_the_modification_time() {
    let mut u = UpstreamUpdater::new(3);
    assert!(u.on_tick(Some(10)));
    assert!(!u.on_tick(Some(10)));
    assert!(!u.on_tick(None));
    assert!(u.on_tick(Some(11)));
}

fn lookup_name(s: ChaseStep) -> String {
    match s {
        ChaseStep::Lookup(n) => n,
        ChaseStep::Done(d) => panic!("done with {:?}", d),
        ChaseStep::Failed(e) => panic!("failed with {}", e),
    }
}

fn done(s: ChaseStep) -> Option<String> {
    match s {
        ChaseStep::Done(d) => d,
        ChaseStep::Lookup(n) => panic!("asked for {}", n),
        ChaseStep::Failed(e) => panic!("failed with {}", e),
    }
}

#[test]
fn chase_follows_the_chain_up_to_the_limit() {
    let (mut c, first) = CnameChase::begin("a.com", 3);
    assert_eq!(lookup_name(first), "a.com");
    assert_eq!(lookup_name(c.on_lookup(LookupOutcome::Cname("b.com.".to_string()))), "b.com");
    assert_eq!(lookup_name(c.on_lookup(LookupOutcome::Cname("c.com".to_string()))), "c.com");
    assert_eq!(done(c.on_lookup(LookupOutcome::Cname("d.com.".to_string()))), Some("d.com".to_string()));
}

#[test]
fn chase_with_limit_one_takes_the_first_cname() {
    let (mut c, _) = CnameChase::begin("a.com", 1);
    assert_eq!(done(c.on_lookup(LookupOutcome::Cname("b.com".to_string()))), Some("b.com".to_string()));
    let (mut c, _) = CnameChase::begin("a.com", 0);
    assert_eq!(done(c.on_lookup(LookupOutcome::Cname("b.com".to_string()))), Some("b.com".to_string()));
}

#[test]
fn chase_stops_at_a_name_that_points_to_itself() {
    let (mut c, _) = CnameChase::begin("a.com", 5);
    assert_eq!(lookup_name(c.on_lookup(LookupOutcome::Cname("b.com".to_string()))), "b.com");
    assert_eq!(done(c.on_lookup(LookupOutcome::Cname("B.COM.".to_string()))), Some("b.com".to_string()));
}

#[test]
fn chase_without_cname_ends_with_none() {
    let (mut c, _) = CnameChase::begin("a.com", 5);
    assert_eq!(done(c.on_lookup(LookupOutcome::NoRecords)), None);
    let (mut c, _) = CnameChase::begin("a.com", 5);
    assert_eq!(lookup_name(c.on_lookup(LookupOutcome::Cname("b.com".to_string()))), "b.com");
    assert_eq!(done(c.on_lookup(LookupOutcome::NoCname)), None);
}

#[test]
fn chase_reports_a_failed_lookup() {
    let (mut c, _) = CnameChase::begin("a.com", 5);
    match c.on_lookup(LookupOutcome::Failed("servfail".to_string())) {
        ChaseStep::Failed(e) => assert_eq!(e, "servfail"),
        _ => panic!("not reported"),
    }
}

fn peer(upstream: &str) -> (String, bool, String) {
    let p = UpstreamRouter::build_peer(upstream);
    (p.addr.clone(), p.tls, p.host.clone())
}

fn triple(a: &str, t: bool, h: &str) -> (String, bool, String) {
    (a.to_string(), t, h.to_string())
}

#[test]
fn peer_of_uri_upstreams() {
    assert_eq!(peer("https://origin.example.com"), triple("origin.example.com:443", true, "origin.example.com"));
    assert_eq!(peer("HTTPS://origin.example.com:8443"), triple("origin.example.com:8443", true, "origin.example.com"));
    assert_eq!(peer("http://origin.example.com"), triple("origin.example.com:80", false, "origin.example.com"));
    assert_eq!(peer("http://10.0.0.1:8080/path"), triple("10.0.0.1:8080", false, "10.0.0.1"));
}

#[test]
fn peer_of_plain_upstreams() {
    assert_eq!(peer("10.0.0.1:8080"), triple("10.0.0.1:8080", false, "10.0.0.1"));
    assert_eq!(peer("not a uri"), triple("not a uri", false, ""));
    assert_eq!(peer(""), triple("", false, ""));
}

#[test]
fn sni_is_the_host_unless_it_is_an_ip() {
    let p = UpstreamRouter::build_peer("https://origin.example.com");
    assert_eq!(p.sni(false), "origin.example.com");
    assert_eq!(p.sni(true), "");
}

#[test]
fn peer_from_given_parts() {
    let parts = UriParts {
        scheme: Some("HtTpS".to_string()),
        authority: "h.example".to_string(),
        host: "h.example".to_string(),
        port: None,
    };
    let p = peer_from_parts("ignored", Some(parts));
    assert_eq!((p.addr.as_str(), p.tls, p.host.as_str()), ("h.example:443", true, "h.example"));
    let parts = UriParts {
        scheme: None,
        authority: "h.example:81".to_string(),
        host: "h.example".to_string(),
        port: Some(81),
    };
    let p = peer_from_parts("ignored", Some(parts));
    assert_eq!((p.addr.as_str(), p.tls, p.host.as_str()), ("h.example:81", false, "h.example"));
    let p = peer_from_parts("as it stands", None);
    assert_eq!((p.addr.as_str(), p.tls, p.host.as_str()), ("as it stands", false, ""));
}

#[test]
fn pick_endpoint_gives_the_upstream_alone() {
    let mut r = static_router();
    assert_eq!(r.pick_endpoint(Some("api.customer.com"), 0), Some("u1".to_string()));
    assert_eq!(r.pick_endpoint(Some("api.customer.com"), 0), Some("u2".to_string()));
    assert_eq!(r.pick_endpoint(None, 0), Some("u0".to_string()));
    let mut d = dns_router(None, None);
    assert_eq!(d.pick_endpoint(Some("api.customer.com"), 0), None);
    assert_eq!(d.pick_endpoint(None, 0), Some("u0".to_string()));
}
