//! The tenant router.
//!
//! A host's CNAME comes from a table or from DNS. The router itself makes
//! no lookup: it says which name to look up, takes the answer, and follows
//! a chain of CNAMEs for a bounded number of hops. Times are nanoseconds on
//! a clock that the caller reads.

use vstd::prelude::*;
use vstd::hash_map::StringHashMap;
use dashmap::DashMap;
use http::Uri;
use regex::Regex;
use crate::policy::cc::{MAX_TIME, NANOS_PER_SEC};
use crate::text::{
    chars_of, clone_strings, eq_fold, eq_ignore_case, lemma_strip_trailing_is, opt_str_view,
    opt_view, string_of, strip_trailing, views,
};
use crate::upstream::types::{ResolverConfig, TenantUpstreams, UpstreamConfigFile};
use crate::waf::normalizer::{normalize_host, normalized_host, port_stripped, strip_port};
use crate::waf::rules::matcher::{compile_regex, regex_compiles, regex_error_text, regex_source};

verus! {

/// The edge key of requests that belong to no tenant.
pub const DEFAULT_EDGE_KEY: &'static str = "default";

/// What group 1 of the leftmost match of the regular expression `pattern`
/// in `text` holds: `None` where there is no match or the group took no
/// part in it.
pub uninterp spec fn regex_group_one(pattern: Seq<char>, text: Seq<char>) -> Option<Seq<char>>;

/// `Regex::captures` finds the leftmost match and `Captures::get(1)` the
/// text of its first group, which depends on the pattern and the text
/// alone.
#[verifier::external_body]
fn first_group(re: &Regex, text: &str) -> (r: Option<String>)
    ensures
        opt_view(r) == regex_group_one(regex_source(*re), text@),
{
    match re.captures(text) {
        Some(caps) => caps.get(1).map(|m| m.as_str().to_string()),
        None => None,
    }
}

/// The round-robin counters that a map holds, by edge key.
pub uninterp spec fn counters(t: DashMap<String, usize>) -> Map<Seq<char>, usize>;

/// The answers that a CNAME cache holds, by host: until when the answer
/// is good, and the answer.
pub uninterp spec fn cached(t: DashMap<String, (u128, Option<String>)>) -> Map<
    Seq<char>,
    (u128, Option<Seq<char>>),
>;

pub open spec fn no_counters() -> Map<Seq<char>, usize> {
    Map::empty()
}

pub open spec fn empty_cache() -> Map<Seq<char>, (u128, Option<Seq<char>>)> {
    Map::empty()
}

/// `DashMap::new` makes an empty map.
#[verifier::external_body]
fn counters_new() -> (r: DashMap<String, usize>)
    ensures
        counters(r) == no_counters(),
{
    DashMap::new()
}

/// `DashMap::get` finds the value under a key.
#[verifier::external_body]
fn counters_get(t: &DashMap<String, usize>, k: &str) -> (r: Option<usize>)
    ensures
        r == (if counters(*t).contains_key(k@) {
            Some(counters(*t)[k@])
        } else {
            None
        }),
{
    match t.get(k) {
        Some(v) => Some(*v),
        None => None,
    }
}

/// `DashMap::insert` puts the value under the key and leaves the other
/// keys alone.
#[verifier::external_body]
fn counters_insert(t: &mut DashMap<String, usize>, k: String, v: usize)
    ensures
        counters(*final(t)) == counters(*old(t)).insert(k@, v),
{
    t.insert(k, v);
}

/// `DashMap::new` makes an empty map.
#[verifier::external_body]
fn cache_new() -> (r: DashMap<String, (u128, Option<String>)>)
    ensures
        cached(r) == empty_cache(),
{
    DashMap::new()
}

/// `DashMap::get` finds the value under a key.
#[verifier::external_body]
fn cache_get(t: &DashMap<String, (u128, Option<String>)>, k: &str) -> (r: Option<
    (u128, Option<String>),
>)
    ensures
        (match r {
            Some(slot) => cached(*t).contains_key(k@) && cached(*t)[k@] == (slot.0, opt_view(slot.1)),
            None => !cached(*t).contains_key(k@),
        }),
{
    match t.get(k) {
        Some(v) => Some((v.0, v.1.clone())),
        None => None,
    }
}

/// `DashMap::insert` puts the value under the key and leaves the other
/// keys alone.
#[verifier::external_body]
fn cache_insert(t: &mut DashMap<String, (u128, Option<String>)>, k: String, until: u128, cname: Option<String>)
    ensures
        cached(*final(t)) == cached(*old(t)).insert(k@, (until, opt_view(cname))),
{
    t.insert(k, (until, cname));
}

/// How the CNAME of a host is found.
pub enum ResolverMode {
    Static { host_to_cname: StringHashMap<String> },
    Dns { timeout_ms: Option<u64> },
}

pub struct UpstreamRouter {
    resolver_mode: ResolverMode,
    /// How long an answer from DNS is good for; zero switches the cache off.
    cache_ttl_secs: u64,
    /// How many CNAMEs of a chain are followed, at least one.
    cname_chain_limit: usize,
    cname_cache: DashMap<String, (u128, Option<String>)>,
    tenant_re: Regex,
    tenants: StringHashMap<Vec<String>>,
    default_upstreams: Vec<String>,
    rr: DashMap<String, usize>,
}

/// Why a router could not be built.
#[derive(Debug, Clone)]
pub enum RouterError {
    /// The tenant expression is no regular expression.
    BadTenantRegex { detail: String },
}

impl RouterError {
    /// The error in words.
    pub fn message(&self) -> (m: String)
        ensures
            (self matches RouterError::BadTenantRegex { detail } ==> m@
                == "bad tenant_from_cname_regex: "@ + detail@),
    {
        match self {
            RouterError::BadTenantRegex { detail } => {
                let mut m = "bad tenant_from_cname_regex: ".to_owned();
                m.append(detail.as_str());
                m
            },
        }
    }
}

/// What the router asks of its caller, or answers.
pub enum Routed {
    /// The edge key and the upstream for the request.
    Picked { edge_key: String, upstream: String },
    /// The CNAME of `host` is to be looked up; the answer goes to
    /// `pick_after_lookup`.
    NeedLookup { host: String },
}

/// What became of one DNS lookup for CNAME records.
pub enum LookupOutcome {
    /// The first CNAME record of the answer.
    Cname(String),
    /// An answer without a CNAME record.
    NoCname,
    /// The name has no records.
    NoRecords,
    /// Any other failure.
    Failed(String),
}

/// What to do next on the way along a chain of CNAMEs.
pub enum ChaseStep {
    /// Look up the CNAME of this name.
    Lookup(String),
    /// The chain ends: with this name, or without a CNAME.
    Done(Option<String>),
    /// A lookup failed.
    Failed(String),
}

/// Where a walk along a chain of CNAMEs stands.
pub struct CnameChase {
    pub cur: String,
    /// How many lookups are still allowed.
    pub hops_left: usize,
}

pub enum LookupView {
    Cname(Seq<char>),
    NoCname,
    NoRecords,
    Failed(Seq<char>),
}

pub enum StepView {
    Lookup(Seq<char>),
    Done(Option<Seq<char>>),
    Failed(Seq<char>),
}

impl View for LookupOutcome {
    type V = LookupView;

    open spec fn view(&self) -> LookupView {
        match self {
            LookupOutcome::Cname(s) => LookupView::Cname(s@),
            LookupOutcome::NoCname => LookupView::NoCname,
            LookupOutcome::NoRecords => LookupView::NoRecords,
            LookupOutcome::Failed(e) => LookupView::Failed(e@),
        }
    }
}

impl View for ChaseStep {
    type V = StepView;

    open spec fn view(&self) -> StepView {
        match self {
            ChaseStep::Lookup(s) => StepView::Lookup(s@),
            ChaseStep::Done(c) => StepView::Done(opt_view(*c)),
            ChaseStep::Failed(e) => StepView::Failed(e@),
        }
    }
}

/// One step along a chain of CNAMEs: the name and the lookups left
/// afterwards, and what to do next.
///
/// A name without records, or an answer without a CNAME, ends the chain
/// without a CNAME. A CNAME that equals the name it was found for, up to
/// ASCII case, ends the chain at that name. Else the CNAME, without
/// trailing dots, is the next name; it is looked up while lookups are left.
pub open spec fn chase_step(cur: Seq<char>, hops_left: nat, outcome: LookupView) -> (
    Seq<char>,
    nat,
    StepView,
) {
    match outcome {
        LookupView::NoRecords => (cur, hops_left, StepView::Done(None)),
        LookupView::NoCname => (cur, hops_left, StepView::Done(None)),
        LookupView::Failed(e) => (cur, hops_left, StepView::Failed(e)),
        LookupView::Cname(raw) => {
            let next = strip_trailing(raw, '.');
            if eq_fold(next, cur) {
                (cur, hops_left, StepView::Done(Some(cur)))
            } else if hops_left <= 1 {
                (next, 0, StepView::Done(Some(next)))
            } else {
                (next, (hops_left - 1) as nat, StepView::Lookup(next))
            }
        },
    }
}

/// `s` without the dots at its end.
fn without_trailing_dots(s: &str) -> (out: String)
    ensures
        out@ == strip_trailing(s@, '.'),
{
    let v = chars_of(s);
    let mut b: usize = v.len();
    while b > 0 && v[b - 1] == '.'
        invariant
            0 <= b <= v.len(),
            forall|i: int| b <= i < v.len() ==> #[trigger] v@[i] == '.',
        decreases b,
    {
        b -= 1;
    }
    proof {
        lemma_strip_trailing_is(v@, '.', b as int);
    }
    string_of(&v, 0, b)
}

impl CnameChase {
    /// Starts a walk at `host` with `limit` lookups allowed, at least one.
    pub fn begin(host: &str, limit: usize) -> (r: (CnameChase, ChaseStep))
        ensures
            r.0.cur@ == host@,
            r.0.hops_left == (if limit < 1 {
                1
            } else {
                limit
            }),
            r.1@ == StepView::Lookup(host@),
    {
        let hops_left: usize = if limit < 1 {
            1
        } else {
            limit
        };
        (CnameChase { cur: host.to_owned(), hops_left }, ChaseStep::Lookup(host.to_owned()))
    }

    /// Takes the outcome of the lookup for the current name and says what
    /// to do next. Each `Lookup` that it asks for uses up one of the
    /// lookups allowed, so a walk ends.
    pub fn on_lookup(&mut self, outcome: LookupOutcome) -> (step: ChaseStep)
        ensures
            (final(self).cur@, final(self).hops_left as nat, step@) == chase_step(
                old(self).cur@,
                old(self).hops_left as nat,
                outcome@,
            ),
            step is Lookup ==> final(self).hops_left < old(self).hops_left,
    {
        match outcome {
            LookupOutcome::NoRecords => ChaseStep::Done(None),
            LookupOutcome::NoCname => ChaseStep::Done(None),
            LookupOutcome::Failed(e) => ChaseStep::Failed(e),
            LookupOutcome::Cname(raw) => {
                let next = without_trailing_dots(raw.as_str());
                if eq_ignore_case(next.as_str(), self.cur.as_str()) {
                    ChaseStep::Done(Some(self.cur.clone()))
                } else if self.hops_left <= 1 {
                    self.cur = next;
                    self.hops_left = 0;
                    ChaseStep::Done(Some(self.cur.clone()))
                } else {
                    self.cur = next;
                    self.hops_left = self.hops_left - 1;
                    ChaseStep::Lookup(self.cur.clone())
                }
            },
        }
    }
}

/// The tenant map that the entries of a file give: the upstreams of each
/// tenant, a later entry in place of an earlier one.
pub open spec fn tenants_of(entries: Seq<(String, TenantUpstreams)>) -> Map<
    Seq<char>,
    Seq<Seq<char>>,
>
    decreases entries.len(),
{
    if entries.len() == 0 {
        Map::empty()
    } else {
        tenants_of(entries.drop_last()).insert(
            entries.last().0@,
            views(entries.last().1.upstreams@),
        )
    }
}

/// The table that the entries of a file give.
pub open spec fn table_of(entries: Seq<(String, String)>) -> Map<Seq<char>, Seq<char>>
    decreases entries.len(),
{
    if entries.len() == 0 {
        Map::empty()
    } else {
        table_of(entries.drop_last()).insert(entries.last().0@, entries.last().1@)
    }
}

/// The host under which a request's CNAME is looked up: without its port,
/// then normalized.
pub open spec fn lookup_host(host: Seq<char>) -> Seq<char> {
    normalized_host(port_stripped(host))
}

/// The edge key and the upstream list for a tenant: the tenant's own where
/// the router knows the tenant, else `default` with the default list.
pub open spec fn edge_of(
    tenants: Map<Seq<char>, Seq<Seq<char>>>,
    defaults: Seq<Seq<char>>,
    tenant: Option<Seq<char>>,
) -> (Seq<char>, Seq<Seq<char>>) {
    match tenant {
        Some(t) => if tenants.contains_key(t) {
            (t, tenants[t])
        } else {
            ("default"@, defaults)
        },
        None => ("default"@, defaults),
    }
}

/// The counter of an edge key, zero for a key not yet counted.
pub open spec fn counter_of(rr: Map<Seq<char>, usize>, key: Seq<char>) -> usize {
    if rr.contains_key(key) {
        rr[key]
    } else {
        0
    }
}

/// The upstream that is picked from `ups` at counter value `n`: the list
/// is gone through in turn. From an empty list nothing is picked, and the
/// first default upstream stands in, or the empty string.
pub open spec fn picked(ups: Seq<Seq<char>>, defaults: Seq<Seq<char>>, n: usize) -> Seq<char> {
    if ups.len() > 0 {
        ups[(n as int) % (ups.len() as int)]
    } else if defaults.len() > 0 {
        defaults[0]
    } else {
        Seq::empty()
    }
}

/// The counters after a pick for `key` from `ups`: the key's counter goes
/// up by one, wrapping round; a pick from an empty list counts nothing.
pub open spec fn counted(rr: Map<Seq<char>, usize>, key: Seq<char>, ups: Seq<Seq<char>>) -> Map<
    Seq<char>,
    usize,
> {
    if ups.len() > 0 {
        rr.insert(
            key,
            if counter_of(rr, key) == usize::MAX {
                0usize
            } else {
                (counter_of(rr, key) + 1) as usize
            },
        )
    } else {
        rr
    }
}

pub open spec fn tenants_view(t: Map<Seq<char>, Vec<String>>) -> Map<Seq<char>, Seq<Seq<char>>> {
    Map::new(|k: Seq<char>| t.contains_key(k), |k: Seq<char>| views(t[k]@))
}

pub open spec fn table_view(t: Map<Seq<char>, String>) -> Map<Seq<char>, Seq<char>> {
    Map::new(|k: Seq<char>| t.contains_key(k), |k: Seq<char>| t[k]@)
}

/// A target to connect to: the address with its port, whether to speak
/// TLS, and the host name of the target.
pub struct PeerSpec {
    pub addr: String,
    pub tls: bool,
    /// The host part of the upstream's authority; empty where the upstream
    /// is no URI with an authority.
    pub host: String,
}

/// The parts of a URI that has an authority.
pub struct UriParts {
    pub scheme: Option<String>,
    /// The authority as written: host and, where given, port.
    pub authority: String,
    pub host: String,
    pub port: Option<u16>,
}

/// How the `http` crate reads a string as a URI: `None` where it is no
/// URI or has no authority, else its scheme, authority, host and port.
pub uninterp spec fn uri_parts(s: Seq<char>) -> Option<
    (Option<Seq<char>>, Seq<char>, Seq<char>, Option<u16>),
>;

pub open spec fn parts_view(p: Option<UriParts>) -> Option<
    (Option<Seq<char>>, Seq<char>, Seq<char>, Option<u16>),
> {
    match p {
        Some(p) => Some((opt_view(p.scheme), p.authority@, p.host@, p.port)),
        None => None,
    }
}

/// `str::parse::<Uri>` reads a URI; `Uri::authority`, `Uri::scheme_str`,
/// `Authority::as_str`, `Authority::host` and `Authority::port_u16` give
/// its parts. They depend on the string alone.
#[verifier::external_body]
fn parse_uri(s: &str) -> (r: Option<UriParts>)
    ensures
        parts_view(r) == uri_parts(s@),
{
    let uri = s.parse::<Uri>().ok()?;
    let auth = uri.authority()?;
    Some(
        UriParts {
            scheme: uri.scheme_str().map(|x| x.to_string()),
            authority: auth.as_str().to_string(),
            host: auth.host().to_string(),
            port: auth.port_u16(),
        },
    )
}

/// The target that an upstream stands for, given how it reads as a URI.
///
/// With an authority: TLS where the scheme is `https`, whatever its case;
/// the address is the authority, with `:443` or `:80` added where it has
/// no port. Else the upstream is taken as `host:port` as it stands,
/// without TLS.
pub open spec fn peer_of(
    upstream: Seq<char>,
    parts: Option<(Option<Seq<char>>, Seq<char>, Seq<char>, Option<u16>)>,
) -> (Seq<char>, bool, Seq<char>) {
    match parts {
        Some((scheme, authority, host, port)) => {
            let tls = scheme is Some && eq_fold(scheme.unwrap(), "https"@);
            let addr = if port is Some {
                authority
            } else if tls {
                authority + ":443"@
            } else {
                authority + ":80"@
            };
            (addr, tls, host)
        },
        None => (upstream, false, Seq::empty()),
    }
}

impl PeerSpec {
    /// The name to send as SNI: the host, unless it is an IP literal.
    pub fn sni(&self, host_is_ip: bool) -> (s: String)
        ensures
            s@ == (if host_is_ip {
                Seq::<char>::empty()
            } else {
                self.host@
            }),
    {
        if host_is_ip {
            String::new()
        } else {
            self.host.clone()
        }
    }
}

impl UpstreamRouter {
    /// The table of a router in static mode; `None` in DNS mode.
    pub closed spec fn static_table(&self) -> Option<Map<Seq<char>, Seq<char>>> {
        match self.resolver_mode {
            ResolverMode::Static { host_to_cname } => Some(table_view(host_to_cname@)),
            ResolverMode::Dns { .. } => None,
        }
    }

    /// The timeout of a lookup in DNS mode, where one is set.
    pub closed spec fn dns_timeout_ms(&self) -> Option<u64> {
        match self.resolver_mode {
            ResolverMode::Static { .. } => None,
            ResolverMode::Dns { timeout_ms } => timeout_ms,
        }
    }

    /// For how many seconds an answer from DNS is good.
    pub closed spec fn ttl_secs(&self) -> u64 {
        self.cache_ttl_secs
    }

    /// How many CNAMEs of a chain are followed.
    pub closed spec fn chain_limit(&self) -> usize {
        self.cname_chain_limit
    }

    /// The upstreams of each tenant.
    pub closed spec fn tenants(&self) -> Map<Seq<char>, Seq<Seq<char>>> {
        tenants_view(self.tenants@)
    }

    /// The upstreams of requests that belong to no tenant.
    pub closed spec fn defaults(&self) -> Seq<Seq<char>> {
        views(self.default_upstreams@)
    }

    /// The pattern of the tenant expression.
    pub closed spec fn tenant_pattern(&self) -> Seq<char> {
        regex_source(self.tenant_re)
    }

    /// The round-robin counters by edge key.
    pub closed spec fn rr(&self) -> Map<Seq<char>, usize> {
        counters(self.rr)
    }

    /// The cached answers by host.
    pub closed spec fn cache(&self) -> Map<Seq<char>, (u128, Option<Seq<char>>)> {
        cached(self.cname_cache)
    }

    /// Builds the router of a configuration. It fails exactly when the
    /// tenant expression does not compile.
    ///
    /// A static resolver has no cache and a chain limit of one. A DNS
    /// resolver keeps answers for 30 s and follows 5 CNAMEs unless the
    /// configuration says otherwise, and never fewer than one.
    pub fn new(cfg: UpstreamConfigFile) -> (r: Result<Self, RouterError>)
        ensures
            r is Ok <==> regex_compiles(cfg.cname_routing.tenant_from_cname_regex@),
            (r matches Err(RouterError::BadTenantRegex { detail }) ==> detail@ == regex_error_text(
                cfg.cname_routing.tenant_from_cname_regex@,
            )),
            r matches Ok(router) ==> ({
                &&& router.tenant_pattern() == cfg.cname_routing.tenant_from_cname_regex@
                &&& router.tenants() == tenants_of(cfg.tenants@)
                &&& router.defaults() == views(cfg.default.upstreams@)
                &&& router.rr() == no_counters()
                &&& router.cache() == empty_cache()
                &&& match cfg.resolver {
                    ResolverConfig::Static { host_to_cname } => {
                        &&& router.static_table() == Some(table_of(host_to_cname@))
                        &&& router.ttl_secs() == 0
                        &&& router.chain_limit() == 1
                    },
                    ResolverConfig::Dns { timeout_ms, cache_ttl_secs, cname_chain_limit } => {
                        &&& router.static_table() is None
                        &&& router.dns_timeout_ms() == timeout_ms
                        &&& router.ttl_secs() == (match cache_ttl_secs {
                            Some(s) => s,
                            None => 30,
                        })
                        &&& router.chain_limit() == (match cname_chain_limit {
                            Some(n) => if n < 1 {
                                1
                            } else {
                                n
                            },
                            None => 5,
                        })
                    },
                }
            }),
    {
        let tenant_re = match compile_regex(cfg.cname_routing.tenant_from_cname_regex.as_str()) {
            Ok(re) => re,
            Err(detail) => {
                return Err(RouterError::BadTenantRegex { detail });
            },
        };
        let mut tenants: StringHashMap<Vec<String>> = StringHashMap::new();
        let mut i: usize = 0;
        while i < cfg.tenants.len()
            invariant
                0 <= i <= cfg.tenants.len(),
                tenants_view(tenants@) == tenants_of(cfg.tenants@.take(i as int)),
            decreases cfg.tenants.len() - i,
        {
            proof {
                assert(cfg.tenants@.take(i + 1).drop_last() == cfg.tenants@.take(i as int));
                assert(cfg.tenants@.take(i + 1).last() == cfg.tenants@[i as int]);
            }
            let ghost before = tenants_view(tenants@);
            let ups = clone_strings(&cfg.tenants[i].1.upstreams);
            tenants.insert(cfg.tenants[i].0.clone(), ups);
            assert(tenants_view(tenants@) =~= before.insert(
                cfg.tenants@[i as int].0@,
                views(cfg.tenants@[i as int].1.upstreams@),
            ));
            i += 1;
        }
        assert(cfg.tenants@.take(cfg.tenants.len() as int) == cfg.tenants@);

        let (resolver_mode, cache_ttl_secs, cname_chain_limit) = match &cfg.resolver {
            ResolverConfig::Static { host_to_cname } => {
                let mut table: StringHashMap<String> = StringHashMap::new();
                let mut j: usize = 0;
                while j < host_to_cname.len()
                    invariant
                        0 <= j <= host_to_cname.len(),
                        table_view(table@) == table_of(host_to_cname@.take(j as int)),
                    decreases host_to_cname.len() - j,
                {
                    proof {
                        assert(host_to_cname@.take(j + 1).drop_last() == host_to_cname@.take(
                            j as int,
                        ));
                        assert(host_to_cname@.take(j + 1).last() == host_to_cname@[j as int]);
                    }
                    let ghost before = table_view(table@);
                    table.insert(host_to_cname[j].0.clone(), host_to_cname[j].1.clone());
                    assert(table_view(table@) =~= before.insert(
                        host_to_cname@[j as int].0@,
                        host_to_cname@[j as int].1@,
                    ));
                    j += 1;
                }
                assert(host_to_cname@.take(host_to_cname.len() as int) == host_to_cname@);
                (ResolverMode::Static { host_to_cname: table }, 0u64, 1usize)
            },
            ResolverConfig::Dns { timeout_ms, cache_ttl_secs, cname_chain_limit } => {
                let ttl: u64 = match cache_ttl_secs {
                    Some(s) => *s,
                    None => 30,
                };
                let limit: usize = match cname_chain_limit {
                    Some(n) => if *n < 1 {
                        1
                    } else {
                        *n
                    },
                    None => 5,
                };
                (ResolverMode::Dns { timeout_ms: *timeout_ms }, ttl, limit)
            },
        };
        Ok(
            UpstreamRouter {
                resolver_mode,
                cache_ttl_secs,
                cname_chain_limit,
                cname_cache: cache_new(),
                tenant_re,
                tenants,
                default_upstreams: cfg.default.upstreams,
                rr: counters_new(),
            },
        )
    }

    /// Whether two routers route alike: all but their caches are equal.
    pub closed spec fn same_routes(&self, other: UpstreamRouter) -> bool {
        &&& self.resolver_mode == other.resolver_mode
        &&& self.cache_ttl_secs == other.cache_ttl_secs
        &&& self.cname_chain_limit == other.cname_chain_limit
        &&& self.tenant_re == other.tenant_re
        &&& self.tenants == other.tenants
        &&& self.default_upstreams == other.default_upstreams
        &&& self.rr == other.rr
    }

    /// Takes over the CNAME cache of `from`, which is left with the cache
    /// that this router had.
    pub fn adopt_cache(&mut self, from: &mut UpstreamRouter)
        ensures
            final(self).cache() == old(from).cache(),
            final(from).cache() == old(self).cache(),
            final(self).same_routes(*old(self)),
            final(from).same_routes(*old(from)),
    {
        core::mem::swap(&mut self.cname_cache, &mut from.cname_cache);
    }

    /// Whether the CNAME of a host comes from the table.
    pub fn is_static(&self) -> (r: bool)
        ensures
            r == (self.static_table() is Some),
    {
        match &self.resolver_mode {
            ResolverMode::Static { .. } => true,
            ResolverMode::Dns { .. } => false,
        }
    }

    /// The timeout of a lookup in DNS mode, in milliseconds.
    pub fn dns_timeout(&self) -> (r: Option<u64>)
        ensures
            r == self.dns_timeout_ms(),
    {
        match &self.resolver_mode {
            ResolverMode::Static { .. } => None,
            ResolverMode::Dns { timeout_ms } => *timeout_ms,
        }
    }

    /// How many CNAMEs of a chain are followed.
    pub fn cname_chain_limit(&self) -> (r: usize)
        ensures
            r == self.chain_limit(),
    {
        self.cname_chain_limit
    }

    /// Whether there is an upstream for requests that belong to no tenant.
    pub fn has_default_upstreams(&self) -> (r: bool)
        ensures
            r == (self.defaults().len() > 0),
    {
        self.default_upstreams.len() > 0
    }

    /// What the router knows of the CNAME of `host` at time `now` without
    /// a lookup: in static mode what the table says; in DNS mode a cached
    /// answer that is still good. `None` where a lookup is needed.
    pub open spec fn known_cname(&self, host: Seq<char>, now: u128) -> Option<Option<Seq<char>>> {
        match self.static_table() {
            Some(t) => Some(
                if t.contains_key(host) {
                    Some(t[host])
                } else {
                    None
                },
            ),
            None => if self.ttl_secs() > 0 && self.cache().contains_key(host) && now
                <= self.cache()[host].0 {
                Some(self.cache()[host].1)
            } else {
                None
            },
        }
    }

    /// The tenant that a CNAME names: what group 1 of the tenant expression
    /// captures in it.
    pub open spec fn tenant_of(&self, cname: Option<Seq<char>>) -> Option<Seq<char>> {
        match cname {
            Some(c) => regex_group_one(self.tenant_pattern(), c),
            None => None,
        }
    }

    /// The edge key and the upstream list for a CNAME.
    pub open spec fn edge_for(&self, cname: Option<Seq<char>>) -> (Seq<char>, Seq<Seq<char>>) {
        edge_of(self.tenants(), self.defaults(), self.tenant_of(cname))
    }

    /// Looks up what the router knows of the CNAME of `host` without a DNS
    /// lookup.
    pub fn resolve_known(&self, host: &str, now: u128) -> (r: Option<Option<String>>)
        ensures
            (match r {
                Some(c) => self.known_cname(host@, now) == Some(opt_view(c)),
                None => self.known_cname(host@, now) is None,
            }),
    {
        match &self.resolver_mode {
            ResolverMode::Static { host_to_cname } => {
                match host_to_cname.get(host) {
                    Some(c) => Some(Some(c.clone())),
                    None => Some(None),
                }
            },
            ResolverMode::Dns { .. } => {
                if self.cache_ttl_secs > 0 {
                    if let Some(slot) = cache_get(&self.cname_cache, host) {
                        if now <= slot.0 {
                            return Some(slot.1);
                        }
                    }
                }
                None
            },
        }
    }

    /// Keeps the answer of a DNS lookup for `host` until `now` plus the
    /// time that answers are good for. With the cache switched off, and in
    /// static mode, nothing is kept.
    pub fn remember(&mut self, host: &str, cname: &Option<String>, now: u128)
        requires
            now <= MAX_TIME,
        ensures
            final(self).cache() == (if old(self).static_table() is None && old(self).ttl_secs() > 0 {
                old(self).cache().insert(
                    host@,
                    ((now + old(self).ttl_secs() * NANOS_PER_SEC) as u128, opt_view(*cname)),
                )
            } else {
                old(self).cache()
            }),
            final(self).static_table() == old(self).static_table(),
            final(self).dns_timeout_ms() == old(self).dns_timeout_ms(),
            final(self).ttl_secs() == old(self).ttl_secs(),
            final(self).chain_limit() == old(self).chain_limit(),
            final(self).tenant_pattern() == old(self).tenant_pattern(),
            final(self).tenants() == old(self).tenants(),
            final(self).defaults() == old(self).defaults(),
            final(self).rr() == old(self).rr(),
    {
        if !self.is_static() && self.cache_ttl_secs > 0 {
            let until: u128 = now + (self.cache_ttl_secs as u128) * NANOS_PER_SEC;
            let kept = match cname {
                Some(c) => Some(c.clone()),
                None => None,
            };
            cache_insert(&mut self.cname_cache, host.to_owned(), until, kept);
        }
    }

    /// The tenant that a CNAME names.
    pub fn tenant_from_cname(&self, cname: Option<&str>) -> (r: Option<String>)
        ensures
            opt_view(r) == self.tenant_of(opt_str_view(cname)),
    {
        match cname {
            Some(c) => first_group(&self.tenant_re, c),
            None => None,
        }
    }

    /// Picks the upstream for a request whose host has the CNAME `cname`:
    /// the next in turn of its tenant's upstreams, or of the default ones
    /// where the CNAME names no tenant that the router knows. Returns the
    /// edge key and the upstream.
    pub fn pick_for_cname(&mut self, cname: Option<&str>) -> (r: (String, String))
        ensures
            ({
                let (key, ups) = old(self).edge_for(opt_str_view(cname));
                &&& r.0@ == key
                &&& r.1@ == picked(ups, old(self).defaults(), counter_of(old(self).rr(), key))
                &&& final(self).rr() == counted(old(self).rr(), key, ups)
            }),
            final(self).cache() == old(self).cache(),
            final(self).static_table() == old(self).static_table(),
            final(self).dns_timeout_ms() == old(self).dns_timeout_ms(),
            final(self).ttl_secs() == old(self).ttl_secs(),
            final(self).chain_limit() == old(self).chain_limit(),
            final(self).tenant_pattern() == old(self).tenant_pattern(),
            final(self).tenants() == old(self).tenants(),
            final(self).defaults() == old(self).defaults(),
    {
        let tenant = self.tenant_from_cname(cname);
        let mut key: String = DEFAULT_EDGE_KEY.to_owned();
        let mut ups: &Vec<String> = &self.default_upstreams;
        if let Some(t) = tenant {
            if let Some(list) = self.tenants.get(t.as_str()) {
                key = t;
                ups = list;
            }
        }
        let upstream = match rr_pick(&mut self.rr, key.as_str(), ups) {
            Some(u) => u,
            None => if self.default_upstreams.len() > 0 {
                self.default_upstreams[0].clone()
            } else {
                String::new()
            },
        };
        (key, upstream)
    }

    /// Routes a request for `host` at time `now` as far as it can without
    /// a DNS lookup. A request without a host goes to the default
    /// upstreams. The host is first freed of its port and normalized.
    /// Where the CNAME is known, the upstream is picked; else the router
    /// asks for a lookup and counts nothing.
    pub fn pick_endpoint_and_edge_key(&mut self, host: Option<&str>, now: u128) -> (r: Routed)
        ensures
            ({
                let known = match host {
                    Some(h) => old(self).known_cname(lookup_host(h@), now),
                    None => Some(None),
                };
                match known {
                    Some(cname) => {
                        let (key, ups) = old(self).edge_for(cname);
                        &&& r matches Routed::Picked { edge_key, upstream }
                        &&& edge_key@ == key
                        &&& upstream@ == picked(
                            ups,
                            old(self).defaults(),
                            counter_of(old(self).rr(), key),
                        )
                        &&& final(self).rr() == counted(old(self).rr(), key, ups)
                    },
                    None => {
                        &&& r matches Routed::NeedLookup { host: h }
                        &&& host is Some
                        &&& h@ == lookup_host(host.unwrap()@)
                        &&& final(self).rr() == old(self).rr()
                    },
                }
            }),
            final(self).cache() == old(self).cache(),
            final(self).static_table() == old(self).static_table(),
            final(self).dns_timeout_ms() == old(self).dns_timeout_ms(),
            final(self).ttl_secs() == old(self).ttl_secs(),
            final(self).chain_limit() == old(self).chain_limit(),
            final(self).tenant_pattern() == old(self).tenant_pattern(),
            final(self).tenants() == old(self).tenants(),
            final(self).defaults() == old(self).defaults(),
    {
        let known: Option<Option<String>> = match host {
            Some(h) => {
                let stripped = strip_port(h);
                let name = normalize_host(stripped.as_str());
                match self.resolve_known(name.as_str(), now) {
                    Some(c) => Some(c),
                    None => {
                        return Routed::NeedLookup { host: name };
                    },
                }
            },
            None => Some(None),
        };
        let cname: Option<String> = match known {
            Some(c) => c,
            None => None,
        };
        let picked = match &cname {
            Some(c) => self.pick_for_cname(Some(c.as_str())),
            None => self.pick_for_cname(None),
        };
        Routed::Picked { edge_key: picked.0, upstream: picked.1 }
    }

    /// The upstream for a request for `host`, as `pick_endpoint_and_edge_key`
    /// picks it; `None` where the CNAME of the host has yet to be looked up.
    pub fn pick_endpoint(&mut self, host: Option<&str>, now: u128) -> (r: Option<String>)
        ensures
            ({
                let known = match host {
                    Some(h) => old(self).known_cname(lookup_host(h@), now),
                    None => Some(None),
                };
                match known {
                    Some(cname) => {
                        let (key, ups) = old(self).edge_for(cname);
                        &&& r is Some
                        &&& r.unwrap()@ == picked(
                            ups,
                            old(self).defaults(),
                            counter_of(old(self).rr(), key),
                        )
                        &&& final(self).rr() == counted(old(self).rr(), key, ups)
                    },
                    None => {
                        &&& r is None
                        &&& final(self).rr() == old(self).rr()
                    },
                }
            }),
            final(self).cache() == old(self).cache(),
            final(self).static_table() == old(self).static_table(),
            final(self).dns_timeout_ms() == old(self).dns_timeout_ms(),
            final(self).ttl_secs() == old(self).ttl_secs(),
            final(self).chain_limit() == old(self).chain_limit(),
            final(self).tenant_pattern() == old(self).tenant_pattern(),
            final(self).tenants() == old(self).tenants(),
            final(self).defaults() == old(self).defaults(),
    {
        match self.pick_endpoint_and_edge_key(host, now) {
            Routed::Picked { upstream, .. } => Some(upstream),
            Routed::NeedLookup { .. } => None,
        }
    }

    /// Routes a request after the lookup that `pick_endpoint_and_edge_key`
    /// asked for. The answer of a lookup that came to an end is kept in the
    /// cache; one that failed counts as no CNAME and is not kept.
    pub fn pick_after_lookup(
        &mut self,
        host: &str,
        outcome: Result<Option<String>, String>,
        now: u128,
    ) -> (r: (String, String))
        requires
            now <= MAX_TIME,
        ensures
            ({
                let cname = match outcome {
                    Ok(c) => opt_view(c),
                    Err(_) => None,
                };
                let (key, ups) = old(self).edge_for(cname);
                &&& r.0@ == key
                &&& r.1@ == picked(ups, old(self).defaults(), counter_of(old(self).rr(), key))
                &&& final(self).rr() == counted(old(self).rr(), key, ups)
                &&& final(self).cache() == (if outcome is Ok && old(self).static_table() is None
                    && old(self).ttl_secs() > 0 {
                    old(self).cache().insert(
                        host@,
                        ((now + old(self).ttl_secs() * NANOS_PER_SEC) as u128, cname),
                    )
                } else {
                    old(self).cache()
                })
            }),
            final(self).static_table() == old(self).static_table(),
            final(self).dns_timeout_ms() == old(self).dns_timeout_ms(),
            final(self).ttl_secs() == old(self).ttl_secs(),
            final(self).chain_limit() == old(self).chain_limit(),
            final(self).tenant_pattern() == old(self).tenant_pattern(),
            final(self).tenants() == old(self).tenants(),
            final(self).defaults() == old(self).defaults(),
    {
        let cname: Option<String> = match outcome {
            Ok(c) => {
                self.remember(host, &c, now);
                c
            },
            Err(_) => None,
        };
        match &cname {
            Some(c) => self.pick_for_cname(Some(c.as_str())),
            None => self.pick_for_cname(None),
        }
    }

    /// The target that an upstream stands for.
    pub fn build_peer(upstream: &str) -> (p: PeerSpec)
        ensures
            (p.addr@, p.tls, p.host@) == peer_of(upstream@, uri_parts(upstream@)),
    {
        let parts = parse_uri(upstream);
        peer_from_parts(upstream, parts)
    }
}

/// The target that an upstream stands for, given its parts as a URI.
pub fn peer_from_parts(upstream: &str, parts: Option<UriParts>) -> (p: PeerSpec)
    ensures
        (p.addr@, p.tls, p.host@) == peer_of(upstream@, parts_view(parts)),
{
    match parts {
        Some(parts) => {
            let tls = match &parts.scheme {
                Some(s) => eq_ignore_case(s.as_str(), "https"),
                None => false,
            };
            let mut addr = parts.authority;
            if parts.port.is_none() {
                if tls {
                    addr.append(":443");
                } else {
                    addr.append(":80");
                }
            }
            PeerSpec { addr, tls, host: parts.host }
        },
        None => PeerSpec { addr: upstream.to_owned(), tls: false, host: String::new() },
    }
}

/// Picks from `ups` in turn under the counter of `key`.
fn rr_pick(rr: &mut DashMap<String, usize>, key: &str, ups: &Vec<String>) -> (r: Option<String>)
    ensures
        ups@.len() == 0 ==> r is None,
        ups@.len() > 0 ==> r is Some && r.unwrap()@ == views(ups@)[(counter_of(
            counters(*old(rr)),
            key@,
        ) as int) % (ups@.len() as int)],
        counters(*final(rr)) == counted(counters(*old(rr)), key@, views(ups@)),
{
    if ups.len() == 0 {
        return None;
    }
    let n: usize = match counters_get(rr, key) {
        Some(n) => n,
        None => 0,
    };
    let next: usize = if n == usize::MAX {
        0
    } else {
        n + 1
    };
    counters_insert(rr, key.to_owned(), next);
    Some(ups[n % ups.len()].clone())
}

} // verus!
