//! The upstream configuration as its file states it.

use vstd::prelude::*;

verus! {

/// `tenants` and a static `host_to_cname` hold the entries of the file's
/// maps in the order in which they are applied; a later entry for a key
/// replaces an earlier one.
#[derive(Debug, Clone)]
pub struct UpstreamConfigFile {
    pub version: u32,
    pub resolver: ResolverConfig,
    pub cname_routing: CnameRouting,
    pub tenants: Vec<(String, TenantUpstreams)>,
    pub default: TenantUpstreams,
}

/// How the CNAME of a host is found.
#[derive(Debug, Clone)]
pub enum ResolverConfig {
    /// In a table.
    Static { host_to_cname: Vec<(String, String)> },
    /// By DNS lookups.
    Dns { timeout_ms: Option<u64>, cache_ttl_secs: Option<u64>, cname_chain_limit: Option<usize> },
}

#[derive(Debug, Clone)]
pub struct CnameRouting {
    /// Group 1 of this regular expression captures the tenant id in a CNAME.
    pub tenant_from_cname_regex: String,
}

#[derive(Debug, Clone)]
pub struct TenantUpstreams {
    pub upstreams: Vec<String>,
}

} // verus!
