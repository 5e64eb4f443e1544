//! What is known of a request when it is evaluated.

use vstd::prelude::*;
use crate::text::{opt_str_view, opt_view, to_upper, upper};
use crate::waf::normalizer::{normalize_host, normalized_host, normalized_path, Normalizer};

verus! {

/// The request attributes that rules read. Built once for a request and
/// not changed afterwards.
#[derive(Debug, Clone)]
pub struct WafContext {
    /// The request method, in upper case.
    pub method: String,
    /// The normalized request path.
    pub path: String,
    /// The client's address in text form.
    pub client_ip: Option<String>,
    /// The normalized host.
    pub host: Option<String>,
    pub user_agent: Option<String>,
}

pub struct WafContextView {
    pub method: Seq<char>,
    pub path: Seq<char>,
    pub client_ip: Option<Seq<char>>,
    pub host: Option<Seq<char>>,
    pub user_agent: Option<Seq<char>>,
}

impl View for WafContext {
    type V = WafContextView;

    open spec fn view(&self) -> WafContextView {
        WafContextView {
            method: self.method@,
            path: self.path@,
            client_ip: opt_view(self.client_ip),
            host: opt_view(self.host),
            user_agent: opt_view(self.user_agent),
        }
    }
}

/// The host of a request: the `host` header where there is one, else the
/// `authority` header, else the authority of the request URI.
pub open spec fn chosen_host(
    host_header: Option<Seq<char>>,
    authority_header: Option<Seq<char>>,
    uri_authority: Option<Seq<char>>,
) -> Option<Seq<char>> {
    let raw = if host_header is Some {
        host_header
    } else if authority_header is Some {
        authority_header
    } else {
        uri_authority
    };
    match raw {
        Some(h) => Some(normalized_host(h)),
        None => None,
    }
}

/// Picks the request's host among its three sources and normalizes it.
pub fn extract_host(
    host_header: Option<&str>,
    authority_header: Option<&str>,
    uri_authority: Option<&str>,
) -> (host: Option<String>)
    ensures
        opt_view(host) == chosen_host(
            opt_str_view(host_header),
            opt_str_view(authority_header),
            opt_str_view(uri_authority),
        ),
{
    let raw = if host_header.is_some() {
        host_header
    } else if authority_header.is_some() {
        authority_header
    } else {
        uri_authority
    };
    match raw {
        Some(h) => Some(normalize_host(h)),
        None => None,
    }
}

impl WafContext {
    /// Builds the context from the raw parts of a request: the method is put
    /// in upper case, the path and the host are normalized.
    pub fn from_session(
        method: &str,
        raw_path: &str,
        host_header: Option<&str>,
        authority_header: Option<&str>,
        uri_authority: Option<&str>,
        client_ip: Option<String>,
        user_agent: Option<String>,
    ) -> (ctx: Self)
        ensures
            ctx@.method == upper(method@),
            ctx@.path == normalized_path(raw_path@),
            ctx@.host == chosen_host(
                opt_str_view(host_header),
                opt_str_view(authority_header),
                opt_str_view(uri_authority),
            ),
            ctx@.client_ip == opt_view(client_ip),
            ctx@.user_agent == opt_view(user_agent),
    {
        WafContext {
            method: to_upper(method),
            path: Normalizer::normalize_path(raw_path),
            client_ip,
            host: extract_host(host_header, authority_header, uri_authority),
            user_agent,
        }
    }
}

} // verus!
