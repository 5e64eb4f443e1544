//! The settings of the proxy, with their defaults.

use vstd::prelude::*;
use std::path::{Path, PathBuf};

verus! {

#[verifier::external_type_specification]
#[verifier::external_body]
pub struct ExPathBuf(PathBuf);

#[verifier::external_type_specification]
#[verifier::external_body]
pub struct ExPath(Path);

/// Whether a path is absolute, by the rules of the platform that the
/// crate is built for.
pub uninterp spec fn path_absolute(p: PathBuf) -> bool;

/// The path `p` put behind the directory `base_dir`, by the rules of the
/// platform that the crate is built for.
pub uninterp spec fn path_joined(base_dir: &Path, p: PathBuf) -> PathBuf;

/// `Path::is_absolute` says whether the path is absolute. It looks at the
/// path alone, not at the file system or the current directory.
#[verifier::external_body]
fn path_is_absolute(p: &PathBuf) -> (r: bool)
    ensures
        r == path_absolute(*p),
{
    p.is_absolute()
}

/// `Path::join` makes the path that is `p` adjoined to `base_dir`. It
/// looks at the two paths alone.
#[verifier::external_body]
fn path_join(base_dir: &Path, p: &PathBuf) -> (r: PathBuf)
    ensures
        r == path_joined(base_dir, *p),
{
    base_dir.join(p)
}

/// `PathBuf::clone` gives an equal path.
#[verifier::external_body]
fn path_clone(p: &PathBuf) -> (r: PathBuf)
    ensures
        r == *p,
{
    p.clone()
}

/// The text of a path that was made from a string.
pub uninterp spec fn path_text(p: PathBuf) -> Seq<char>;

/// `PathBuf::from` makes the path that a string spells.
#[verifier::external_body]
fn path_from(s: &str) -> (r: PathBuf)
    ensures
        path_text(r) == s@,
{
    PathBuf::from(s)
}

#[derive(Debug)]
pub struct AppConfig {
    pub metrics_listen: Option<String>,
    pub http_listen: Option<String>,
    pub https_listen: Option<String>,
    /// The directory for the log files.
    pub log_dir: Option<PathBuf>,
    pub upstream_config_path: PathBuf,
    pub upstream_hot_reload_secs: Option<u64>,
    pub rules_path: PathBuf,
    pub policy: PolicyConfig,
    pub tls: TlsConfig,
}

#[derive(Debug)]
pub struct TlsConfig {
    pub certs_dir: PathBuf,
    pub mtls: Option<bool>,
    /// Seconds between two looks at the certificate directory.
    pub hot_reload_secs: Option<u64>,
}

#[derive(Debug)]
pub struct PolicyConfig {
    pub domain_map_path: PathBuf,
    pub policies_dir: PathBuf,
    pub hot_reload_secs: Option<u64>,
}

pub const DEFAULT_RELOAD_SECS: u64 = 3;

/// `path` seen from `base_dir`: an absolute path is taken as it is, and
/// `joined`, the path put behind the base directory, stands for any other.
pub open spec fn resolved(path: PathBuf, is_absolute: bool, joined: PathBuf) -> PathBuf {
    if is_absolute {
        path
    } else {
        joined
    }
}

/// Picks between a path and the same path behind a base directory.
pub fn resolve_with(path: PathBuf, is_absolute: bool, joined: PathBuf) -> (r: PathBuf)
    ensures
        r == resolved(path, is_absolute, joined),
{
    if is_absolute {
        path
    } else {
        joined
    }
}

/// `p` seen from `base_dir`: `p` itself where it is absolute, else `p` put
/// behind `base_dir`.
pub open spec fn resolved_from(base_dir: &Path, p: PathBuf) -> PathBuf {
    resolved(p, path_absolute(p), path_joined(base_dir, p))
}

/// An optional path seen from `base_dir`; none stays none.
pub open spec fn opt_resolved_from(base_dir: &Path, p: Option<PathBuf>) -> Option<PathBuf> {
    match p {
        Some(p) => Some(resolved_from(base_dir, p)),
        None => None,
    }
}

/// `p` seen from `base_dir`: an absolute path is kept as it is, any other
/// is put behind the base directory.
fn resolve_path(base_dir: &Path, p: &PathBuf) -> (r: PathBuf)
    ensures
        r == resolved_from(base_dir, *p),
{
    let is_absolute = path_is_absolute(p);
    let joined = path_join(base_dir, p);
    resolve_with(path_clone(p), is_absolute, joined)
}

impl AppConfig {
    /// Seconds between two looks at the policy files; 3 unless set.
    pub fn policy_hot_reload_interval_secs(&self) -> (r: u64)
        ensures
            r == (match self.policy.hot_reload_secs {
                Some(s) => s,
                None => 3,
            }),
    {
        match self.policy.hot_reload_secs {
            Some(s) => s,
            None => DEFAULT_RELOAD_SECS,
        }
    }

    /// Where the metrics are served; `0.0.0.0:9100` unless set.
    pub fn metrics_addr(&self) -> (r: String)
        ensures
            r@ == (match self.metrics_listen {
                Some(s) => s@,
                None => "0.0.0.0:9100"@,
            }),
    {
        match &self.metrics_listen {
            Some(s) => s.clone(),
            None => "0.0.0.0:9100".to_owned(),
        }
    }

    /// Where HTTPS is served; `0.0.0.0:443` unless set.
    pub fn listen_addr(&self) -> (r: String)
        ensures
            r@ == (match self.https_listen {
                Some(s) => s@,
                None => "0.0.0.0:443"@,
            }),
    {
        match &self.https_listen {
            Some(s) => s.clone(),
            None => "0.0.0.0:443".to_owned(),
        }
    }

    /// Where plain HTTP is served; `0.0.0.0:80` unless set.
    pub fn listen_http_addr(&self) -> (r: String)
        ensures
            r@ == (match self.http_listen {
                Some(s) => s@,
                None => "0.0.0.0:80"@,
            }),
    {
        match &self.http_listen {
            Some(s) => s.clone(),
            None => "0.0.0.0:80".to_owned(),
        }
    }

    /// Seconds between two looks at the upstream file; 3 unless set.
    pub fn upstream_hot_reload_interval_secs(&self) -> (r: u64)
        ensures
            r == (match self.upstream_hot_reload_secs {
                Some(s) => s,
                None => 3,
            }),
    {
        match self.upstream_hot_reload_secs {
            Some(s) => s,
            None => DEFAULT_RELOAD_SECS,
        }
    }

    /// Whether clients must present a certificate; not unless set.
    pub fn mtls_required(&self) -> (r: bool)
        ensures
            r == (self.tls.mtls == Some(true)),
    {
        match self.tls.mtls {
            Some(b) => b,
            None => false,
        }
    }

    /// The directory for the log files; `logs` unless set.
    pub fn log_dir_path(&self) -> (r: PathBuf)
        ensures
            self.log_dir matches Some(d) ==> r == d,
            self.log_dir is None ==> path_text(r) == "logs"@,
    {
        match &self.log_dir {
            Some(d) => path_clone(d),
            None => path_from("logs"),
        }
    }

    /// Makes every path of the configuration one seen from `base_dir`, the
    /// directory of the configuration file: an absolute path stays as it
    /// is, a relative one is put behind `base_dir`. Nothing else changes,
    /// and a log directory that is not set stays so.
    pub fn resolve_paths(&mut self, base_dir: &Path)
        ensures
            final(self).log_dir == opt_resolved_from(base_dir, old(self).log_dir),
            final(self).upstream_config_path == resolved_from(
                base_dir,
                old(self).upstream_config_path,
            ),
            final(self).rules_path == resolved_from(base_dir, old(self).rules_path),
            final(self).tls.certs_dir == resolved_from(base_dir, old(self).tls.certs_dir),
            final(self).policy.domain_map_path == resolved_from(
                base_dir,
                old(self).policy.domain_map_path,
            ),
            final(self).policy.policies_dir == resolved_from(
                base_dir,
                old(self).policy.policies_dir,
            ),
            final(self).metrics_listen == old(self).metrics_listen,
            final(self).http_listen == old(self).http_listen,
            final(self).https_listen == old(self).https_listen,
            final(self).upstream_hot_reload_secs == old(self).upstream_hot_reload_secs,
            final(self).policy.hot_reload_secs == old(self).policy.hot_reload_secs,
            final(self).tls.mtls == old(self).tls.mtls,
            final(self).tls.hot_reload_secs == old(self).tls.hot_reload_secs,
    {
        let log_dir = match &self.log_dir {
            Some(p) => Some(resolve_path(base_dir, p)),
            None => None,
        };
        self.log_dir = log_dir;
        self.upstream_config_path = resolve_path(base_dir, &self.upstream_config_path);
        self.rules_path = resolve_path(base_dir, &self.rules_path);
        self.tls.certs_dir = resolve_path(base_dir, &self.tls.certs_dir);
        self.policy.domain_map_path = resolve_path(base_dir, &self.policy.domain_map_path);
        self.policy.policies_dir = resolve_path(base_dir, &self.policy.policies_dir);
    }
}

} // verus!
