use pingora_waf::config::{resolve_with, AppConfig, PolicyConfig, TlsConfig};
use std::path::{Path, PathBuf};

fn bare() -> AppConfig {
    AppConfig {
        metrics_listen: None,
        http_listen: None,
        https_listen: None,
        log_dir: None,
        upstream_config_path: PathBuf::from("upstream.yaml"),
        upstream_hot_reload_secs: None,
        rules_path: PathBuf::from("/etc/aegis/rules.yaml"),
        policy: PolicyConfig {
            domain_map_path: PathBuf::from("policy/domain_map.yaml"),
            policies_dir: PathBuf::from("policy/policies"),
            hot_reload_secs: None,
        },
        tls: TlsConfig { certs_dir: PathBuf::from("certs"), mtls: None, hot_reload_secs: None },
    }
}

#[test]
fn defaults() {
    let c = bare();
    assert_eq!(c.policy_hot_reload_interval_secs(), 3);
    assert_eq!(c.upstream_hot_reload_interval_secs(), 3);
    assert_eq!(c.metrics_addr(), "0.0.0.0:9100");
    assert_eq!(c.listen_addr(), "0.0.0.0:443");
    assert_eq!(c.listen_http_addr(), "0.0.0.0:80");
    assert!(!c.mtls_required());
    assert_eq!(c.log_dir_path(), PathBuf::from("logs"));
}

#[test]
fn settings_override_defaults() {
    let mut c = bare();
    c.metrics_listen = Some("127.0.0.1:1".to_string());
    c.http_listen = Some("127.0.0.1:2".to_string());
    c.https_listen = Some("127.0.0.1:3".to_string());
    c.log_dir = Some(PathBuf::from("/var/log/aegis"));
    c.upstream_hot_reload_secs = Some(9);
    c.policy.hot_reload_secs = Some(8);
    c.tls.mtls = Some(true);
    assert_eq!(c.metrics_addr(), "127.0.0.1:1");
    assert_eq!(c.listen_http_addr(), "127.0.0.1:2");
    assert_eq!(c.listen_addr(), "127.0.0.1:3");
    assert_eq!(c.log_dir_path(), PathBuf::from("/var/log/aegis"));
    assert_eq!(c.upstream_hot_reload_interval_secs(), 9);
    assert_eq!(c.policy_hot_reload_interval_secs(), 8);
    assert!(c.mtls_required());
    c.tls.mtls = Some(false);
    assert!(!c.mtls_required());
}

#[test]
fn relative_paths_are_put_behind_the_base_directory() {
    let mut c = bare();
    c.log_dir = Some(PathBuf::from("logs"));
    c.resolve_paths(Path::new("/opt/aegis"));
    assert_eq!(c.log_dir, Some(PathBuf::from("/opt/aegis/logs")));
    assert_eq!(c.upstream_config_path, PathBuf::from("/opt/aegis/upstream.yaml"));
    assert_eq!(c.rules_path, PathBuf::from("/etc/aegis/rules.yaml"));
    assert_eq!(c.tls.certs_dir, PathBuf::from("/opt/aegis/certs"));
    assert_eq!(c.policy.domain_map_path, PathBuf::from("/opt/aegis/policy/domain_map.yaml"));
    assert_eq!(c.policy.policies_dir, PathBuf::from("/opt/aegis/policy/policies"));
}

#[test]
fn unset_log_dir_stays_unset() {
    let mut c = bare();
    c.resolve_paths(Path::new("/opt/aegis"));
    assert_eq!(c.log_dir, None);
    assert_eq!(c.metrics_listen, None);
}

#[test]
fn resolve_with_picks_by_the_flag() {
    let p = PathBuf::from("/abs");
    let j = PathBuf::from("/base/abs");
    assert_eq!(resolve_with(p.clone(), true, j.clone()), p);
    assert_eq!(resolve_with(p, false, j.clone()), j);
}
