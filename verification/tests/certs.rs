use pingora_waf::server::certs::{
    compute_fingerprint, load_pairs_from_subdirs, load_snapshot, CertDir, CertKeyPair, CertStore,
    CertUpdater, FileMeta, Snapshot,
};

fn pair(tag: &str) -> CertKeyPair {
    CertKeyPair { cert_pem: tag.as_bytes().to_vec(), key_pem: format!("key-{}", tag).into_bytes() }
}

fn store() -> CertStore {
    CertStore::load(Snapshot::build(
        vec![("a.example.com".to_string(), pair("exact-a"))],
        vec![("example.com".to_string(), pair("wild-example"))],
        1,
    ))
}

fn tag(store: &CertStore, sni: &str) -> Option<String> {
    store.lookup(sni).map(|p| String::from_utf8(p.cert_pem.clone()).unwrap())
}

#[test]
fn exact_then_wildcard_then_none() {
    let s = store();
    assert_eq!(tag(&s, "a.example.com"), Some("exact-a".to_string()));
    assert_eq!(tag(&s, "b.example.com"), Some("wild-example".to_string()));
    assert_eq!(tag(&s, "b.c.example.com"), Some("wild-example".to_string()));
    assert_eq!(tag(&s, "other.net"), None);
}

#[test]
fn wildcard_does_not_cover_the_suffix_itself() {
    let s = store();
    assert_eq!(tag(&s, "example.com"), None);
    assert_eq!(tag(&s, "com"), None);
    assert_eq!(tag(&s, ""), None);
}

#[test]
fn names_are_normalized_on_both_sides() {
    let s = CertStore::load(Snapshot::build(
        vec![(" A.Example.COM. ".to_string(), pair("exact-a"))],
        vec![("Example.ORG.".to_string(), pair("wild-org"))],
        1,
    ));
    assert_eq!(tag(&s, "a.example.com"), Some("exact-a".to_string()));
    assert_eq!(tag(&s, "A.EXAMPLE.COM."), Some("exact-a".to_string()));
    assert_eq!(tag(&s, " www.example.org "), Some("wild-org".to_string()));
}

#[test]
fn nearest_parent_domain_wins() {
    let s = CertStore::load(Snapshot::build(
        vec![],
        vec![
            ("example.com".to_string(), pair("outer")),
            ("c.example.com".to_string(), pair("inner")),
        ],
        1,
    ));
    assert_eq!(tag(&s, "b.c.example.com"), Some("inner".to_string()));
    assert_eq!(tag(&s, "b.d.example.com"), Some("outer".to_string()));
}

#[test]
fn later_pair_of_a_name_replaces_the_earlier() {
    let s = CertStore::load(Snapshot::build(
        vec![("a.com".to_string(), pair("first")), ("A.com".to_string(), pair("second"))],
        vec![],
        1,
    ));
    assert_eq!(tag(&s, "a.com"), Some("second".to_string()));
    assert_eq!(s.lookup("a.com").unwrap().key_pem, b"key-second".to_vec());
}

#[test]
fn swap_puts_a_new_snapshot_in_force() {
    let mut s = store();
    assert_eq!(s.fingerprint(), 1);
    s.swap(Snapshot::build(vec![], vec![], 2));
    assert_eq!(s.fingerprint(), 2);
    assert_eq!(tag(&s, "a.example.com"), None);
}

#[test]
fn updater_reloads_on_changed_fingerprint() {
    let mut s = store();
    let mut u = CertUpdater::new(&s, 3);
    assert_eq!(u.interval_secs, 3);
    assert!(!u.on_tick(1));
    assert!(u.on_tick(2));
    // A failed reload leaves everything, so the next tick tries again.
    assert!(!u.on_loaded(&mut s, None));
    assert!(u.on_tick(2));
    assert_eq!(s.fingerprint(), 1);
    assert!(u.on_loaded(&mut s, Some(Snapshot::build(vec![], vec![], 2))));
    assert_eq!(s.fingerprint(), 2);
    assert!(!u.on_tick(2));
    assert!(u.on_tick(1));
}

fn file(path: &str, meta: Option<(u64, Option<u128>)>) -> FileMeta {
    FileMeta { path: path.to_string(), meta }
}

#[test]
fn fingerprint_of_no_files_is_the_offset_basis() {
    assert_eq!(compute_fingerprint(&Vec::new()), 0xcbf29ce484222325);
}

#[test]
fn fingerprint_mixes_path_size_and_time() {
    // FNV-1a over "a", then 1 as eight bytes, then 2 as sixteen bytes.
    let mut h: u64 = 0xcbf29ce484222325;
    let mut bytes = vec![b'a'];
    bytes.extend_from_slice(&1u64.to_le_bytes());
    bytes.extend_from_slice(&2u128.to_le_bytes());
    for b in bytes {
        h ^= b as u64;
        h = h.wrapping_mul(0x100000001b3);
    }
    assert_eq!(compute_fingerprint(&vec![file("a", Some((1, Some(2))))]), h);
}

#[test]
fn fingerprint_tells_changes_apart() {
    let base = compute_fingerprint(&vec![file("server/sni/a/cert.pem", Some((10, Some(5))))]);
    assert_ne!(base, compute_fingerprint(&vec![file("server/sni/a/cert.pem", Some((11, Some(5))))]));
    assert_ne!(base, compute_fingerprint(&vec![file("server/sni/a/cert.pem", Some((10, Some(6))))]));
    assert_ne!(base, compute_fingerprint(&vec![file("server/sni/b/cert.pem", Some((10, Some(5))))]));
    assert_ne!(base, compute_fingerprint(&vec![file("server/sni/a/cert.pem", Some((10, None)))]));
    assert_ne!(base, compute_fingerprint(&vec![file("server/sni/a/cert.pem", None)]));
    assert_eq!(base, compute_fingerprint(&vec![file("server/sni/a/cert.pem", Some((10, Some(5))))]));
}

#[test]
fn directories_lacking_a_file_are_passed_over() {
    let dir = |name: &str, cert: Option<&str>, key: Option<&str>| CertDir {
        name: name.to_string(),
        cert_pem: cert.map(|c| c.as_bytes().to_vec()),
        key_pem: key.map(|k| k.as_bytes().to_vec()),
    };
    let pairs = load_pairs_from_subdirs(vec![
        dir("a.com", Some("ca"), Some("ka")),
        dir("b.com", Some("cb"), None),
        dir("c.com", None, Some("kc")),
        dir("d.com", None, None),
        dir("e.com", Some("ce"), Some("ke")),
    ]);
    let names: Vec<&str> = pairs.iter().map(|p| p.0.as_str()).collect();
    assert_eq!(names, vec!["a.com", "e.com"]);
    assert_eq!(pairs[1].1.cert_pem, b"ce".to_vec());
    assert_eq!(pairs[1].1.key_pem, b"ke".to_vec());
    let s = CertStore::load(load_snapshot(
        vec![dir("A.com", Some("ca"), Some("ka")), dir("b.com", Some("cb"), None)],
        vec![dir("example.com", Some("cw"), Some("kw"))],
        &vec![file("server/sni/A.com/cert.pem", Some((2, Some(3))))],
    ));
    assert_eq!(tag(&s, "a.com"), Some("ca".to_string()));
    assert_eq!(tag(&s, "b.com"), None);
    assert_eq!(tag(&s, "x.example.com"), Some("cw".to_string()));
    assert_eq!(s.fingerprint(), compute_fingerprint(&vec![file("server/sni/A.com/cert.pem", Some((2, Some(3))))]));
}
