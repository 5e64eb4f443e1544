use pingora_waf::reload::{
    dir_signature, fnv1a64, fnv1a_mix, is_yaml, DirEntryMeta, HashWatch, MtimeWatch,
    SignatureWatch,
};

#[test]
fn fnv1a64_known_values() {
    assert_eq!(fnv1a64(b""), 0xcbf29ce484222325);
    assert_eq!(fnv1a64(b"a"), 0xaf63dc4c8601ec8c);
    assert_eq!(fnv1a64(b"foobar"), 0x85944171f73967e8);
}

#[test]
fn mixing_in_parts_equals_mixing_at_once() {
    let whole = fnv1a64(b"hello world");
    let h = fnv1a_mix(0xcbf29ce484222325, b"hello");
    assert_eq!(fnv1a_mix(h, b" world"), whole);
    assert_eq!(fnv1a_mix(7, b""), 7);
}

#[test]
fn yaml_names() {
    assert!(is_yaml("policy.yaml"));
    assert!(is_yaml("policy.yml"));
    assert!(is_yaml("a.b.yml"));
    assert!(!is_yaml("policy.YAML"));
    assert!(!is_yaml("policy.yaml.bak"));
    assert!(!is_yaml("policy"));
    assert!(!is_yaml(".yaml"));
    assert!(!is_yaml("yaml"));
    assert!(!is_yaml("policy.yam"));
    assert!(!is_yaml(""));
}

fn entry(name: &str, size: u64, mtime: Option<u128>) -> DirEntryMeta {
    DirEntryMeta { file_name: name.to_string(), size, mtime_nanos: mtime }
}

fn by_hand(parts: &[&[u8]]) -> u64 {
    let mut h: u64 = 0xcbf29ce484222325;
    for p in parts {
        for b in p.iter() {
            h ^= *b as u64;
            h = h.wrapping_mul(0x100000001b3);
        }
    }
    h
}

#[test]
fn signature_of_an_empty_directory() {
    assert_eq!(dir_signature(&Vec::new()), 0xcbf29ce484222325);
    assert_eq!(dir_signature(&vec![entry("notes.txt", 5, Some(1))]), 0xcbf29ce484222325);
}

#[test]
fn signature_mixes_name_size_and_time_of_yaml_files() {
    let sig = dir_signature(&vec![
        entry("a.yaml", 258, Some(0x0102_0304_0506_0708_090a)),
        entry("skip.txt", 1, Some(1)),
        entry("b.yml", 0, None),
    ]);
    let want = by_hand(&[
        b"a.yaml",
        &258u64.to_le_bytes(),
        &0x0102_0304_0506_0708_090au128.to_le_bytes(),
        b"b.yml",
        &0u64.to_le_bytes(),
    ]);
    assert_eq!(sig, want);
}

#[test]
fn signature_changes_with_size_and_time() {
    let base = dir_signature(&vec![entry("a.yaml", 10, Some(5))]);
    assert_ne!(base, dir_signature(&vec![entry("a.yaml", 11, Some(5))]));
    assert_ne!(base, dir_signature(&vec![entry("a.yaml", 10, Some(6))]));
    assert_ne!(base, dir_signature(&vec![entry("b.yaml", 10, Some(5))]));
    assert_eq!(base, dir_signature(&vec![entry("a.yaml", 10, Some(5))]));
}

#[test]
fn mtime_watch_wants_strictly_newer() {
    let mut w = MtimeWatch::new();
    assert!(w.observe(10));
    assert_eq!(w.last_mtime, Some(10));
    assert!(!w.observe(10));
    assert!(!w.observe(9));
    assert_eq!(w.last_mtime, Some(10));
    assert!(w.observe(11));
    assert_eq!(w.last_mtime, Some(11));
}

#[test]
fn signature_watch_wants_a_difference() {
    let mut w = SignatureWatch::new();
    assert!(w.observe(1));
    assert!(!w.observe(1));
    assert!(w.observe(0));
    assert_eq!(w.last_sig, Some(0));
}

#[test]
fn hash_watch_remembers_only_what_was_committed() {
    let mut w = HashWatch::new();
    assert!(w.changed(1));
    assert!(w.changed(1));
    w.commit(1);
    assert!(!w.changed(1));
    assert!(w.changed(2));
    let s = HashWatch::starting_at(9);
    assert!(!s.changed(9));
    assert!(s.changed(8));
}
