use pingora_waf::policy::domain_map::{DomainMapFile, DomainMatcher, DomainTarget};

fn target(p: &str) -> DomainTarget {
    DomainTarget { policy: p.to_string() }
}

fn matcher(entries: &[(&str, &str)], default: &str) -> DomainMatcher {
    DomainMatcher::from_file(DomainMapFile {
        version: 1,
        domains: entries.iter().map(|(k, p)| (k.to_string(), target(p))).collect(),
        default_policy: default.to_string(),
    })
}

#[test]
fn exact_then_wildcard_then_default() {
    let m = matcher(
        &[("a.example.com", "strict"), ("*.example.com", "wild"), ("*.com", "tld")],
        "dflt",
    );
    assert_eq!(m.match_policy_id("a.example.com"), "strict");
    assert_eq!(m.match_policy_id("b.example.com"), "wild");
    assert_eq!(m.match_policy_id("foo.net"), "dflt");
    assert_eq!(m.match_policy_id("shop.com"), "tld");
    assert_eq!(m.default_policy(), "dflt");
}

#[test]
fn longest_suffix_wins_whatever_the_order() {
    let a = matcher(&[("*.com", "short"), ("*.example.com", "long")], "dflt");
    let b = matcher(&[("*.example.com", "long"), ("*.com", "short")], "dflt");
    for m in [a, b] {
        assert_eq!(m.match_policy_id("x.example.com"), "long");
        assert_eq!(m.match_policy_id("x.y.example.com"), "long");
        assert_eq!(m.match_policy_id("x.other.com"), "short");
    }
}

#[test]
fn suffix_itself_matches_but_not_a_longer_name_without_dot() {
    let m = matcher(&[("*.example.com", "wild")], "dflt");
    assert_eq!(m.match_policy_id("example.com"), "wild");
    assert_eq!(m.match_policy_id("badexample.com"), "dflt");
    assert_eq!(m.match_policy_id(".example.com"), "wild");
}

#[test]
fn matching_ignores_case() {
    let m = matcher(&[("A.Example.COM", "strict"), ("*.Example.Org", "wild")], "dflt");
    assert_eq!(m.match_policy_id("a.example.com"), "strict");
    assert_eq!(m.match_policy_id("A.EXAMPLE.COM"), "strict");
    assert_eq!(m.match_policy_id("www.EXAMPLE.org"), "wild");
}

#[test]
fn later_entry_replaces_earlier_exact_entry() {
    let m = matcher(&[("a.com", "first"), ("A.com", "second")], "dflt");
    assert_eq!(m.match_policy_id("a.com"), "second");
}

#[test]
fn equal_length_suffixes_keep_file_order() {
    let m = matcher(&[("*.ab.com", "first"), ("*.cd.com", "x"), ("*.AB.com", "second")], "dflt");
    assert_eq!(m.match_policy_id("www.ab.com"), "first");
}

#[test]
fn empty_map_gives_default() {
    let m = matcher(&[], "dflt");
    assert_eq!(m.match_policy_id("anything"), "dflt");
    assert_eq!(m.match_policy_id(""), "dflt");
}

#[test]
fn bare_star_dot_matches_every_host_with_a_trailing_dot_or_empty() {
    let m = matcher(&[("*.", "root")], "dflt");
    assert_eq!(m.match_policy_id(""), "root");
    assert_eq!(m.match_policy_id("example."), "root");
    assert_eq!(m.match_policy_id("example"), "dflt");
}
