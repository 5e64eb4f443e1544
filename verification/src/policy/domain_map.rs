//! The map from a request's host to the policy that governs it: exact
//! hosts, `*.suffix` patterns with the longest suffix first, and a default.

use vstd::prelude::*;
use vstd::hash_map::StringHashMap;
use vstd::utf8::encode_utf8;
use crate::text::{chars_of, lower, range_eq, string_of, to_lower};

verus! {

/// A domain map as its file states it. `domains` holds the entries in the
/// order in which they are applied; a later entry for a host replaces an
/// earlier one.
#[derive(Debug, Clone)]
pub struct DomainMapFile {
    pub version: u32,
    pub domains: Vec<(String, DomainTarget)>,
    pub default_policy: String,
}

#[derive(Debug, Clone)]
pub struct DomainTarget {
    pub policy: String,
}

/// Matches a host against exact names and `*.suffix` patterns.
pub struct DomainMatcher {
    exact: StringHashMap<String>,
    wildcard_suffix: Vec<(String, String)>,
    default_policy: String,
}

/// A matcher as plain values: policy by exact host, the suffixes with
/// their policies in the order in which they are tried, and the default.
pub struct DomainMatcherView {
    pub exact: Map<Seq<char>, Seq<char>>,
    pub wildcard: Seq<(Seq<char>, Seq<char>)>,
    pub default_policy: Seq<char>,
}

/// The length of a string in bytes.
pub open spec fn byte_len(s: Seq<char>) -> nat {
    encode_utf8(s).len()
}

/// Whether `host` falls under `*.suffix`: it is the suffix itself or ends
/// with a dot and the suffix.
pub open spec fn under_suffix(host: Seq<char>, suffix: Seq<char>) -> bool {
    host == suffix || (seq!['.'] + suffix).is_suffix_of(host)
}

/// The first of `list[from..]` whose suffix `host` falls under.
pub open spec fn first_under(list: Seq<(Seq<char>, Seq<char>)>, host: Seq<char>, from: int) -> Option<
    int,
>
    decreases list.len() - from,
{
    if from < 0 || from >= list.len() {
        None
    } else if under_suffix(host, list[from].0) {
        Some(from)
    } else {
        first_under(list, host, from + 1)
    }
}

/// Suffixes come in the order of their byte lengths, longest first.
pub open spec fn longest_first(list: Seq<(Seq<char>, Seq<char>)>) -> bool {
    forall|i: int, j: int|
        0 <= i <= j < list.len() ==> byte_len(#[trigger] list[i].0) >= byte_len(#[trigger] list[j].0)
}

/// How many suffixes at the head of `list` are at least as long as
/// `suffix`.
pub open spec fn insert_point(list: Seq<(Seq<char>, Seq<char>)>, suffix: Seq<char>) -> nat
    decreases list.len(),
{
    if list.len() == 0 || byte_len(list[0].0) < byte_len(suffix) {
        0
    } else {
        1 + insert_point(list.drop_first(), suffix)
    }
}

/// `list` with one more suffix, put behind the suffixes at its head that
/// are at least as long.
pub open spec fn with_suffix(
    list: Seq<(Seq<char>, Seq<char>)>,
    suffix: Seq<char>,
    policy: Seq<char>,
) -> Seq<(Seq<char>, Seq<char>)> {
    list.insert(insert_point(list, suffix) as int, (suffix, policy))
}

/// The entries of a domain map file as plain values: host pattern and
/// policy.
pub open spec fn entries_of(domains: Seq<(String, DomainTarget)>) -> Seq<(Seq<char>, Seq<char>)> {
    Seq::new(domains.len(), |i: int| (domains[i].0@, domains[i].1.policy@))
}

pub open spec fn is_wildcard(pattern: Seq<char>) -> bool {
    pattern.len() >= 2 && pattern[0] == '*' && pattern[1] == '.'
}

/// The suffix list that the entries give: each `*.suffix` entry, in lower
/// case, added in turn.
pub open spec fn wildcards_of(entries: Seq<(Seq<char>, Seq<char>)>) -> Seq<(Seq<char>, Seq<char>)>
    decreases entries.len(),
{
    if entries.len() == 0 {
        Seq::empty()
    } else {
        let rest = wildcards_of(entries.drop_last());
        let k = lower(entries.last().0);
        if is_wildcard(k) {
            with_suffix(rest, k.skip(2), entries.last().1)
        } else {
            rest
        }
    }
}

/// The exact hosts that the entries give: each entry that is no wildcard,
/// in lower case, a later one in place of an earlier one.
pub open spec fn exacts_of(entries: Seq<(Seq<char>, Seq<char>)>) -> Map<Seq<char>, Seq<char>>
    decreases entries.len(),
{
    if entries.len() == 0 {
        Map::empty()
    } else {
        let rest = exacts_of(entries.drop_last());
        let k = lower(entries.last().0);
        if is_wildcard(k) {
            rest
        } else {
            rest.insert(k, entries.last().1)
        }
    }
}

impl DomainMatcherView {
    /// The policy for a host: that of the host itself, in lower case, where
    /// it is listed; else that of the first suffix that the host falls
    /// under; else the default.
    pub open spec fn policy_for(self, host: Seq<char>) -> Seq<char> {
        let h = lower(host);
        if self.exact.contains_key(h) {
            self.exact[h]
        } else {
            match first_under(self.wildcard, h, 0) {
                Some(i) => self.wildcard[i].1,
                None => self.default_policy,
            }
        }
    }
}

pub open spec fn pairs_view(v: Seq<(String, String)>) -> Seq<(Seq<char>, Seq<char>)> {
    Seq::new(v.len(), |i: int| (v[i].0@, v[i].1@))
}

impl View for DomainMatcher {
    type V = DomainMatcherView;

    closed spec fn view(&self) -> DomainMatcherView {
        DomainMatcherView {
            exact: Map::new(
                |k: Seq<char>| self.exact@.contains_key(k),
                |k: Seq<char>| self.exact@[k]@,
            ),
            wildcard: pairs_view(self.wildcard_suffix@),
            default_policy: self.default_policy@,
        }
    }
}

proof fn lemma_insert_point(list: Seq<(Seq<char>, Seq<char>)>, suffix: Seq<char>)
    ensures
        insert_point(list, suffix) <= list.len(),
        forall|i: int|
            0 <= i < insert_point(list, suffix) ==> byte_len(#[trigger] list[i].0) >= byte_len(
                suffix,
            ),
        insert_point(list, suffix) < list.len() ==> byte_len(
            list[insert_point(list, suffix) as int].0,
        ) < byte_len(suffix),
    decreases list.len(),
{
    if !(list.len() == 0 || byte_len(list[0].0) < byte_len(suffix)) {
        let t = list.drop_first();
        lemma_insert_point(t, suffix);
        assert forall|i: int| 0 <= i < insert_point(list, suffix) implies byte_len(
            #[trigger] list[i].0,
        ) >= byte_len(suffix) by {
            if i > 0 {
                assert(list[i] == t[i - 1]);
            }
        }
    }
}

proof fn lemma_insert_point_is(list: Seq<(Seq<char>, Seq<char>)>, suffix: Seq<char>, k: int)
    requires
        0 <= k <= list.len(),
        forall|i: int| 0 <= i < k ==> byte_len(#[trigger] list[i].0) >= byte_len(suffix),
        k < list.len() ==> byte_len(list[k].0) < byte_len(suffix),
    ensures
        insert_point(list, suffix) == k,
{
    lemma_insert_point(list, suffix);
    let p = insert_point(list, suffix) as int;
    if p < k {
        assert(byte_len(list[p].0) >= byte_len(suffix));
    }
}

proof fn lemma_with_suffix_sorted(
    list: Seq<(Seq<char>, Seq<char>)>,
    suffix: Seq<char>,
    policy: Seq<char>,
)
    requires
        longest_first(list),
    ensures
        longest_first(with_suffix(list, suffix, policy)),
{
    lemma_insert_point(list, suffix);
    let k = insert_point(list, suffix) as int;
    let out = list.insert(k, (suffix, policy));
    assert forall|i: int, j: int| 0 <= i <= j < out.len() implies byte_len(#[trigger] out[i].0)
        >= byte_len(#[trigger] out[j].0) by {
        if i < k {
            assert(out[i] == list[i]);
        } else if i > k {
            assert(out[i] == list[i - 1]);
        }
        if j < k {
            assert(out[j] == list[j]);
        } else if j > k {
            assert(out[j] == list[j - 1]);
            assert(byte_len(list[k].0) >= byte_len(list[j - 1].0));
        }
    }
}

proof fn lemma_wildcards_longest_first(entries: Seq<(Seq<char>, Seq<char>)>)
    ensures
        longest_first(wildcards_of(entries)),
    decreases entries.len(),
{
    if entries.len() > 0 {
        lemma_wildcards_longest_first(entries.drop_last());
        let rest = wildcards_of(entries.drop_last());
        let k = lower(entries.last().0);
        if is_wildcard(k) {
            lemma_with_suffix_sorted(rest, k.skip(2), entries.last().1);
        }
    }
}

/// Of the suffixes that a host falls under, the matcher picks one that is
/// longest in bytes: where the host is not listed itself and falls under
/// suffix `j`, the policy is that of a suffix it falls under which is at
/// least as long.
pub proof fn lemma_longest_suffix_wins(m: DomainMatcherView, host: Seq<char>, j: int)
    requires
        longest_first(m.wildcard),
        !m.exact.contains_key(lower(host)),
        0 <= j < m.wildcard.len(),
        under_suffix(lower(host), m.wildcard[j].0),
    ensures
        first_under(m.wildcard, lower(host), 0) is Some,
        ({
            let i = first_under(m.wildcard, lower(host), 0).unwrap();
            &&& 0 <= i <= j
            &&& under_suffix(lower(host), m.wildcard[i].0)
            &&& byte_len(m.wildcard[i].0) >= byte_len(m.wildcard[j].0)
            &&& m.policy_for(host) == m.wildcard[i].1
        }),
{
    lemma_first_under(m.wildcard, lower(host), 0, j);
}

proof fn lemma_first_under(list: Seq<(Seq<char>, Seq<char>)>, host: Seq<char>, from: int, j: int)
    requires
        0 <= from <= j < list.len(),
        under_suffix(host, list[j].0),
    ensures
        first_under(list, host, from) is Some,
        from <= first_under(list, host, from).unwrap() <= j,
        under_suffix(host, list[first_under(list, host, from).unwrap()].0),
    decreases j - from,
{
    if !under_suffix(host, list[from].0) {
        lemma_first_under(list, host, from + 1, j);
    }
}

/// Whether `h` falls under the suffix `s`.
fn host_under(h: &Vec<char>, s: &Vec<char>) -> (r: bool)
    ensures
        r == under_suffix(h@, s@),
{
    let n = h.len();
    let k = s.len();
    if n == k {
        let r = range_eq(h, 0, s, 0, k);
        proof {
            assert(h@.subrange(0, k as int) == h@);
            assert(s@.subrange(0, k as int) == s@);
            assert(!(seq!['.'] + s@).is_suffix_of(h@));
        }
        r
    } else if n > k {
        let same = range_eq(h, n - k, s, 0, k);
        let r = h[n - k - 1] == '.' && same;
        proof {
            let d = seq!['.'] + s@;
            assert(s@.subrange(0, k as int) == s@);
            let tail = h@.subrange(n - k - 1, n as int);
            assert(tail[0] == h@[n - k - 1]);
            if r {
                assert(tail =~= d);
            } else if d.is_suffix_of(h@) {
                assert(d =~= tail);
                assert(d[0] == '.');
                assert(h@.subrange(n - k, n as int) =~= tail.subrange(1, k + 1));
                assert(d.subrange(1, k + 1) =~= s@);
            }
        }
        r
    } else {
        false
    }
}

impl DomainMatcher {
    /// What every matcher holds of: its suffixes come longest first.
    pub closed spec fn well_formed(&self) -> bool {
        longest_first(pairs_view(self.wildcard_suffix@))
    }

    pub proof fn lemma_well_formed(&self)
        requires
            self.well_formed(),
        ensures
            longest_first(self@.wildcard),
    {
    }

    /// Builds the matcher of a domain map. Patterns are put in lower case;
    /// `*.suffix` patterns go to the suffix list, longest first and in the
    /// order of the file among equals; the others to the exact hosts.
    pub fn from_file(f: DomainMapFile) -> (m: Self)
        ensures
            m.well_formed(),
            m@.exact == exacts_of(entries_of(f.domains@)),
            m@.wildcard == wildcards_of(entries_of(f.domains@)),
            m@.default_policy == f.default_policy@,
    {
        let mut exact: StringHashMap<String> = StringHashMap::new();
        let mut wildcard_suffix: Vec<(String, String)> = Vec::new();
        let ghost entries = entries_of(f.domains@);
        let mut i: usize = 0;
        while i < f.domains.len()
            invariant
                0 <= i <= f.domains.len(),
                entries == entries_of(f.domains@),
                pairs_view(wildcard_suffix@) == wildcards_of(entries.take(i as int)),
                Map::new(|k: Seq<char>| exact@.contains_key(k), |k: Seq<char>| exact@[k]@)
                    == exacts_of(entries.take(i as int)),
            decreases f.domains.len() - i,
        {
            proof {
                assert(entries.take(i + 1).drop_last() == entries.take(i as int));
                assert(entries.take(i + 1).last() == entries[i as int]);
            }
            let key = to_lower(f.domains[i].0.as_str());
            let policy = f.domains[i].1.policy.clone();
            let kv = chars_of(key.as_str());
            if kv.len() >= 2 && kv[0] == '*' && kv[1] == '.' {
                let suffix = string_of(&kv, 2, kv.len());
                let ghost before = pairs_view(wildcard_suffix@);
                let mut k: usize = 0;
                while k < wildcard_suffix.len() && wildcard_suffix[k].0.as_str().as_bytes().len()
                    >= suffix.as_str().as_bytes().len()
                    invariant
                        0 <= k <= wildcard_suffix.len(),
                        before == pairs_view(wildcard_suffix@),
                        forall|j: int|
                            0 <= j < k ==> byte_len(#[trigger] before[j].0) >= byte_len(suffix@),
                    decreases wildcard_suffix.len() - k,
                {
                    assert(before[k as int].0 == wildcard_suffix@[k as int].0@);
                    k += 1;
                }
                proof {
                    if k < wildcard_suffix.len() {
                        assert(before[k as int].0 == wildcard_suffix@[k as int].0@);
                    }
                    lemma_insert_point_is(before, suffix@, k as int);
                }
                wildcard_suffix.insert(k, (suffix, policy));
                assert(pairs_view(wildcard_suffix@) =~= before.insert(
                    k as int,
                    (suffix@, policy@),
                ));
            } else {
                let ghost before = Map::new(
                    |k: Seq<char>| exact@.contains_key(k),
                    |k: Seq<char>| exact@[k]@,
                );
                exact.insert(key, policy);
                assert(Map::new(|k: Seq<char>| exact@.contains_key(k), |k: Seq<char>| exact@[k]@)
                    =~= before.insert(key@, policy@));
            }
            i += 1;
        }
        proof {
            assert(entries.take(f.domains.len() as int) == entries);
            lemma_wildcards_longest_first(entries);
        }
        DomainMatcher { exact, wildcard_suffix, default_policy: f.default_policy }
    }

    /// The id of the policy that governs `host`.
    pub fn match_policy_id(&self, host: &str) -> (id: String)
        ensures
            id@ == self@.policy_for(host@),
    {
        let h = to_lower(host);
        if let Some(p) = self.exact.get(h.as_str()) {
            return p.clone();
        }
        let hv = chars_of(h.as_str());
        let ghost list = pairs_view(self.wildcard_suffix@);
        let mut i: usize = 0;
        while i < self.wildcard_suffix.len()
            invariant
                0 <= i <= self.wildcard_suffix.len(),
                hv@ == lower(host@),
                !self.exact@.contains_key(lower(host@)),
                list == pairs_view(self.wildcard_suffix@),
                first_under(list, hv@, 0) == first_under(list, hv@, i as int),
            decreases self.wildcard_suffix.len() - i,
        {
            let sv = chars_of(self.wildcard_suffix[i].0.as_str());
            assert(list[i as int] == (
                self.wildcard_suffix@[i as int].0@,
                self.wildcard_suffix@[i as int].1@,
            ));
            if host_under(&hv, &sv) {
                proof {
                    assert(!self@.exact.contains_key(hv@));
                    assert(self@.wildcard == list);
                    assert(first_under(list, hv@, i as int) == Some(i as int));
                }
                return self.wildcard_suffix[i].1.clone();
            }
            i += 1;
        }
        self.default_policy.clone()
    }

    /// The id of the policy for hosts that nothing else matches.
    pub fn default_policy(&self) -> (id: &str)
        ensures
            id@ == self@.default_policy,
    {
        self.default_policy.as_str()
    }
}

} // verus!
