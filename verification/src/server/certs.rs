//! The certificate store: certificates by server name, looked up by the
//! exact name first and then by the name's parent domains.

use vstd::prelude::*;
use vstd::hash_map::StringHashMap;
use vstd::utf8::encode_utf8;
use crate::reload::{fnv1a_fold, fnv1a_mix, le_bytes, mix_le, HashWatch, FNV_OFFSET};
use crate::text::{chars_of, string_of};
use crate::waf::normalizer::{normalize_name, normalized_name};

verus! {

/// A certificate and its private key, both in PEM form.
#[derive(Debug, Clone)]
pub struct CertKeyPair {
    pub cert_pem: Vec<u8>,
    pub key_pem: Vec<u8>,
}

/// The certificates in force, with the fingerprint of the files they were
/// read from.
pub struct Snapshot {
    exact: StringHashMap<CertKeyPair>,
    wildcard: StringHashMap<CertKeyPair>,
    fingerprint: u64,
}

/// The store of the certificates in force.
pub struct CertStore {
    snap: Snapshot,
}

/// What is known of one file under the certificate directory.
#[derive(Debug, Clone)]
pub struct FileMeta {
    pub path: String,
    /// The size and, where known, the modification time of the file;
    /// `None` where the file could not be examined.
    pub meta: Option<(u64, Option<u128>)>,
}

/// What was found in one directory of certificates: its name and, for
/// each of the two files, what it holds if it is there.
#[derive(Debug, Clone)]
pub struct CertDir {
    pub name: String,
    pub cert_pem: Option<Vec<u8>>,
    pub key_pem: Option<Vec<u8>>,
}

/// The pairs of the directories that hold both files, in order. A
/// directory that lacks one of them is passed over.
pub open spec fn complete_pairs(dirs: Seq<CertDir>) -> Seq<(String, CertKeyPair)>
    decreases dirs.len(),
{
    if dirs.len() == 0 {
        Seq::empty()
    } else {
        let rest = complete_pairs(dirs.drop_last());
        let d = dirs.last();
        if d.cert_pem is Some && d.key_pem is Some {
            rest.push(
                (d.name, CertKeyPair { cert_pem: d.cert_pem.unwrap(), key_pem: d.key_pem.unwrap() }),
            )
        } else {
            rest
        }
    }
}

/// The map that named pairs give: each under its normalized name, a later
/// one in place of an earlier one of the same name.
pub open spec fn pairs_of(entries: Seq<(String, CertKeyPair)>) -> Map<Seq<char>, CertKeyPair>
    decreases entries.len(),
{
    if entries.len() == 0 {
        Map::empty()
    } else {
        pairs_of(entries.drop_last()).insert(normalized_name(entries.last().0@), entries.last().1)
    }
}

/// The first parent domain of `name`, looked for from position `from` on,
/// that `wildcard` has: for each dot in turn, what follows it.
pub open spec fn first_parent(wildcard: Map<Seq<char>, CertKeyPair>, name: Seq<char>, from: int) -> Option<
    Seq<char>,
>
    decreases name.len() - from,
{
    if from < 0 || from >= name.len() {
        None
    } else if name[from] == '.' && wildcard.contains_key(name.subrange(from + 1, name.len() as int)) {
        Some(name.subrange(from + 1, name.len() as int))
    } else {
        first_parent(wildcard, name, from + 1)
    }
}

/// The pair for a server name: that of the normalized name itself where
/// there is one; else that of the nearest parent domain which has a
/// wildcard pair.
pub open spec fn pair_for(
    exact: Map<Seq<char>, CertKeyPair>,
    wildcard: Map<Seq<char>, CertKeyPair>,
    sni: Seq<char>,
) -> Option<CertKeyPair> {
    let name = normalized_name(sni);
    if exact.contains_key(name) {
        Some(exact[name])
    } else {
        match first_parent(wildcard, name, 0) {
            Some(suffix) => Some(wildcard[suffix]),
            None => None,
        }
    }
}

/// The hash state after one file: its path, and where the file could be
/// examined its size as eight bytes and its modification time, where
/// known, as sixteen bytes, lowest byte first.
pub open spec fn file_mixed(h: u64, f: FileMeta) -> u64 {
    let h1 = fnv1a_fold(h, encode_utf8(f.path@));
    match f.meta {
        Some((size, mtime)) => {
            let h2 = fnv1a_fold(h1, le_bytes(size as nat, 8));
            match mtime {
                Some(t) => fnv1a_fold(h2, le_bytes(t as nat, 16)),
                None => h2,
            }
        },
        None => h1,
    }
}

/// The fingerprint of a tree of files: the FNV-1a hash over the files in
/// the order given.
pub open spec fn fingerprint_of(files: Seq<FileMeta>) -> u64
    decreases files.len(),
{
    if files.len() == 0 {
        FNV_OFFSET
    } else {
        file_mixed(fingerprint_of(files.drop_last()), files.last())
    }
}

/// The fingerprint of the files under the certificate directory.
pub fn compute_fingerprint(files: &Vec<FileMeta>) -> (fp: u64)
    ensures
        fp == fingerprint_of(files@),
{
    let mut h: u64 = FNV_OFFSET;
    let mut i: usize = 0;
    while i < files.len()
        invariant
            0 <= i <= files.len(),
            h == fingerprint_of(files@.take(i as int)),
        decreases files.len() - i,
    {
        proof {
            assert(files@.take(i + 1).drop_last() == files@.take(i as int));
            assert(files@.take(i + 1).last() == files@[i as int]);
        }
        let f = &files[i];
        h = fnv1a_mix(h, f.path.as_str().as_bytes());
        if let Some((size, mtime)) = f.meta {
            h = mix_le(h, size as u128, 8);
            if let Some(t) = mtime {
                h = mix_le(h, t, 16);
            }
        }
        i += 1;
    }
    assert(files@.take(files.len() as int) == files@);
    h
}

fn collect_pairs(entries: Vec<(String, CertKeyPair)>) -> (m: StringHashMap<CertKeyPair>)
    ensures
        m@ == pairs_of(entries@),
{
    let mut m: StringHashMap<CertKeyPair> = StringHashMap::new();
    let ghost all = entries@;
    for e in it: entries
        invariant
            it.seq() == all,
            m@ == pairs_of(all.take(it.index())),
    {
        proof {
            let k = it.index();
            assert(all.take(k + 1).drop_last() == all.take(k));
            assert(all.take(k + 1).last() == e);
        }
        let key = normalize_name(e.0.as_str());
        m.insert(key, e.1);
    }
    assert(all.take(all.len() as int) == all);
    m
}

/// The pairs of the directories that hold both a certificate and a key.
pub fn load_pairs_from_subdirs(dirs: Vec<CertDir>) -> (pairs: Vec<(String, CertKeyPair)>)
    ensures
        pairs@ == complete_pairs(dirs@),
{
    let mut pairs: Vec<(String, CertKeyPair)> = Vec::new();
    let ghost all = dirs@;
    for d in it: dirs
        invariant
            it.seq() == all,
            pairs@ == complete_pairs(all.take(it.index())),
    {
        proof {
            let k = it.index();
            assert(all.take(k + 1).drop_last() == all.take(k));
            assert(all.take(k + 1).last() == d);
        }
        match (d.cert_pem, d.key_pem) {
            (Some(cert_pem), Some(key_pem)) => {
                pairs.push((d.name, CertKeyPair { cert_pem, key_pem }));
            },
            _ => {},
        }
    }
    assert(all.take(all.len() as int) == all);
    pairs
}

/// Builds the snapshot of a certificate directory from what was found
/// under `server/sni` and `server/wildcard` and from the files under
/// `server`.
pub fn load_snapshot(sni: Vec<CertDir>, wildcard: Vec<CertDir>, files: &Vec<FileMeta>) -> (s: Snapshot)
    ensures
        s.exact() == pairs_of(complete_pairs(sni@)),
        s.wildcard() == pairs_of(complete_pairs(wildcard@)),
        s.spec_fingerprint() == fingerprint_of(files@),
{
    Snapshot::build(
        load_pairs_from_subdirs(sni),
        load_pairs_from_subdirs(wildcard),
        compute_fingerprint(files),
    )
}

impl Snapshot {
    pub closed spec fn exact(&self) -> Map<Seq<char>, CertKeyPair> {
        self.exact@
    }

    pub closed spec fn wildcard(&self) -> Map<Seq<char>, CertKeyPair> {
        self.wildcard@
    }

    pub closed spec fn spec_fingerprint(&self) -> u64 {
        self.fingerprint
    }

    /// Builds a snapshot from the pairs found for exact names and for
    /// wildcard suffixes, each under the name of its directory, and the
    /// fingerprint of the files. Names are normalized.
    pub fn build(
        exact: Vec<(String, CertKeyPair)>,
        wildcard: Vec<(String, CertKeyPair)>,
        fingerprint: u64,
    ) -> (s: Self)
        ensures
            s.exact() == pairs_of(exact@),
            s.wildcard() == pairs_of(wildcard@),
            s.spec_fingerprint() == fingerprint,
    {
        Snapshot { exact: collect_pairs(exact), wildcard: collect_pairs(wildcard), fingerprint }
    }

    pub fn fingerprint(&self) -> (fp: u64)
        ensures
            fp == self.spec_fingerprint(),
    {
        self.fingerprint
    }
}

impl CertStore {
    pub closed spec fn snapshot(&self) -> Snapshot {
        self.snap
    }

    /// A store with `snapshot` in force.
    pub fn load(snapshot: Snapshot) -> (s: Self)
        ensures
            s.snapshot() == snapshot,
    {
        CertStore { snap: snapshot }
    }

    /// The fingerprint of the snapshot in force.
    pub fn fingerprint(&self) -> (fp: u64)
        ensures
            fp == self.snapshot().spec_fingerprint(),
    {
        self.snap.fingerprint
    }

    /// Puts `new_snap` in force.
    pub fn swap(&mut self, new_snap: Snapshot)
        ensures
            final(self).snapshot() == new_snap,
    {
        self.snap = new_snap;
    }

    /// The pair to present for a server name, if the store has one.
    pub fn lookup(&self, sni: &str) -> (r: Option<&CertKeyPair>)
        ensures
            (match r {
                Some(p) => Some(*p),
                None => None,
            }) == pair_for(self.snapshot().exact(), self.snapshot().wildcard(), sni@),
    {
        let name = normalize_name(sni);
        if let Some(v) = self.snap.exact.get(name.as_str()) {
            return Some(v);
        }
        let chars = chars_of(name.as_str());
        let n = chars.len();
        let mut i: usize = 0;
        while i < n
            invariant
                0 <= i <= n == chars.len(),
                chars@ == normalized_name(sni@),
                !self.snap.exact@.contains_key(chars@),
                first_parent(self.snap.wildcard@, chars@, 0) == first_parent(
                    self.snap.wildcard@,
                    chars@,
                    i as int,
                ),
            decreases n - i,
        {
            if chars[i] == '.' {
                let suffix = string_of(&chars, i + 1, n);
                if let Some(v) = self.snap.wildcard.get(suffix.as_str()) {
                    return Some(v);
                }
            }
            i += 1;
        }
        None
    }
}

/// Watches the certificate directory for the store.
pub struct CertUpdater {
    pub interval_secs: u64,
    pub watch: HashWatch,
}

impl CertUpdater {
    /// An updater that starts from what `store` has in force.
    pub fn new(store: &CertStore, interval_secs: u64) -> (u: Self)
        ensures
            u.interval_secs == interval_secs,
            u.watch.last_hash == Some(store.snapshot().spec_fingerprint()),
    {
        CertUpdater { interval_secs, watch: HashWatch::starting_at(store.fingerprint()) }
    }

    /// Whether the directory, by its fingerprint, differs from what is in
    /// force, so that it should be read anew.
    pub fn on_tick(&self, fingerprint: u64) -> (reload: bool)
        ensures
            reload == (self.watch.last_hash != Some(fingerprint)),
    {
        self.watch.changed(fingerprint)
    }

    /// Takes the outcome of reading the directory anew. A snapshot is put
    /// in force and its fingerprint remembered; after a failure the old
    /// snapshot stays, and the next tick tries again.
    pub fn on_loaded(&mut self, store: &mut CertStore, loaded: Option<Snapshot>) -> (swapped: bool)
        ensures
            swapped == loaded is Some,
            final(self).interval_secs == old(self).interval_secs,
            loaded matches Some(s) ==> final(store).snapshot() == s && final(self).watch.last_hash
                == Some(s.spec_fingerprint()),
            loaded is None ==> final(store).snapshot() == old(store).snapshot() && final(self).watch
                == old(self).watch,
    {
        match loaded {
            Some(s) => {
                self.watch.commit(s.fingerprint());
                store.swap(s);
                true
            },
            None => false,
        }
    }
}

} // verus!
