//! What the reload supervisors decide: whether a file or a directory has
//! changed since it was last looked at. The supervisors themselves wait,
//! read and parse outside this crate; here is what they remember.
//!
//! Modification times are nanoseconds since the Unix epoch.

use vstd::prelude::*;
use vstd::utf8::encode_utf8;
use crate::text::{chars_of, find_last, range_eq};
use crate::waf::normalizer::rfind_char;

verus! {

pub const FNV_OFFSET: u64 = 0xcbf29ce484222325;

pub const FNV_PRIME: u64 = 0x100000001b3;

/// The FNV-1a hash state after `data`, begun at state `h`: each byte is
/// xor-ed in and the state multiplied by the FNV prime, modulo 2^64.
pub open spec fn fnv1a_fold(h: u64, data: Seq<u8>) -> u64
    decreases data.len(),
{
    if data.len() == 0 {
        h
    } else {
        (fnv1a_fold(h, data.drop_last()) ^ (data.last() as u64)).wrapping_mul(FNV_PRIME)
    }
}

/// The `n` low bytes of `x`, lowest first.
pub open spec fn le_bytes(x: nat, n: nat) -> Seq<u8>
    decreases n,
{
    if n == 0 {
        Seq::empty()
    } else {
        seq![(x % 256) as u8] + le_bytes(x / 256, (n - 1) as nat)
    }
}

pub proof fn lemma_fnv1a_concat(h: u64, a: Seq<u8>, b: Seq<u8>)
    ensures
        fnv1a_fold(h, a + b) == fnv1a_fold(fnv1a_fold(h, a), b),
    decreases b.len(),
{
    if b.len() == 0 {
        assert(a + b == a);
    } else {
        lemma_fnv1a_concat(h, a, b.drop_last());
        assert((a + b).drop_last() == a + b.drop_last());
    }
}

/// Mixes `data` into the hash state `h`.
pub fn fnv1a_mix(h: u64, data: &[u8]) -> (r: u64)
    ensures
        r == fnv1a_fold(h, data@),
{
    let mut acc = h;
    let mut i: usize = 0;
    while i < data.len()
        invariant
            0 <= i <= data.len(),
            acc == fnv1a_fold(h, data@.take(i as int)),
        decreases data.len() - i,
    {
        proof {
            assert(data@.take(i + 1).drop_last() == data@.take(i as int));
        }
        acc = (acc ^ (data[i] as u64)).wrapping_mul(FNV_PRIME);
        i += 1;
    }
    assert(data@.take(data.len() as int) == data@);
    acc
}

/// The 64-bit FNV-1a hash of `data`.
pub fn fnv1a64(data: &[u8]) -> (r: u64)
    ensures
        r == fnv1a_fold(FNV_OFFSET, data@),
{
    fnv1a_mix(FNV_OFFSET, data)
}

/// Mixes the `n` low bytes of `x`, lowest first, into the hash state `h`.
pub fn mix_le(h: u64, x: u128, n: usize) -> (r: u64)
    ensures
        r == fnv1a_fold(h, le_bytes(x as nat, n as nat)),
    decreases n,
{
    if n == 0 {
        h
    } else {
        let b: u8 = (x % 256) as u8;
        let h1 = (h ^ (b as u64)).wrapping_mul(FNV_PRIME);
        proof {
            let first = seq![(x as nat % 256) as u8];
            assert(first.drop_last() == Seq::<u8>::empty());
            assert(first.last() == b);
            assert(fnv1a_fold(h, first.drop_last()) == h);
            assert(fnv1a_fold(h, first) == h1);
            lemma_fnv1a_concat(h, first, le_bytes(x as nat / 256, (n - 1) as nat));
        }
        mix_le(h1, x / 256, n - 1)
    }
}

/// What is known of one entry of a directory.
#[derive(Debug, Clone)]
pub struct DirEntryMeta {
    pub file_name: String,
    pub size: u64,
    /// The time of the last modification, where the file system tells it.
    pub mtime_nanos: Option<u128>,
}

/// Whether a file name ends in `.yaml` or `.yml`, with something before
/// the dot.
pub open spec fn yaml_name(name: Seq<char>) -> bool {
    let dot = find_last(name, '.');
    dot > 0 && (name.subrange(dot + 1, name.len() as int) == "yaml"@ || name.subrange(
        dot + 1,
        name.len() as int,
    ) == "yml"@)
}

/// The hash state after one directory entry: its name, its size as eight
/// bytes and, where it is known, its modification time as sixteen bytes,
/// lowest byte first. An entry that is no YAML file leaves the state alone.
pub open spec fn entry_mixed(h: u64, e: DirEntryMeta) -> u64 {
    if !yaml_name(e.file_name@) {
        h
    } else {
        let h1 = fnv1a_fold(h, encode_utf8(e.file_name@));
        let h2 = fnv1a_fold(h1, le_bytes(e.size as nat, 8));
        match e.mtime_nanos {
            Some(t) => fnv1a_fold(h2, le_bytes(t as nat, 16)),
            None => h2,
        }
    }
}

/// The signature of a directory: the FNV-1a hash over its YAML entries in
/// the order given.
pub open spec fn signature_of(entries: Seq<DirEntryMeta>) -> u64
    decreases entries.len(),
{
    if entries.len() == 0 {
        FNV_OFFSET
    } else {
        entry_mixed(signature_of(entries.drop_last()), entries.last())
    }
}

/// Whether a file name has the extension of a YAML file.
pub fn is_yaml(file_name: &str) -> (r: bool)
    ensures
        r == yaml_name(file_name@),
{
    let v = chars_of(file_name);
    match rfind_char(&v, '.') {
        Some(dot) => {
            if dot == 0 {
                return false;
            }
            let yaml = chars_of("yaml");
            let yml = chars_of("yml");
            let n = v.len() - dot - 1;
            proof {
                reveal_strlit("yaml");
                reveal_strlit("yml");
                assert(yaml@.subrange(0, yaml.len() as int) == yaml@);
                assert(yml@.subrange(0, yml.len() as int) == yml@);
            }
            if n == yaml.len() {
                range_eq(&v, dot + 1, &yaml, 0, n)
            } else if n == yml.len() {
                range_eq(&v, dot + 1, &yml, 0, n)
            } else {
                false
            }
        },
        None => false,
    }
}

/// The signature of a directory listing.
pub fn dir_signature(entries: &Vec<DirEntryMeta>) -> (sig: u64)
    ensures
        sig == signature_of(entries@),
{
    let mut h: u64 = FNV_OFFSET;
    let mut i: usize = 0;
    while i < entries.len()
        invariant
            0 <= i <= entries.len(),
            h == signature_of(entries@.take(i as int)),
        decreases entries.len() - i,
    {
        proof {
            assert(entries@.take(i + 1).drop_last() == entries@.take(i as int));
            assert(entries@.take(i + 1).last() == entries@[i as int]);
        }
        let e = &entries[i];
        if is_yaml(e.file_name.as_str()) {
            h = fnv1a_mix(h, e.file_name.as_str().as_bytes());
            h = mix_le(h, e.size as u128, 8);
            if let Some(t) = e.mtime_nanos {
                h = mix_le(h, t, 16);
            }
        }
        i += 1;
    }
    assert(entries@.take(entries.len() as int) == entries@);
    h
}

/// Remembers the newest modification time seen of a file.
#[derive(Debug, Clone, Copy)]
pub struct MtimeWatch {
    pub last_mtime: Option<u128>,
}

impl MtimeWatch {
    pub fn new() -> (w: Self)
        ensures
            w.last_mtime is None,
    {
        MtimeWatch { last_mtime: None }
    }

    /// Takes the file's modification time and says whether to reload: on
    /// the first look, and whenever the time is strictly newer than the
    /// last one seen. The time is remembered before the reload is tried,
    /// so a reload that fails is not tried again until the file changes.
    pub fn observe(&mut self, mtime: u128) -> (reload: bool)
        ensures
            reload == (old(self).last_mtime is None || old(self).last_mtime.unwrap() < mtime),
            final(self).last_mtime == (if reload {
                Some(mtime)
            } else {
                old(self).last_mtime
            }),
    {
        if let Some(x) = self.last_mtime {
            if x >= mtime {
                return false;
            }
        }
        self.last_mtime = Some(mtime);
        true
    }
}

/// Remembers the signature last seen of a directory.
#[derive(Debug, Clone, Copy)]
pub struct SignatureWatch {
    pub last_sig: Option<u64>,
}

impl SignatureWatch {
    pub fn new() -> (w: Self)
        ensures
            w.last_sig is None,
    {
        SignatureWatch { last_sig: None }
    }

    /// Takes the directory's signature and says whether to reload: on the
    /// first look, and whenever the signature differs from the last one
    /// seen. The signature is remembered before the reload is tried.
    pub fn observe(&mut self, sig: u64) -> (reload: bool)
        ensures
            reload == (old(self).last_sig != Some(sig)),
            final(self).last_sig == Some(sig),
    {
        if let Some(x) = self.last_sig {
            if x == sig {
                return false;
            }
        }
        self.last_sig = Some(sig);
        true
    }
}

/// Remembers the hash of what was last loaded with success.
#[derive(Debug, Clone, Copy)]
pub struct HashWatch {
    pub last_hash: Option<u64>,
}

impl HashWatch {
    /// A watch that has loaded nothing yet.
    pub fn new() -> (w: Self)
        ensures
            w.last_hash is None,
    {
        HashWatch { last_hash: None }
    }

    /// A watch that starts from what is in force.
    pub fn starting_at(hash: u64) -> (w: Self)
        ensures
            w.last_hash == Some(hash),
    {
        HashWatch { last_hash: Some(hash) }
    }

    /// Whether `hash` differs from that of the last successful load.
    pub fn changed(&self, hash: u64) -> (r: bool)
        ensures
            r == (self.last_hash != Some(hash)),
    {
        match self.last_hash {
            Some(x) => x != hash,
            None => true,
        }
    }

    /// Remembers `hash` as loaded with success.
    pub fn commit(&mut self, hash: u64)
        ensures
            final(self).last_hash == Some(hash),
    {
        self.last_hash = Some(hash);
    }
}

} // verus!
