//! Normal forms of request paths and host names.

use vstd::prelude::*;
use crate::text::{
    all_digits, ascii_lower, chars_of, find_last, is_digit, is_digit_char, is_space,
    lemma_find_last_is, lemma_strip_trailing_is, lower, lower_char, string_of, strip_trailing,
    trim, trim_bounds, trim_end, trim_start,
};

verus! {

/// `s` with every run of `/` reduced to a single `/`.
pub open spec fn collapse_slashes(s: Seq<char>) -> Seq<char>
    decreases s.len(),
{
    if s.len() == 0 {
        s
    } else {
        let r = collapse_slashes(s.drop_last());
        if s.last() == '/' && s.len() >= 2 && s[s.len() - 2] == '/' {
            r
        } else {
            r.push(s.last())
        }
    }
}

/// The normal form of a request path: runs of `/` collapsed, and `/` in
/// place of the empty path.
pub open spec fn normalized_path(s: Seq<char>) -> Seq<char> {
    if collapse_slashes(s).len() == 0 {
        seq!['/']
    } else {
        collapse_slashes(s)
    }
}

pub open spec fn no_double_slash(s: Seq<char>) -> bool {
    forall|i: int| 0 <= i && i + 1 < s.len() ==> !(#[trigger] s[i] == '/' && s[i + 1] == '/')
}

/// The normal form of a name: trimmed, without trailing dots, in lower case.
pub open spec fn normalized_name(s: Seq<char>) -> Seq<char> {
    lower(strip_trailing(trim(s), '.'))
}

/// `h` without a final `:digits` part, where at least one digit follows the
/// last colon.
pub open spec fn without_port(h: Seq<char>) -> Seq<char> {
    let i = find_last(h, ':');
    if 0 <= i && i + 1 < h.len() && all_digits(h.subrange(i + 1, h.len() as int)) {
        h.subrange(0, i)
    } else {
        h
    }
}

/// The normal form of a host: trimmed and in lower case, without its port
/// and without trailing dots, those before the port included. A host that
/// begins with `[` keeps what follows the bracket, a port included; only
/// the dots at its very end are dropped.
pub open spec fn normalized_host(host: Seq<char>) -> Seq<char> {
    let h = normalized_name(host);
    if h.len() > 0 && h[0] == '[' {
        h
    } else {
        strip_trailing(without_port(h), '.')
    }
}

/// `host` up to its last colon where only digits (or nothing) follow it;
/// a host that begins with `[` is left as it is.
pub open spec fn port_stripped(host: Seq<char>) -> Seq<char> {
    let i = find_last(host, ':');
    if host.len() > 0 && host[0] == '[' {
        host
    } else if 0 <= i && all_digits(host.subrange(i + 1, host.len() as int)) {
        host.subrange(0, i)
    } else {
        host
    }
}

proof fn lemma_collapse_shape(s: Seq<char>)
    ensures
        collapse_slashes(s).len() <= s.len(),
        s.len() > 0 ==> collapse_slashes(s).len() > 0,
        s.len() > 0 ==> collapse_slashes(s).last() == s.last(),
        s.len() > 0 ==> collapse_slashes(s)[0] == s[0],
        no_double_slash(collapse_slashes(s)),
    decreases s.len(),
{
    if s.len() > 0 {
        let t = s.drop_last();
        lemma_collapse_shape(t);
        let r = collapse_slashes(t);
        if t.len() > 0 {
            assert(t.last() == s[s.len() - 2]);
            assert(t[0] == s[0]);
        }
    }
}

proof fn lemma_collapse_fixed(s: Seq<char>)
    requires
        no_double_slash(s),
    ensures
        collapse_slashes(s) == s,
    decreases s.len(),
{
    if s.len() > 0 {
        let t = s.drop_last();
        assert forall|i: int| 0 <= i && i + 1 < t.len() implies !(#[trigger] t[i] == '/' && t[i
            + 1] == '/') by {
            assert(t[i] == s[i] && t[i + 1] == s[i + 1]);
        }
        lemma_collapse_fixed(t);
        if s.len() >= 2 {
            assert(!(s[s.len() - 2] == '/' && s[s.len() - 2 + 1] == '/'));
        }
        assert(t.push(s.last()) == s);
    }
}

/// Normalizing a path twice gives what normalizing it once gives. The
/// normal form is never empty, has no `//`, and begins with `/` where the
/// path does.
pub proof fn lemma_normalize_path_idempotent(p: Seq<char>)
    ensures
        normalized_path(normalized_path(p)) == normalized_path(p),
        normalized_path(p).len() > 0,
        no_double_slash(normalized_path(p)),
        p.len() > 0 && p[0] == '/' ==> normalized_path(p)[0] == '/',
{
    lemma_collapse_shape(p);
    let n = normalized_path(p);
    if collapse_slashes(p).len() == 0 {
        assert(no_double_slash(n));
    }
    lemma_collapse_fixed(n);
}

proof fn lemma_strip_trailing_shape(s: Seq<char>, c: char)
    ensures
        strip_trailing(s, c).len() <= s.len(),
        strip_trailing(s, c) == s.subrange(0, strip_trailing(s, c).len() as int),
        strip_trailing(s, c).len() > 0 ==> strip_trailing(s, c).last() != c,
    decreases s.len(),
{
    if s.len() > 0 && s.last() == c {
        let t = s.drop_last();
        lemma_strip_trailing_shape(t, c);
        let r = strip_trailing(t, c);
        assert(t.subrange(0, r.len() as int) == s.subrange(0, r.len() as int));
    } else {
        assert(s.subrange(0, s.len() as int) == s);
    }
}

/// The normal form of a host that does not begin with `[` has no dot at
/// its end and no ASCII upper-case letter.
pub proof fn lemma_normalized_host_shape(host: Seq<char>)
    requires
        !(normalized_name(host).len() > 0 && normalized_name(host)[0] == '['),
    ensures
        normalized_host(host).len() > 0 ==> normalized_host(host).last() != '.',
        lower(normalized_host(host)) == normalized_host(host),
{
    let h = normalized_name(host);
    let w = without_port(h);
    let r = normalized_host(host);
    lemma_strip_trailing_shape(w, '.');
    assert forall|i: int| 0 <= i < r.len() implies ascii_lower(#[trigger] r[i]) == r[i] by {
        assert(r[i] == w[i]);
        assert(w[i] == h[i]);
        let x = strip_trailing(trim(host), '.');
        assert(h[i] == ascii_lower(x[i]));
    }
    assert(lower(r) =~= r);
}

/// A host name that normalizing leaves alone as far as colons and white
/// space go: it holds no colon, and no white space at either end.
pub open spec fn settled(r: Seq<char>) -> bool {
    &&& forall|i: int| 0 <= i < r.len() ==> #[trigger] r[i] != ':'
    &&& r.len() > 0 ==> !is_space(r[0]) && !is_space(r.last())
}

/// Normalizing a host twice gives what normalizing it once gives, where
/// the host does not begin with `[` and its normal form is settled: one
/// port was cut, and no second colon or inner white space came to its end.
pub proof fn lemma_normalize_host_idempotent(host: Seq<char>)
    requires
        !(normalized_name(host).len() > 0 && normalized_name(host)[0] == '['),
        settled(normalized_host(host)),
    ensures
        normalized_host(normalized_host(host)) == normalized_host(host),
{
    let h = normalized_name(host);
    let w = without_port(h);
    let r = normalized_host(host);
    lemma_normalized_host_shape(host);
    lemma_strip_trailing_shape(w, '.');
    assert(trim_start(r) == r);
    assert(trim_end(r) == r);
    assert(strip_trailing(r, '.') == r);
    assert(normalized_name(r) == r);
    if r.len() > 0 {
        assert(r[0] == w[0]);
        assert(w[0] == h[0]);
    }
    lemma_find_last_is(r, ':', -1);
    assert(without_port(r) == r);
}

/// A host whose normalized name begins with `[` keeps everything after it,
/// a port included.
pub proof fn lemma_bracketed_host_kept(host: Seq<char>)
    requires
        normalized_name(host).len() > 0,
        normalized_name(host)[0] == '[',
    ensures
        normalized_host(host) == normalized_name(host),
{
}

pub struct Normalizer;

impl Normalizer {
    /// Collapses runs of `/`; the empty path becomes `/`.
    pub fn normalize_path(raw: &str) -> (out: String)
        ensures
            out@ == normalized_path(raw@),
            out@.len() > 0,
    {
            let mut out = String::new();
        let mut prev_slash = false;
        for ch in it: raw.chars()
            invariant
                it.seq() == raw@,
                out@ == collapse_slashes(raw@.take(it.index())),
                prev_slash == (it.index() > 0 && raw@[it.index() - 1] == '/'),
        {
            proof {
                let k = it.index();
                assert(raw@.take(k + 1).drop_last() == raw@.take(k));
                assert(raw@.take(k + 1).last() == ch);
                if k > 0 {
                    assert(raw@.take(k + 1)[k - 1] == raw@[k - 1]);
                }
            }
            if ch == '/' {
                if !prev_slash {
                    out.push(ch);
                }
                prev_slash = true;
            } else {
                prev_slash = false;
                out.push(ch);
            }
        }
        proof {
            assert(raw@.take(raw@.len() as int) == raw@);
            lemma_collapse_shape(raw@);
        }
        if out.as_str().is_empty() {
            out.push('/');
            assert(out@ == seq!['/']);
        }
        out
    }
}

/// The characters of the normalized name of `s`.
fn normalized_name_chars(s: &str) -> (h: Vec<char>)
    ensures
        h@ == normalized_name(s@),
{
    let v = chars_of(s);
    let (a, b0) = trim_bounds(&v, 0, v.len());
    assert(v@.subrange(0, v.len() as int) == v@);
    let ghost t = trim(v@);
    let mut b: usize = b0;
    while b > a && v[b - 1] == '.'
        invariant
            a <= b <= b0 <= v.len(),
            t == v@.subrange(a as int, b0 as int),
            forall|i: int| b - a <= i < t.len() ==> #[trigger] t[i] == '.',
        decreases b,
    {
        b -= 1;
    }
    proof {
        if b > a {
            assert(t[b - a - 1] == v@[b - 1]);
        }
        lemma_strip_trailing_is(t, '.', b - a);
        assert(t.subrange(0, b - a) == v@.subrange(a as int, b as int));
    }
    let ghost u = v@.subrange(a as int, b as int);
    let mut h: Vec<char> = Vec::new();
    let mut i: usize = a;
    while i < b
        invariant
            a <= i <= b <= v.len(),
            u == v@.subrange(a as int, b as int),
            h@ == lower(u).take(i - a),
        decreases b - i,
    {
        h.push(lower_char(v[i]));
        proof {
            assert(lower(u).take(i - a + 1) == lower(u).take(i - a).push(lower(u)[i - a]));
        }
        i += 1;
    }
    assert(lower(u).take(b - a) == lower(u));
    h
}

/// Trims, drops trailing dots and lower-cases.
pub fn normalize_name(s: &str) -> (out: String)
    ensures
        out@ == normalized_name(s@),
{
    let h = normalized_name_chars(s);
    let out = string_of(&h, 0, h.len());
    assert(h@.subrange(0, h.len() as int) == h@);
    out
}

/// The position of the last `c` in `v`, or `None`.
pub fn rfind_char(v: &Vec<char>, c: char) -> (r: Option<usize>)
    ensures
        match r {
            Some(i) => i as int == find_last(v@, c) && i < v.len(),
            None => find_last(v@, c) == -1,
        },
{
    let mut i: usize = v.len();
    while i > 0
        invariant
            0 <= i <= v.len(),
            forall|j: int| i <= j < v.len() ==> v@[j] != c,
        decreases i,
    {
        if v[i - 1] == c {
            proof {
                lemma_find_last_is(v@, c, i - 1);
            }
            return Some(i - 1);
        }
        i -= 1;
    }
    proof {
        lemma_find_last_is(v@, c, -1);
    }
    None
}

/// Whether `v[from..]` holds digits only.
pub fn digits_from(v: &Vec<char>, from: usize) -> (r: bool)
    requires
        from <= v.len(),
    ensures
        r == all_digits(v@.subrange(from as int, v.len() as int)),
{
    let ghost t = v@.subrange(from as int, v.len() as int);
    let mut i: usize = from;
    while i < v.len()
        invariant
            from <= i <= v.len(),
            t == v@.subrange(from as int, v.len() as int),
            forall|j: int| 0 <= j < i - from ==> is_digit(#[trigger] t[j]),
        decreases v.len() - i,
    {
        if !is_digit_char(v[i]) {
            assert(!is_digit(t[i - from]));
            return false;
        }
        i += 1;
    }
    true
}

/// Lower-cases the host and drops its port and its trailing dots, those
/// before the port too; a bracketed literal keeps its port.
pub fn normalize_host(host: &str) -> (out: String)
    ensures
        out@ == normalized_host(host@),
{
    let h = normalized_name_chars(host);
    assert(h@.subrange(0, h.len() as int) == h@);
    if h.len() > 0 && h[0] == '[' {
        return string_of(&h, 0, h.len());
    }
    let end: usize = match rfind_char(&h, ':') {
        Some(i) => {
            if i + 1 < h.len() && digits_from(&h, i + 1) {
                i
            } else {
                h.len()
            }
        },
        None => h.len(),
    };
    let ghost w = h@.subrange(0, end as int);
    assert(w == without_port(h@));
    let mut b: usize = end;
    while b > 0 && h[b - 1] == '.'
        invariant
            0 <= b <= end <= h.len(),
            w == h@.subrange(0, end as int),
            forall|i: int| b <= i < w.len() ==> #[trigger] w[i] == '.',
        decreases b,
    {
        b -= 1;
    }
    proof {
        if b > 0 {
            assert(w[b - 1] == h@[b - 1]);
        }
        lemma_strip_trailing_is(w, '.', b as int);
        assert(w.subrange(0, b as int) == h@.subrange(0, b as int));
    }
    string_of(&h, 0, b)
}

/// Drops a final `:port` from a host that is not a bracketed literal.
pub fn strip_port(host: &str) -> (out: String)
    ensures
        out@ == port_stripped(host@),
{
    let h = chars_of(host);
    assert(h@.subrange(0, h.len() as int) == h@);
    if h.len() > 0 && h[0] == '[' {
        return string_of(&h, 0, h.len());
    }
    match rfind_char(&h, ':') {
        Some(i) => {
            if digits_from(&h, i + 1) {
                string_of(&h, 0, i)
            } else {
                string_of(&h, 0, h.len())
            }
        },
        None => string_of(&h, 0, h.len()),
    }
}

} // verus!
