//! Multi-pattern matching on bytes and compiled regular expressions.

use vstd::prelude::*;
use vstd::utf8::encode_utf8;
use aho_corasick::{AhoCorasick, AhoCorasickBuilder};
use regex::Regex;

verus! {

#[verifier::external_type_specification]
#[verifier::external_body]
pub struct ExRegex(Regex);

/// The pattern that a compiled regular expression was made from.
pub uninterp spec fn regex_source(re: Regex) -> Seq<char>;

/// What the `regex` crate says against a pattern: `None` where it accepts
/// the pattern, else the words of its error.
pub uninterp spec fn regex_refusal(pattern: Seq<char>) -> Option<Seq<char>>;

/// Whether the regular expression `pattern` matches somewhere in `text`.
pub uninterp spec fn regex_matches(pattern: Seq<char>, text: Seq<char>) -> bool;

/// Whether the `regex` crate accepts a pattern.
pub open spec fn regex_compiles(pattern: Seq<char>) -> bool {
    regex_refusal(pattern) is None
}

/// What a refused pattern's error says.
pub open spec fn regex_error_text(pattern: Seq<char>) -> Seq<char> {
    regex_refusal(pattern).unwrap()
}

/// `Regex::new` compiles a pattern, or refuses it. Whether it refuses, and
/// with which message, depends on the pattern alone; the compiled
/// expression keeps the pattern it was made from.
#[verifier::external_body]
pub(crate) fn compile_regex(pattern: &str) -> (r: Result<Regex, String>)
    ensures
        (match r {
            Ok(_) => None,
            Err(e) => Some(e@),
        }) == regex_refusal(pattern@),
        r matches Ok(re) ==> regex_source(re) == pattern@,
{
    match Regex::new(pattern) {
        Ok(re) => Ok(re),
        Err(e) => Err(e.to_string()),
    }
}

/// `Regex::is_match` says whether the expression matches somewhere in the
/// text, which depends on the pattern and the text alone.
#[verifier::external_body]
pub(crate) fn regex_is_match(re: &Regex, text: &str) -> (r: bool)
    ensures
        r == regex_matches(regex_source(*re), text@),
{
    re.is_match(text)
}


#[verifier::external_type_specification]
#[verifier::external_body]
pub struct ExAhoCorasick(AhoCorasick);

/// The patterns that an automaton was built from, as bytes.
pub uninterp spec fn automaton_patterns(ac: AhoCorasick) -> Seq<Seq<u8>>;

/// A byte with an ASCII upper-case letter put in lower case.
pub open spec fn fold_byte(b: u8) -> u8 {
    if 65 <= b && b <= 90 {
        (b + 32) as u8
    } else {
        b
    }
}

/// Whether `pattern` stands in `hay` at position `at`, up to the case of
/// ASCII letters.
pub open spec fn occurs_at(pattern: Seq<u8>, hay: Seq<u8>, at: int) -> bool {
    &&& 0 <= at
    &&& at + pattern.len() <= hay.len()
    &&& forall|j: int| 0 <= j < pattern.len() ==> fold_byte(#[trigger] hay[at + j]) == fold_byte(pattern[j])
}

/// Whether `pattern` stands somewhere in `hay`.
pub open spec fn occurs(pattern: Seq<u8>, hay: Seq<u8>) -> bool {
    exists|at: int| occurs_at(pattern, hay, at)
}

/// Whether one of `patterns` stands somewhere in `hay`.
pub open spec fn any_occurs(patterns: Seq<Seq<u8>>, hay: Seq<u8>) -> bool {
    exists|k: int| 0 <= k < patterns.len() && occurs(#[trigger] patterns[k], hay)
}

/// The bytes of each pattern.
pub open spec fn pattern_bytes(patterns: Seq<String>) -> Seq<Seq<u8>> {
    Seq::new(patterns.len(), |i: int| encode_utf8(patterns[i]@))
}

/// The length of the longest of `patterns`, zero where there is none.
pub open spec fn longest(patterns: Seq<Seq<u8>>) -> nat
    decreases patterns.len(),
{
    if patterns.len() == 0 {
        0
    } else {
        let rest = longest(patterns.drop_last());
        if patterns.last().len() > rest {
            patterns.last().len()
        } else {
            rest
        }
    }
}

pub proof fn lemma_longest_bounds(patterns: Seq<Seq<u8>>, k: int)
    requires
        0 <= k < patterns.len(),
    ensures
        patterns[k].len() <= longest(patterns),
    decreases patterns.len(),
{
    if k < patterns.len() - 1 {
        lemma_longest_bounds(patterns.drop_last(), k);
    }
}

/// What the `aho-corasick` crate says against building an automaton for
/// `patterns`, ASCII case set aside: `None` where it builds one, else the
/// words of its error. It refuses patterns only for their number and their
/// lengths, which its limits on patterns and states are held against.
pub uninterp spec fn automaton_refusal(patterns: Seq<Seq<u8>>) -> Option<Seq<char>>;

/// Whether an automaton is built for `patterns`.
pub open spec fn builds(patterns: Seq<Seq<u8>>) -> bool {
    automaton_refusal(patterns) is None
}

/// `AhoCorasickBuilder::build`, with `ascii_case_insensitive` switched on,
/// makes an automaton for the patterns, or fails where they exceed a limit
/// of the crate. Whether it fails, and with which words, depends on the
/// patterns alone.
#[verifier::external_body]
fn build_automaton(patterns: &Vec<String>) -> (r: Result<AhoCorasick, String>)
    ensures
        (match r {
            Ok(_) => None,
            Err(e) => Some(e@),
        }) == automaton_refusal(pattern_bytes(patterns@)),
        r matches Ok(ac) ==> automaton_patterns(ac) == pattern_bytes(patterns@),
{
    match AhoCorasickBuilder::new().ascii_case_insensitive(true).build(patterns) {
        Ok(ac) => Ok(ac),
        Err(e) => Err(e.to_string()),
    }
}

/// `AhoCorasick::is_match` says whether one of the automaton's patterns
/// stands somewhere in the haystack; with `ascii_case_insensitive` the
/// case of ASCII letters is not told apart.
#[verifier::external_body]
fn automaton_is_match(ac: &AhoCorasick, hay: &[u8]) -> (r: bool)
    ensures
        r == any_occurs(automaton_patterns(*ac), hay@),
{
    ac.is_match(hay)
}

/// A set of byte patterns that are looked for together.
pub struct AcMatcher {
    ac: AhoCorasick,
    max_pat_len: usize,
}

impl AcMatcher {
    #[verifier::type_invariant]
    spec fn inv(&self) -> bool {
        self.max_pat_len == longest(automaton_patterns(self.ac))
    }

    /// The patterns of the matcher, as bytes.
    pub closed spec fn patterns(&self) -> Seq<Seq<u8>> {
        automaton_patterns(self.ac)
    }

    pub closed spec fn spec_max_pat_len(&self) -> nat {
        self.max_pat_len as nat
    }

    /// Builds the matcher of `patterns`. It succeeds exactly when an
    /// automaton is built for the patterns, and holds them then; else it
    /// hands on the words of the refusal.
    pub fn new(patterns: &Vec<String>) -> (r: Result<Self, String>)
        ensures
            r is Ok <==> builds(pattern_bytes(patterns@)),
            r matches Ok(m) ==> m.patterns() == pattern_bytes(patterns@) && m.spec_max_pat_len()
                == longest(pattern_bytes(patterns@)),
            r matches Err(e) ==> automaton_refusal(pattern_bytes(patterns@)) == Some(e@),
    {
        let ghost ps = pattern_bytes(patterns@);
        let mut max_pat_len: usize = 0;
        let mut i: usize = 0;
        while i < patterns.len()
            invariant
                0 <= i <= patterns.len(),
                ps == pattern_bytes(patterns@),
                max_pat_len == longest(ps.take(i as int)),
            decreases patterns.len() - i,
        {
            proof {
                assert(ps.take(i + 1).drop_last() == ps.take(i as int));
                assert(ps.take(i + 1).last() == encode_utf8(patterns@[i as int]@));
            }
            let n = patterns[i].as_str().as_bytes().len();
            if n > max_pat_len {
                max_pat_len = n;
            }
            i += 1;
        }
        assert(ps.take(patterns.len() as int) == ps);
        match build_automaton(patterns) {
            Ok(ac) => Ok(AcMatcher { ac, max_pat_len }),
            Err(e) => Err(e),
        }
    }

    /// Whether one of the patterns stands somewhere in `hay`, the case of
    /// ASCII letters aside.
    pub fn is_match(&self, hay: &[u8]) -> (r: bool)
        ensures
            r == any_occurs(self.patterns(), hay@),
    {
        automaton_is_match(&self.ac, hay)
    }

    /// The length in bytes of the longest pattern.
    pub fn max_pat_len(&self) -> (n: usize)
        ensures
            n == self.spec_max_pat_len(),
            n == longest(self.patterns()),
    {
        proof {
            use_type_invariant(self);
        }
        self.max_pat_len
    }
}

/// A header name with the regular expression for its value.
pub struct HeaderRegexMatcher {
    pub _name: String,
    pub re: Regex,
}

} // verus!
