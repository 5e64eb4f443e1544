//! The body phase of the rule engine: looks for the body patterns of the
//! rules set aside by the header phase in a body that arrives in chunks,
//! keeping only its last few bytes between chunks.

use vstd::prelude::*;
use crate::waf::rules::compiler::{CompiledRule, CompiledRuleset};
use crate::waf::rules::matcher::{any_occurs, fold_byte, lemma_longest_bounds, occurs, occurs_at};

verus! {

/// The bytes to keep between chunks: the largest `keep_len` among the
/// rules that `deferred` names. An index beyond the ruleset names no rule.
pub open spec fn keep_of(rules: Seq<CompiledRule>, deferred: Seq<usize>) -> nat
    decreases deferred.len(),
{
    if deferred.len() == 0 {
        0
    } else {
        let rest = keep_of(rules, deferred.drop_last());
        let idx = deferred.last() as int;
        if idx < rules.len() && rules[idx].keep_len() > rest {
            rules[idx].keep_len()
        } else {
            rest
        }
    }
}

/// The first rule among `deferred[from..]` with a body pattern in `window`.
pub open spec fn first_body_match(
    rules: Seq<CompiledRule>,
    deferred: Seq<usize>,
    window: Seq<u8>,
    from: int,
) -> Option<usize>
    decreases deferred.len() - from,
{
    if from < 0 || from >= deferred.len() {
        None
    } else if deferred[from] < rules.len() && rules[deferred[from] as int].body_matches(window) {
        Some(deferred[from])
    } else {
        first_body_match(rules, deferred, window, from + 1)
    }
}

/// The last `n` bytes of `s`, or all of `s` where it has no more.
pub open spec fn last_bytes(s: Seq<u8>, n: nat) -> Seq<u8> {
    if s.len() > n {
        s.subrange(s.len() - n, s.len() as int)
    } else {
        s
    }
}

/// What is kept of `window` for the next chunk: its last `keep` bytes;
/// with nothing to keep, the tail stays as it was.
pub open spec fn retained(window: Seq<u8>, keep: nat, tail: Seq<u8>) -> Seq<u8> {
    if keep == 0 {
        tail
    } else {
        last_bytes(window, keep)
    }
}

/// Whether a body pattern of one of the rules that `deferred` names stands
/// in `hay`.
pub open spec fn deferred_pattern_in(rules: Seq<CompiledRule>, deferred: Seq<usize>, hay: Seq<u8>) -> bool {
    exists|k: int|
        0 <= k < deferred.len() && #[trigger] deferred[k] < rules.len() && rules[deferred[k] as int].body_matches(
            hay,
        )
}

/// The chunks `chunks[..n]` put together.
pub open spec fn joined(chunks: Seq<Seq<u8>>, n: int) -> Seq<u8>
    decreases n,
{
    if n <= 0 {
        Seq::empty()
    } else {
        joined(chunks, n - 1) + chunks[n - 1]
    }
}

/// Whether scanning `chunks[from..]` one by one, with `tail` kept from the
/// chunks before, finds a body pattern. The scan stops at the first chunk
/// that shows one.
pub open spec fn scan_finds(
    rules: Seq<CompiledRule>,
    deferred: Seq<usize>,
    chunks: Seq<Seq<u8>>,
    tail: Seq<u8>,
    from: int,
) -> bool
    decreases chunks.len() - from,
{
    if from < 0 || from >= chunks.len() {
        false
    } else {
        let window = tail + chunks[from];
        if first_body_match(rules, deferred, window, 0) is Some {
            true
        } else {
            scan_finds(
                rules,
                deferred,
                chunks,
                retained(window, keep_of(rules, deferred), tail),
                from + 1,
            )
        }
    }
}

proof fn lemma_first_match(rules: Seq<CompiledRule>, deferred: Seq<usize>, window: Seq<u8>, from: int)
    requires
        0 <= from <= deferred.len(),
    ensures
        first_body_match(rules, deferred, window, from) is Some <==> exists|k: int|
            from <= k < deferred.len() && #[trigger] deferred[k] < rules.len() && rules[deferred[k] as int].body_matches(
                window,
            ),
    decreases deferred.len() - from,
{
    if from < deferred.len() {
        lemma_first_match(rules, deferred, window, from + 1);
        if !(deferred[from] < rules.len() && rules[deferred[from] as int].body_matches(window)) {
            if exists|k: int|
                from <= k < deferred.len() && #[trigger] deferred[k] < rules.len() && rules[deferred[k] as int].body_matches(
                    window,
                ) {
                let k = choose|k: int|
                    from <= k < deferred.len() && #[trigger] deferred[k] < rules.len()
                        && rules[deferred[k] as int].body_matches(window);
                assert(from + 1 <= k);
            }
        }
    }
}

proof fn lemma_keep_covers(rules: Seq<CompiledRule>, deferred: Seq<usize>, k: int)
    requires
        0 <= k < deferred.len(),
        deferred[k] < rules.len(),
    ensures
        rules[deferred[k] as int].keep_len() <= keep_of(rules, deferred),
    decreases deferred.len(),
{
    if k < deferred.len() - 1 {
        lemma_keep_covers(rules, deferred.drop_last(), k);
    }
}

proof fn lemma_joined_len(chunks: Seq<Seq<u8>>, n: int, m: int)
    requires
        0 <= n <= m <= chunks.len(),
    ensures
        joined(chunks, n).len() <= joined(chunks, m).len(),
        joined(chunks, n) == joined(chunks, m).subrange(0, joined(chunks, n).len() as int),
    decreases m - n,
{
    if n < m {
        lemma_joined_len(chunks, n, m - 1);
        assert(joined(chunks, n) =~= joined(chunks, m).subrange(0, joined(chunks, n).len() as int));
    } else {
        assert(joined(chunks, n) =~= joined(chunks, m).subrange(0, joined(chunks, n).len() as int));
    }
}

/// A pattern that stands in a part of `hay` stands in `hay`.
proof fn lemma_occurs_in_part(p: Seq<u8>, hay: Seq<u8>, lo: int, hi: int)
    requires
        0 <= lo <= hi <= hay.len(),
        occurs(p, hay.subrange(lo, hi)),
    ensures
        occurs(p, hay),
{
    let part = hay.subrange(lo, hi);
    let at = choose|at: int| occurs_at(p, part, at);
    assert forall|j: int| 0 <= j < p.len() implies fold_byte(
        #[trigger] hay[at + lo + j],
    ) == fold_byte(p[j]) by {
        assert(part[at + j] == hay[at + lo + j]);
    }
    assert(occurs_at(p, hay, at + lo));
}

/// A pattern of at most `keep + 1` bytes that stands in `s + c` but not in
/// `s` stands in the last `keep` bytes of `s` followed by `c`.
proof fn lemma_occurs_in_window(p: Seq<u8>, s: Seq<u8>, c: Seq<u8>, keep: nat)
    requires
        p.len() <= keep + 1,
        occurs(p, s + c),
        !occurs(p, s),
    ensures
        occurs(p, last_bytes(s, keep) + c),
{
    let t = s + c;
    let tail = last_bytes(s, keep);
    let w = tail + c;
    let off = s.len() - tail.len();
    let at = choose|at: int| occurs_at(p, t, at);
    if at < off {
        assert forall|j: int| 0 <= j < p.len() implies fold_byte(
            #[trigger] s[at + j],
        ) == fold_byte(p[j]) by {
            assert(t[at + j] == s[at + j]);
        }
        assert(occurs_at(p, s, at));
    }
    assert forall|j: int| 0 <= j < p.len() implies fold_byte(
        #[trigger] w[at - off + j],
    ) == fold_byte(p[j]) by {
        assert(t[at + j] == w[at - off + j]);
    }
    assert(occurs_at(p, w, at - off));
}

/// Given that no pattern of the rule stands in `s`, one stands in `s + c`
/// exactly when one stands in the window made of the last `keep` bytes of
/// `s` and `c`.
proof fn lemma_rule_window(rule: &CompiledRule, s: Seq<u8>, c: Seq<u8>, keep: nat, fresh: bool)
    requires
        rule.keep_len() <= keep,
        fresh ==> s.len() == 0,
        !fresh ==> !rule.body_matches(s),
    ensures
        rule.body_matches(s + c) <==> rule.body_matches(last_bytes(s, keep) + c),
{
    let t = s + c;
    let tail = last_bytes(s, keep);
    let w = tail + c;
    if fresh {
        assert(w =~= t);
    } else if let Some(ac) = rule.body_ac {
        let ps = ac.patterns();
        if any_occurs(ps, t) {
            let k = choose|k: int| 0 <= k < ps.len() && occurs(#[trigger] ps[k], t);
            lemma_longest_bounds(ps, k);
            assert(!occurs(ps[k], s));
            lemma_occurs_in_window(ps[k], s, c, keep);
        }
        if any_occurs(ps, w) {
            let k = choose|k: int| 0 <= k < ps.len() && occurs(#[trigger] ps[k], w);
            let off = s.len() - tail.len();
            assert(w =~= t.subrange(off, t.len() as int));
            lemma_occurs_in_part(ps[k], t, off, t.len() as int);
        }
    }
}

proof fn lemma_window(
    rules: Seq<CompiledRule>,
    deferred: Seq<usize>,
    s: Seq<u8>,
    c: Seq<u8>,
    fresh: bool,
)
    requires
        fresh ==> s.len() == 0,
        !fresh ==> !deferred_pattern_in(rules, deferred, s),
    ensures
        deferred_pattern_in(rules, deferred, s + c) <==> deferred_pattern_in(
            rules,
            deferred,
            last_bytes(s, keep_of(rules, deferred)) + c,
        ),
{
    let keep = keep_of(rules, deferred);
    assert forall|k: int| 0 <= k < deferred.len() && #[trigger] deferred[k] < rules.len() implies (
    rules[deferred[k] as int].body_matches(s + c) <==> rules[deferred[k] as int].body_matches(
        last_bytes(s, keep) + c,
    )) by {
        lemma_keep_covers(rules, deferred, k);
        lemma_rule_window(&rules[deferred[k] as int], s, c, keep, fresh);
    }
}

proof fn lemma_last_bytes_step(s: Seq<u8>, c: Seq<u8>, keep: nat)
    ensures
        last_bytes(last_bytes(s, keep) + c, keep) == last_bytes(s + c, keep),
{
    assert(last_bytes(last_bytes(s, keep) + c, keep) =~= last_bytes(s + c, keep));
}

proof fn lemma_pattern_in_prefix(
    rules: Seq<CompiledRule>,
    deferred: Seq<usize>,
    hay: Seq<u8>,
    n: int,
)
    requires
        0 <= n <= hay.len(),
        deferred_pattern_in(rules, deferred, hay.subrange(0, n)),
    ensures
        deferred_pattern_in(rules, deferred, hay),
{
    let part = hay.subrange(0, n);
    let k = choose|k: int|
        0 <= k < deferred.len() && #[trigger] deferred[k] < rules.len() && rules[deferred[k] as int].body_matches(
            part,
        );
    let ps = rules[deferred[k] as int].body_ac.unwrap().patterns();
    let q = choose|q: int| 0 <= q < ps.len() && occurs(#[trigger] ps[q], part);
    lemma_occurs_in_part(ps[q], hay, 0, n);
}

proof fn lemma_scan(
    rules: Seq<CompiledRule>,
    deferred: Seq<usize>,
    chunks: Seq<Seq<u8>>,
    tail: Seq<u8>,
    from: int,
)
    requires
        0 <= from <= chunks.len(),
        chunks.len() > 0,
        tail == last_bytes(joined(chunks, from), keep_of(rules, deferred)),
        from > 0 ==> !deferred_pattern_in(rules, deferred, joined(chunks, from)),
    ensures
        scan_finds(rules, deferred, chunks, tail, from) <==> deferred_pattern_in(
            rules,
            deferred,
            joined(chunks, chunks.len() as int),
        ),
    decreases chunks.len() - from,
{
    let keep = keep_of(rules, deferred);
    let total = joined(chunks, chunks.len() as int);
    if from < chunks.len() {
        let s = joined(chunks, from);
        let c = chunks[from];
        let t = joined(chunks, from + 1);
        let window = tail + c;
        assert(t == s + c);
        lemma_window(rules, deferred, s, c, from == 0);
        lemma_first_match(rules, deferred, window, 0);
        if first_body_match(rules, deferred, window, 0) is Some {
            lemma_joined_len(chunks, from + 1, chunks.len() as int);
            lemma_pattern_in_prefix(rules, deferred, total, t.len() as int);
        } else {
            lemma_last_bytes_step(s, c, keep);
            if keep == 0 {
                assert(tail =~= last_bytes(t, keep));
            }
            lemma_scan(rules, deferred, chunks, retained(window, keep, tail), from + 1);
        }
    }
}

/// A body that arrives in one or more chunks is found to hold a body
/// pattern of a deferred rule exactly when such a pattern stands in the
/// chunks put together, however the body is cut into chunks.
pub proof fn lemma_scan_complete(
    rules: Seq<CompiledRule>,
    deferred: Seq<usize>,
    chunks: Seq<Seq<u8>>,
)
    requires
        chunks.len() > 0,
    ensures
        scan_finds(rules, deferred, chunks, Seq::empty(), 0) <==> deferred_pattern_in(
            rules,
            deferred,
            joined(chunks, chunks.len() as int),
        ),
{
    assert(last_bytes(joined(chunks, 0), keep_of(rules, deferred)) =~= Seq::<u8>::empty());
    lemma_scan(rules, deferred, chunks, Seq::empty(), 0);
}

/// Scans one chunk of a body. The window is the kept tail followed by the
/// chunk. Where a rule among `deferred` has a body pattern in the window,
/// the first such rule's index is returned and the tail is left alone;
/// else the end of the window is kept for the next chunk.
pub fn scan_chunk(
    tail: &mut Vec<u8>,
    chunk: &[u8],
    deferred: &Vec<usize>,
    ruleset: &CompiledRuleset,
) -> (hit: Option<usize>)
    requires
        old(tail)@.len() + chunk@.len() <= usize::MAX,
    ensures
        hit == first_body_match(ruleset.rules@, deferred@, old(tail)@ + chunk@, 0),
        hit is Some ==> final(tail)@ == old(tail)@,
        hit is None ==> final(tail)@ == retained(
            old(tail)@ + chunk@,
            keep_of(ruleset.rules@, deferred@),
            old(tail)@,
        ),
{
    let mut keep: usize = 0;
    let mut i: usize = 0;
    while i < deferred.len()
        invariant
            0 <= i <= deferred.len(),
            keep == keep_of(ruleset.rules@, deferred@.take(i as int)),
        decreases deferred.len() - i,
    {
        proof {
            assert(deferred@.take(i + 1).drop_last() == deferred@.take(i as int));
            assert(deferred@.take(i + 1).last() == deferred@[i as int]);
        }
        let idx = deferred[i];
        if idx < ruleset.rules.len() {
            let k = ruleset.rules[idx].body_keep_len();
            if k > keep {
                keep = k;
            }
        }
        i += 1;
    }
    assert(deferred@.take(deferred.len() as int) == deferred@);

    let mut window: Vec<u8> = Vec::new();
    window.extend_from_slice(tail.as_slice());
    window.extend_from_slice(chunk);
    assert(window@ =~= old(tail)@ + chunk@);

    let mut j: usize = 0;
    while j < deferred.len()
        invariant
            0 <= j <= deferred.len(),
            window@ == old(tail)@ + chunk@,
            tail@ == old(tail)@,
            first_body_match(ruleset.rules@, deferred@, window@, 0) == first_body_match(
                ruleset.rules@,
                deferred@,
                window@,
                j as int,
            ),
        decreases deferred.len() - j,
    {
        let idx = deferred[j];
        if idx < ruleset.rules.len() {
            if ruleset.rules[idx].body_match(window.as_slice()) {
                return Some(idx);
            }
        }
        j += 1;
    }
    if keep > 0 {
        if window.len() > keep {
            let at = window.len() - keep;
            *tail = window.split_off(at);
        } else {
            *tail = window;
        }
    }
    None
}

} // verus!
