//! Reading one cookie out of a `Cookie` header.

use vstd::prelude::*;
use crate::text::{
    chars_of, eq_fold, eq_ignore_case, find_char, find_first, opt_view, string_of, trim,
    trim_bounds,
};

verus! {

/// The pieces of `s` between occurrences of `c`.
pub open spec fn split_on(s: Seq<char>, c: char) -> Seq<Seq<char>>
    decreases s.len(),
{
    let k = find_first(s, c);
    if k >= s.len() {
        seq![s]
    } else {
        seq![s.subrange(0, k as int)] + split_on(s.subrange(k as int + 1, s.len() as int), c)
    }
}

/// The value of a `name=value` pair whose name, trimmed, is `name` up to
/// ASCII case; `None` for any other piece.
pub open spec fn pair_value(pair: Seq<char>, name: Seq<char>) -> Option<Seq<char>> {
    let eq = find_first(pair, '=');
    if eq < pair.len() && eq_fold(trim(pair.subrange(0, eq as int)), name) {
        Some(trim(pair.subrange(eq as int + 1, pair.len() as int)))
    } else {
        None
    }
}

/// The value of the first of `pairs` that carries `name`.
pub open spec fn first_value(pairs: Seq<Seq<char>>, name: Seq<char>) -> Option<Seq<char>>
    decreases pairs.len(),
{
    if pairs.len() == 0 {
        None
    } else if pair_value(pairs[0], name) is Some {
        pair_value(pairs[0], name)
    } else {
        first_value(pairs.drop_first(), name)
    }
}

/// The trimmed value of the first `;`-separated `name=value` pair of the
/// header whose trimmed name equals `name` up to ASCII case.
pub open spec fn cookie_value(header: Seq<char>, name: Seq<char>) -> Option<Seq<char>> {
    first_value(split_on(header, ';'), name)
}

/// The value of cookie `name` in a `Cookie` header, if the header has it.
pub fn get_cookie_value(cookie_header: &str, name: &str) -> (r: Option<String>)
    ensures
        opt_view(r) == cookie_value(cookie_header@, name@),
{
    let v = chars_of(cookie_header);
    let n = v.len();
    let mut start: usize = 0;
    assert(v@.subrange(0, n as int) == v@);
    loop
        invariant
            start <= n == v.len(),
            v@ == cookie_header@,
            cookie_value(cookie_header@, name@) == first_value(
                split_on(v@.subrange(start as int, n as int), ';'),
                name@,
            ),
        decreases n - start,
    {
        let ghost rest = v@.subrange(start as int, n as int);
        let end = find_char(&v, start, n, ';');
        let eq = find_char(&v, start, end, '=');
        let ghost pair = v@.subrange(start as int, end as int);
        proof {
            if end < n {
                assert(rest.subrange(0, end - start) == pair);
                assert(rest.subrange(end - start + 1, rest.len() as int) == v@.subrange(
                    end + 1,
                    n as int,
                ));
                assert(split_on(rest, ';') == seq![pair] + split_on(
                    v@.subrange(end + 1, n as int),
                    ';',
                ));
            } else {
                assert(pair == rest);
                assert(split_on(rest, ';') == seq![pair]);
            }
            let pieces = split_on(rest, ';');
            assert(pieces[0] == pair);
            if end < n {
                assert(pieces.drop_first() == split_on(v@.subrange(end + 1, n as int), ';'));
            } else {
                assert(pieces.drop_first() == Seq::<Seq<char>>::empty());
            }
            assert(pair.subrange(0, eq - start) == v@.subrange(start as int, eq as int));
        }
        if eq < end {
            let (ka, kb) = trim_bounds(&v, start, eq);
            let key = string_of(&v, ka, kb);
            if eq_ignore_case(key.as_str(), name) {
                let (va, vb) = trim_bounds(&v, eq + 1, end);
                proof {
                    assert(pair.subrange(eq - start + 1, pair.len() as int) == v@.subrange(
                        eq + 1,
                        end as int,
                    ));
                }
                return Some(string_of(&v, va, vb));
            }
        }
        proof {
            assert(pair_value(pair, name@) is None);
            assert(first_value(Seq::<Seq<char>>::empty(), name@) is None);
        }
        if end >= n {
            return None;
        }
        start = end + 1;
    }
}

} // verus!
