//! The header view that rules read, and the evaluation of a compiled match
//! expression.

use vstd::prelude::*;
use crate::policy::protection::compiled::CompiledMatchExpr;
use crate::text::{eq_fold, eq_ignore_case, opt_str_view, starts_with, str_eq, views};
use crate::waf::context::{WafContext, WafContextView};
use crate::waf::rules::matcher::{regex_is_match, regex_matches, regex_source};

verus! {

/// Read access to the headers of a request.
pub trait HeaderView {
    /// The value that the view holds under a header name.
    spec fn value_of(&self, name: Seq<char>) -> Option<Seq<char>>;

    /// The value of header `name`, if the request has it.
    fn get(&self, name: &str) -> (r: Option<&str>)
        ensures
            opt_str_view(r) == self.value_of(name@),
    ;
}

/// Headers held as a list of name and value, in the order of the request.
pub struct HeaderList {
    pub entries: Vec<(String, String)>,
}

/// The value of the first of `entries[from..]` whose name is `name` up to
/// ASCII case.
pub open spec fn first_header(entries: Seq<(String, String)>, name: Seq<char>, from: int) -> Option<
    Seq<char>,
>
    decreases entries.len() - from,
{
    if from < 0 || from >= entries.len() {
        None
    } else if eq_fold(entries[from].0@, name) {
        Some(entries[from].1@)
    } else {
        first_header(entries, name, from + 1)
    }
}

impl HeaderList {
    pub fn new() -> (h: Self)
        ensures
            h.entries@.len() == 0,
    {
        HeaderList { entries: Vec::new() }
    }

    /// Adds a header after those that the list holds.
    pub fn push(&mut self, name: String, value: String)
        ensures
            final(self).entries@ == old(self).entries@.push((name, value)),
    {
        self.entries.push((name, value));
    }
}

impl HeaderView for HeaderList {
    open spec fn value_of(&self, name: Seq<char>) -> Option<Seq<char>> {
        first_header(self.entries@, name, 0)
    }

    fn get(&self, name: &str) -> (r: Option<&str>) {
        let mut i: usize = 0;
        while i < self.entries.len()
            invariant
                0 <= i <= self.entries.len(),
                first_header(self.entries@, name@, 0) == first_header(self.entries@, name@, i as int),
            decreases self.entries.len() - i,
        {
            if eq_ignore_case(self.entries[i].0.as_str(), name) {
                return Some(self.entries[i].1.as_str());
            }
            i += 1;
        }
        None
    }
}

/// Whether one of `xs` equals `s` up to ASCII case.
pub open spec fn any_eq_fold(xs: Seq<Seq<char>>, s: Seq<char>) -> bool {
    exists|i: int| 0 <= i < xs.len() && eq_fold(#[trigger] xs[i], s)
}

/// Whether a condition holds of a request.
///
/// A path prefix is compared character by character; methods and hosts up
/// to ASCII case, and no host equals a missing host; a header value exactly.
pub open spec fn holds<H: HeaderView>(m: &CompiledMatchExpr, ctx: WafContextView, headers: &H) -> bool
    decreases m,
{
    match m {
        CompiledMatchExpr::Any => true,
        CompiledMatchExpr::PathPrefix(p) => p@.is_prefix_of(ctx.path),
        CompiledMatchExpr::MethodIn(ms) => any_eq_fold(views(ms@), ctx.method),
        CompiledMatchExpr::HostIn(hs) => ctx.host is Some && any_eq_fold(
            views(hs@),
            ctx.host.unwrap(),
        ),
        CompiledMatchExpr::HeaderExists(name) => headers.value_of(name@) is Some,
        CompiledMatchExpr::HeaderEquals { name, value } => headers.value_of(name@) == Some(value@),
        CompiledMatchExpr::HeaderRegex { name, re } => headers.value_of(name@) is Some
            && regex_matches(regex_source(*re), headers.value_of(name@).unwrap()),
        CompiledMatchExpr::And(xs) => forall|i: int|
            0 <= i < xs.len() ==> holds(#[trigger] &xs[i], ctx, headers),
        CompiledMatchExpr::Or(xs) => exists|i: int|
            0 <= i < xs.len() && holds(#[trigger] &xs[i], ctx, headers),
        CompiledMatchExpr::Not(x) => !holds(&**x, ctx, headers),
    }
}

/// Whether one of `xs` equals `s` up to ASCII case.
fn any_ignore_case(xs: &Vec<String>, s: &str) -> (r: bool)
    ensures
        r == any_eq_fold(views(xs@), s@),
{
    let mut i: usize = 0;
    while i < xs.len()
        invariant
            0 <= i <= xs.len(),
            forall|j: int| 0 <= j < i ==> !eq_fold(#[trigger] views(xs@)[j], s@),
        decreases xs.len() - i,
    {
        if eq_ignore_case(xs[i].as_str(), s) {
            assert(eq_fold(views(xs@)[i as int], s@));
            return true;
        }
        i += 1;
    }
    false
}

/// Evaluates a condition against a request. `And` and `Or` stop at the
/// first part that settles them.
#[verifier::loop_isolation(false)]
pub fn eval<H: HeaderView>(m: &CompiledMatchExpr, wctx: &WafContext, headers: &H) -> (r: bool)
    ensures
        r == holds(m, wctx@, headers),
    decreases m,
{
    match m {
        CompiledMatchExpr::Any => true,
        CompiledMatchExpr::PathPrefix(p) => starts_with(wctx.path.as_str(), p.as_str()),
        CompiledMatchExpr::MethodIn(ms) => any_ignore_case(ms, wctx.method.as_str()),
        CompiledMatchExpr::HostIn(hs) => {
            match &wctx.host {
                Some(h) => any_ignore_case(hs, h.as_str()),
                None => false,
            }
        },
        CompiledMatchExpr::HeaderExists(name) => headers.get(name.as_str()).is_some(),
        CompiledMatchExpr::HeaderEquals { name, value } => {
            match headers.get(name.as_str()) {
                Some(v) => str_eq(v, value.as_str()),
                None => false,
            }
        },
        CompiledMatchExpr::HeaderRegex { name, re } => {
            match headers.get(name.as_str()) {
                Some(v) => regex_is_match(re, v),
                None => false,
            }
        },
        CompiledMatchExpr::And(xs) => {
            let mut i: usize = 0;
            while i < xs.len()
                invariant
                    0 <= i <= xs.len(),
                    forall|j: int| 0 <= j < i ==> holds(#[trigger] &xs[j], wctx@, headers),
                decreases xs.len() - i,
            {
                if !eval(&xs[i], wctx, headers) {
                    return false;
                }
                i += 1;
            }
            true
        },
        CompiledMatchExpr::Or(xs) => {
            let mut i: usize = 0;
            while i < xs.len()
                invariant
                    0 <= i <= xs.len(),
                    forall|j: int| 0 <= j < i ==> !holds(#[trigger] &xs[j], wctx@, headers),
                decreases xs.len() - i,
            {
                if eval(&xs[i], wctx, headers) {
                    return true;
                }
                i += 1;
            }
            false
        },
        CompiledMatchExpr::Not(x) => !eval(x, wctx, headers),
    }
}

} // verus!
