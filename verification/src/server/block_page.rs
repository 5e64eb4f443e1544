//! The page shown for a blocked request: a template in which placeholders
//! are replaced by the facts of the block.

use vstd::prelude::*;
use crate::text::{chars_of, decimal, push_decimal, range_eq};

verus! {

/// The template that is built in.
pub const DEFAULT_TEMPLATE: &'static str =
    "<!doctype html>\n<html lang=\"en\">\n<head>\n<meta charset=\"utf-8\">\n<title>{{status}} {{title}}</title>\n</head>\n<body>\n<h1>{{status}} {{title}}</h1>\n<p>This request was blocked by {{brand}}.</p>\n<ul>\n<li>Rule: <code>{{rule_id}}</code></li>\n<li>Reason: {{reason}}</li>\n<li>Request ID: <code>{{request_id}}</code></li>\n<li>Time: {{time}}</li>\n</ul>\n</body>\n</html>\n";

pub struct BlockPage {
    tpl_403: String,
}

/// What a character becomes in HTML text: `&`, `<`, `>` and `"` become
/// their entities, any other character stays.
pub open spec fn escaped_char(c: char) -> Seq<char> {
    if c == '&' {
        "&amp;"@
    } else if c == '<' {
        "&lt;"@
    } else if c == '>' {
        "&gt;"@
    } else if c == '"' {
        "&quot;"@
    } else {
        seq![c]
    }
}

/// `s` with each character escaped for HTML text.
pub open spec fn escaped(s: Seq<char>) -> Seq<char>
    decreases s.len(),
{
    if s.len() == 0 {
        Seq::empty()
    } else {
        escaped(s.drop_last()) + escaped_char(s.last())
    }
}

/// `s` with each occurrence of `from` replaced by `to`, going through `s`
/// from its start and going on behind each occurrence found. An empty
/// `from` occurs nowhere.
pub open spec fn replaced(s: Seq<char>, from: Seq<char>, to: Seq<char>) -> Seq<char>
    decreases s.len(),
{
    if from.len() == 0 || s.len() < from.len() {
        s
    } else if s.subrange(0, from.len() as int) == from {
        to + replaced(s.subrange(from.len() as int, s.len() as int), from, to)
    } else {
        seq![s[0]] + replaced(s.drop_first(), from, to)
    }
}

/// The page for a block: the template with its placeholders replaced, one
/// after the other in this order: the status, the title, the rule's id and
/// the reason, both escaped, the request's id, the time, and the brand.
pub open spec fn rendered(
    tpl: Seq<char>,
    status: u16,
    title: Seq<char>,
    rule_id: Seq<char>,
    reason: Seq<char>,
    request_id: Seq<char>,
    time: Seq<char>,
) -> Seq<char> {
    let s1 = replaced(tpl, "{{status}}"@, decimal(status as nat));
    let s2 = replaced(s1, "{{title}}"@, title);
    let s3 = replaced(s2, "{{rule_id}}"@, escaped(rule_id));
    let s4 = replaced(s3, "{{reason}}"@, escaped(reason));
    let s5 = replaced(s4, "{{request_id}}"@, request_id);
    let s6 = replaced(s5, "{{time}}"@, time);
    replaced(s6, "{{brand}}"@, "Aegis"@)
}

/// Escapes text for use in HTML.
pub fn html_escape(s: &str) -> (out: String)
    ensures
        out@ == escaped(s@),
{
    let mut out = String::new();
    for c in it: s.chars()
        invariant
            it.seq() == s@,
            out@ == escaped(s@.take(it.index())),
    {
        proof {
            let k = it.index();
            assert(s@.take(k + 1).drop_last() == s@.take(k));
            assert(s@.take(k + 1).last() == c);
        }
        if c == '&' {
            out.append("&amp;");
        } else if c == '<' {
            out.append("&lt;");
        } else if c == '>' {
            out.append("&gt;");
        } else if c == '"' {
            out.append("&quot;");
        } else {
            out.push(c);
        }
    }
    assert(s@.take(s@.len() as int) == s@);
    out
}

/// Replaces each occurrence of `from` in `s` by `to`.
pub fn replace_all(s: &str, from: &str, to: &str) -> (out: String)
    ensures
        out@ == replaced(s@, from@, to@),
{
    let v = chars_of(s);
    let f = chars_of(from);
    let n = v.len();
    let k = f.len();
    if k == 0 || n < k {
        return s.to_owned();
    }
    let mut out = String::new();
    let mut i: usize = 0;
    assert(v@.subrange(0, n as int) == v@);
    assert(f@.subrange(0, k as int) == f@);
    while i < n
        invariant
            0 <= i <= n == v.len(),
            v@ == s@,
            0 < k == f.len(),
            f@ == from@,
            f@.subrange(0, k as int) == f@,
            out@ + replaced(v@.subrange(i as int, n as int), from@, to@) == replaced(
                v@,
                from@,
                to@,
            ),
        decreases n - i,
    {
        let ghost rest = v@.subrange(i as int, n as int);
        if n - i >= k && range_eq(&v, i, &f, 0, k) {
            proof {
                assert(rest.subrange(0, k as int) == v@.subrange(i as int, i + k));
                assert(rest.subrange(k as int, rest.len() as int) == v@.subrange(i + k, n as int));
                assert(out@ + (to@ + replaced(v@.subrange(i + k, n as int), from@, to@)) == (out@
                    + to@) + replaced(v@.subrange(i + k, n as int), from@, to@));
            }
            out.append(to);
            i += k;
        } else {
            proof {
                if n - i >= k {
                    assert(rest.subrange(0, k as int) == v@.subrange(i as int, i + k));
                    assert(rest.drop_first() == v@.subrange(i + 1, n as int));
                    assert(out@ + (seq![rest[0]] + replaced(rest.drop_first(), from@, to@))
                        == out@.push(v@[i as int]) + replaced(
                        v@.subrange(i + 1, n as int),
                        from@,
                        to@,
                    ));
                }
            }
            if n - i < k {
                // Too short for another occurrence: the rest stays as it is.
                let mut j: usize = i;
                while j < n
                    invariant
                        i <= j <= n == v.len(),
                        v@ == s@,
                        out@ + v@.subrange(j as int, n as int) == replaced(v@, from@, to@),
                    decreases n - j,
                {
                    proof {
                        assert(out@ + v@.subrange(j as int, n as int) == out@.push(v@[j as int])
                            + v@.subrange(j + 1, n as int));
                    }
                    out.push(v[j]);
                    j += 1;
                }
                assert(v@.subrange(n as int, n as int) == Seq::<char>::empty());
                assert(out@ + Seq::<char>::empty() == out@);
                return out;
            }
            out.push(v[i]);
            i += 1;
        }
    }
    assert(v@.subrange(n as int, n as int) == Seq::<char>::empty());
    assert(out@ + Seq::<char>::empty() == out@);
    out
}

impl BlockPage {
    pub closed spec fn template(&self) -> Seq<char> {
        self.tpl_403@
    }

    /// The block page with the built-in template.
    pub fn load_from_assets() -> (p: Self)
        ensures
            p.template() == DEFAULT_TEMPLATE@,
    {
        BlockPage { tpl_403: DEFAULT_TEMPLATE.to_owned() }
    }

    /// A block page with a template of the caller's.
    pub fn with_template(tpl: String) -> (p: Self)
        ensures
            p.template() == tpl@,
    {
        BlockPage { tpl_403: tpl }
    }

    /// Renders the page for a block. `time` is the time of the block as
    /// text.
    pub fn render_403(
        &self,
        status: u16,
        title: &str,
        rule_id: &str,
        reason: &str,
        request_id: &str,
        time: &str,
    ) -> (page: String)
        ensures
            page@ == rendered(self.template(), status, title@, rule_id@, reason@, request_id@, time@),
    {
        let mut status_text = String::new();
        push_decimal(&mut status_text, status as u64);
        assert(status_text@ == decimal(status as nat));
        let s1 = replace_all(self.tpl_403.as_str(), "{{status}}", status_text.as_str());
        let s2 = replace_all(s1.as_str(), "{{title}}", title);
        let s3 = replace_all(s2.as_str(), "{{rule_id}}", html_escape(rule_id).as_str());
        let s4 = replace_all(s3.as_str(), "{{reason}}", html_escape(reason).as_str());
        let s5 = replace_all(s4.as_str(), "{{request_id}}", request_id);
        let s6 = replace_all(s5.as_str(), "{{time}}", time);
        replace_all(s6.as_str(), "{{brand}}", "Aegis")
    }
}

} // verus!
