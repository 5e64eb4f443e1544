//! The key under which the rate limiter counts a request.

use vstd::prelude::*;
use crate::policy::protection::cookie::{cookie_value, get_cookie_value};
use crate::policy::protection::matcher::HeaderView;
use crate::text::{chars_of, starts_with, str_eq, string_of, views};
use crate::waf::context::{WafContext, WafContextView};

verus! {

pub open spec fn or_empty(o: Option<Seq<char>>) -> Seq<char> {
    match o {
        Some(s) => s,
        None => Seq::empty(),
    }
}

/// The value that a key part stands for. `client_ip`, `host`, `path`,
/// `method` and `user_agent` name fields of the context; `header:<name>` a
/// header; `cookie:<name>` a cookie of the `cookie` header. A missing value
/// is empty, but for the client address, which is then `0.0.0.0`. Any other
/// part is empty.
pub open spec fn part_value_of<H: HeaderView>(part: Seq<char>, ctx: WafContextView, headers: &H) -> Seq<
    char,
> {
    if part == "client_ip"@ {
        match ctx.client_ip {
            Some(ip) => ip,
            None => "0.0.0.0"@,
        }
    } else if part == "host"@ {
        or_empty(ctx.host)
    } else if part == "path"@ {
        ctx.path
    } else if part == "method"@ {
        ctx.method
    } else if part == "user_agent"@ {
        or_empty(ctx.user_agent)
    } else if "header:"@.is_prefix_of(part) {
        or_empty(headers.value_of(part.skip("header:"@.len() as int)))
    } else if "cookie:"@.is_prefix_of(part) {
        match headers.value_of("cookie"@) {
            Some(ch) => or_empty(cookie_value(ch, part.skip("cookie:"@.len() as int))),
            None => Seq::empty(),
        }
    } else {
        Seq::empty()
    }
}

/// `part=value` for each part, joined by `|`.
pub open spec fn key_of<H: HeaderView>(parts: Seq<Seq<char>>, ctx: WafContextView, headers: &H) -> Seq<
    char,
>
    decreases parts.len(),
{
    if parts.len() == 0 {
        Seq::empty()
    } else {
        let seg = parts.last() + seq!['='] + part_value_of(parts.last(), ctx, headers);
        if parts.len() == 1 {
            seg
        } else {
            key_of(parts.drop_last(), ctx, headers) + seq!['|'] + seg
        }
    }
}

/// `part` without its first `n` characters.
fn skip_chars(part: &str, n: usize) -> (r: String)
    requires
        n <= part@.len(),
    ensures
        r@ == part@.skip(n as int),
{
    let v = chars_of(part);
    string_of(&v, n, v.len())
}

fn part_value<H: HeaderView>(part: &str, wctx: &WafContext, headers: &H) -> (r: String)
    ensures
        r@ == part_value_of(part@, wctx@, headers),
{
    if str_eq(part, "client_ip") {
        match &wctx.client_ip {
            Some(ip) => ip.clone(),
            None => "0.0.0.0".to_owned(),
        }
    } else if str_eq(part, "host") {
        match &wctx.host {
            Some(h) => h.clone(),
            None => String::new(),
        }
    } else if str_eq(part, "path") {
        wctx.path.clone()
    } else if str_eq(part, "method") {
        wctx.method.clone()
    } else if str_eq(part, "user_agent") {
        match &wctx.user_agent {
            Some(u) => u.clone(),
            None => String::new(),
        }
    } else if starts_with(part, "header:") {
        let name = skip_chars(part, "header:".unicode_len());
        match headers.get(name.as_str()) {
            Some(v) => v.to_owned(),
            None => String::new(),
        }
    } else if starts_with(part, "cookie:") {
        let name = skip_chars(part, "cookie:".unicode_len());
        match headers.get("cookie") {
            Some(ch) => match get_cookie_value(ch, name.as_str()) {
                Some(v) => v,
                None => String::new(),
            },
            None => String::new(),
        }
    } else {
        String::new()
    }
}

/// The limiter key of a request: each part with its value, joined by `|`.
pub fn build_key<H: HeaderView>(parts: &Vec<String>, wctx: &WafContext, headers: &H) -> (out: String)
    ensures
        out@ == key_of(views(parts@), wctx@, headers),
{
    let mut out = String::new();
    let mut i: usize = 0;
    while i < parts.len()
        invariant
            0 <= i <= parts.len(),
            out@ == key_of(views(parts@).take(i as int), wctx@, headers),
        decreases parts.len() - i,
    {
        proof {
            let ps = views(parts@);
            assert(ps.take(i + 1).drop_last() == ps.take(i as int));
            assert(ps.take(i + 1).last() == parts@[i as int]@);
        }
        if i > 0 {
            out.push('|');
        }
        out.append(parts[i].as_str());
        out.push('=');
        let v = part_value(parts[i].as_str(), wctx, headers);
        out.append(v.as_str());
        i += 1;
    }
    assert(views(parts@).take(parts.len() as int) == views(parts@));
    out
}

} // verus!
