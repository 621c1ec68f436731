//! The outbound proxy: which server of the Windows proxy setting serves
//! HTTPS, and the URL handed to the HTTP client.

use vstd::prelude::*;
use crate::text::{
    append_str, chars_of, contains, find_char, lower, split_char, split_once, starts_with,
    string_of, trim, views,
};

verus! {

/// The value of the last `;`-separated `key=value` part whose key is
/// `key` (trimmed, ASCII case ignored), trimmed.
pub open spec fn last_value(parts: Seq<Seq<char>>, key: Seq<char>) -> Option<Seq<char>>
    decreases parts.len(),
{
    if parts.len() == 0 {
        None
    } else {
        let t = trim(parts.last());
        let hit = match split_once(t, '=') {
            Some((k, v)) => lower(trim(k)) == key,
            None => false,
        };
        if hit {
            match split_once(t, '=') {
                Some((_, v)) => Some(trim(v)),
                None => None,
            }
        } else {
            last_value(parts.drop_last(), key)
        }
    }
}

/// The HTTPS proxy of a Windows `ProxyServer` value: the whole value
/// (trimmed) when it has no `=`; otherwise the `https=` server, else the
/// `http=` one.
pub open spec fn spec_pick_https_server(s: Seq<char>) -> Option<Seq<char>> {
    if find_char(s, '=') is None {
        Some(trim(s))
    } else {
        let parts = split_char(s, ';');
        match last_value(parts, "https"@) {
            Some(v) => Some(v),
            None => last_value(parts, "http"@),
        }
    }
}

/// Which server of the proxy setting to use for HTTPS (see
/// `spec_pick_https_server`).
pub fn pick_https_server(s: &str) -> (r: Option<String>)
    ensures
        crate::vhost::opt_view(r) == spec_pick_https_server(s@),
{
    let c = chars_of(s);
    if crate::text::find_char_exec(&c, '=').is_none() {
        return Some(string_of(&crate::text::trim_of(&c)));
    }
    let parts = crate::text::split_char_exec(&c, ';');
    proof {
        reveal_strlit("https");
        reveal_strlit("http");
    }
    assert("https"@.len() != "http"@.len());
    let https = chars_of("https");
    let http = chars_of("http");
    let mut https_val: Option<Vec<char>> = None;
    let mut http_val: Option<Vec<char>> = None;
    let mut i: usize = 0;
    while i < parts.len()
        invariant
            i <= parts.len(),
            views(parts@) == split_char(c@, ';'),
            https@ == "https"@,
            http@ == "http"@,
            "https"@ != "http"@,
            crate::config_editor::opt_view(https_val) == last_value(views(parts@).take(i as int), "https"@),
            crate::config_editor::opt_view(http_val) == last_value(views(parts@).take(i as int), "http"@),
        decreases parts.len() - i,
    {
        let ghost pre = views(parts@).take(i as int);
        assert(views(parts@).take(i + 1).drop_last() == pre);
        assert(views(parts@).take(i + 1).last() == parts@[i as int]@);
        let t = crate::text::trim_of(&parts[i]);
        match crate::text::split_once_exec(&t, '=') {
            Some((k, v)) => {
                let lk = crate::text::lower_of(&crate::text::trim_of(&k));
                if crate::text::eq(&lk, &https) {
                    https_val = Some(crate::text::trim_of(&v));
                } else if crate::text::eq(&lk, &http) {
                    http_val = Some(crate::text::trim_of(&v));
                }
            },
            None => {},
        }
        i += 1;
    }
    assert(views(parts@).take(parts.len() as int) == views(parts@));
    match https_val {
        Some(v) => Some(string_of(&v)),
        None => match http_val {
            Some(v) => Some(string_of(&v)),
            None => None,
        },
    }
}

/// The proxy as a URL: kept when it names `http://` or `https://`, else
/// given `http://`.
pub fn proxy_url(raw: &str) -> (r: String)
    ensures
        r@ == (if starts_with(raw@, "http://"@) || starts_with(raw@, "https://"@) {
            raw@
        } else {
            "http://"@ + raw@
        }),
{
    let c = chars_of(raw);
    if crate::text::starts_with_str(&c, "http://") || crate::text::starts_with_str(&c, "https://") {
        string_of(&c)
    } else {
        let mut v = chars_of("http://");
        append_str(&mut v, raw);
        string_of(&v)
    }
}

} // verus!
