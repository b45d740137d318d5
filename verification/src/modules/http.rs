//! Redirection of the client's HTTPS requests to a local server.
use vstd::prelude::*;

use crate::text::{contains, contains_text, occurs_at, push_char, starts_with, str_chars};

verus! {

/// Marker for the module that redirects web requests.
pub struct Http;

/// Local port that ordinary requests are sent to.
pub const PORT: u16 = 21000;

/// Local port that dispatch requests (remote configuration and the
/// server list) are sent to.
pub const DISPATCH_PORT: u16 = 21041;

/// The scheme prefix of the requests that are redirected.
pub open spec fn https_prefix() -> Seq<char> {
    "https://"@
}

/// What a redirected URL starts with: plain HTTP to the loopback address.
pub open spec fn local_origin() -> Seq<char> {
    "http://127.0.0.1:"@
}

/// The character of a decimal digit `d < 10`.
pub open spec fn digit_char(d: nat) -> char {
    ('0' as nat + d) as char
}

/// The decimal representation of `n`, without leading zeros.
pub open spec fn decimal(n: nat) -> Seq<char>
    decreases n,
{
    if n < 10 {
        seq![digit_char(n)]
    } else {
        decimal(n / 10).push(digit_char(n % 10))
    }
}

/// Whether the part of a URL after the scheme names a dispatch endpoint.
pub open spec fn is_dispatch(rest: Seq<char>) -> bool {
    contains_text(rest, "/remote_config"@) || contains_text(rest, "/get_server_list"@)
}

/// The local port for the part of a URL after the scheme.
pub open spec fn port_for(rest: Seq<char>) -> u16 {
    if is_dispatch(rest) {
        DISPATCH_PORT
    } else {
        PORT
    }
}

/// The path of the part of a URL after the scheme: everything from its
/// first `/` on, or `/` when it has none.
pub open spec fn path_of(rest: Seq<char>) -> Seq<char>
    decreases rest.len(),
{
    if rest.len() == 0 {
        "/"@
    } else if rest[0] == '/' {
        rest
    } else {
        path_of(rest.drop_first())
    }
}

/// Where a request for `url` is sent instead: `None` when `url` is not an
/// HTTPS URL (the request is left alone), else the local origin with the
/// chosen port, followed by the request's path.
pub open spec fn redirect_target(url: Seq<char>) -> Option<Seq<char>> {
    if https_prefix().is_prefix_of(url) {
        let rest = url.skip(https_prefix().len() as int);
        Some(local_origin() + decimal(port_for(rest) as nat) + path_of(rest))
    } else {
        None
    }
}

/// The decimal digits of `n`.
pub fn decimal_digits(n: u16) -> (r: Vec<char>)
    ensures
        r@ == decimal(n as nat),
    decreases n,
{
    if n < 10 {
        let c = ((n as u8) + 48u8) as char;
        assert(c == digit_char(n as nat));
        let mut v: Vec<char> = Vec::new();
        v.push(c);
        v
    } else {
        let mut v = decimal_digits(n / 10);
        let d = n % 10;
        let c = ((d as u8) + 48u8) as char;
        assert(c == digit_char((n as nat) % 10));
        v.push(c);
        v
    }
}

/// Index of the first `/` in `s` at or after `from`, or `s.len()` when
/// there is none.
fn first_slash(s: &Vec<char>, from: usize) -> (k: usize)
    requires
        from <= s.len(),
    ensures
        from <= k <= s.len(),
        forall|j: int| from <= j < k ==> s@[j] != '/',
        k < s.len() ==> s@[k as int] == '/',
{
    let mut k = from;
    while k < s.len()
        invariant
            from <= k <= s.len(),
            forall|j: int| from <= j < k ==> s@[j] != '/',
        decreases s.len() - k,
    {
        if s[k] == '/' {
            return k;
        }
        k += 1;
    }
    k
}

proof fn lemma_path_of(s: Seq<char>, k: int)
    requires
        0 <= k <= s.len(),
        forall|j: int| 0 <= j < k ==> s[j] != '/',
        k < s.len() ==> s[k] == '/',
    ensures
        path_of(s) == if k < s.len() {
            s.skip(k)
        } else {
            "/"@
        },
    decreases k,
{
    if k > 0 {
        lemma_path_of(s.drop_first(), k - 1);
        assert(s.drop_first().skip(k - 1) =~= s.skip(k));
    } else if s.len() > 0 {
        assert(s.skip(0) =~= s);
    }
}

/// The URL a request for `url` is redirected to, or `None` when the
/// request is left alone (it is not an HTTPS request).
pub fn redirect_url(url: &str) -> (r: Option<String>)
    ensures
        r is Some <==> redirect_target(url@) is Some,
        r matches Some(s) ==> s@ == redirect_target(url@)->0,
{
    let u = str_chars(url);
    let scheme = str_chars("https://");
    if !starts_with(&u, &scheme) {
        return None;
    }
    let start = scheme.len();
    let mut rest: Vec<char> = Vec::new();
    let mut i = start;
    while i < u.len()
        invariant
            start <= i <= u.len(),
            rest@ == u@.subrange(start as int, i as int),
        decreases u.len() - i,
    {
        rest.push(u[i]);
        i += 1;
        assert(rest@ =~= u@.subrange(start as int, i as int));
    }
    assert(rest@ =~= u@.skip(start as int));
    let port = if contains(&rest, &str_chars("/remote_config")) || contains(
        &rest,
        &str_chars("/get_server_list"),
    ) {
        DISPATCH_PORT
    } else {
        PORT
    };
    let mut out = String::from_str("http://127.0.0.1:");
    let digits = decimal_digits(port);
    let mut j: usize = 0;
    while j < digits.len()
        invariant
            j <= digits.len(),
            out@ == local_origin() + digits@.take(j as int),
        decreases digits.len() - j,
    {
        push_char(&mut out, digits[j]);
        j += 1;
        assert(out@ =~= local_origin() + digits@.take(j as int));
    }
    assert(digits@.take(digits.len() as int) =~= digits@);
    let k = first_slash(&rest, 0);
    proof {
        lemma_path_of(rest@, k as int);
    }
    if k == rest.len() {
        push_char(&mut out, '/');
        proof {
            reveal_strlit("/");
        }
        assert(out@ =~= local_origin() + decimal(port as nat) + path_of(rest@));
    } else {
        let ghost base = out@;
        let mut m = k;
        while m < rest.len()
            invariant
                k <= m <= rest.len(),
                out@ == base + rest@.subrange(k as int, m as int),
            decreases rest.len() - m,
        {
            push_char(&mut out, rest[m]);
            m += 1;
            assert(out@ =~= base + rest@.subrange(k as int, m as int));
        }
        assert(rest@.subrange(k as int, rest.len() as int) =~= rest@.skip(k as int));
        assert(out@ =~= local_origin() + decimal(port as nat) + path_of(rest@));
    }
    Some(out)
}

/// The path of a URL starts with `/`, and it is either the whole `/` that
/// stands in for a missing path or a suffix of the text it was taken from.
pub proof fn lemma_path_of_shape(rest: Seq<char>)
    ensures
        path_of(rest).len() >= 1,
        path_of(rest)[0] == '/',
        path_of(rest) == "/"@ || path_of(rest).is_suffix_of(rest),
    decreases rest.len(),
{
    reveal_strlit("/");
    if rest.len() == 0 {
    } else if rest[0] == '/' {
        assert(rest.subrange(0, rest.len() as int) =~= rest);
    } else {
        let tail = rest.drop_first();
        lemma_path_of_shape(tail);
        let p = path_of(tail);
        if p != "/"@ {
            assert(tail.subrange(tail.len() - p.len(), tail.len() as int) =~= rest.subrange(
                rest.len() - p.len(),
                rest.len() as int,
            ));
        }
    }
}

/// Every redirected request goes to the loopback origin and keeps its
/// path: the target starts with `http://127.0.0.1:`, ends with the
/// request's path, that path starts with `/`, and it is either `/` (the
/// request had none) or the tail of the original URL.
pub proof fn law_redirect_shape(url: Seq<char>)
    requires
        redirect_target(url) is Some,
    ensures
        ({
            let t = redirect_target(url)->0;
            let path = path_of(url.skip(https_prefix().len() as int));
            &&& local_origin().is_prefix_of(t)
            &&& path.is_suffix_of(t)
            &&& path[0] == '/'
            &&& path == "/"@ || path.is_suffix_of(url)
        }),
{
    let rest = url.skip(https_prefix().len() as int);
    let t = redirect_target(url)->0;
    let path = path_of(rest);
    lemma_path_of_shape(rest);
    let head = local_origin() + decimal(port_for(rest) as nat);
    assert(t == head + path);
    assert(t.subrange(0, local_origin().len() as int) =~= local_origin());
    assert(t.subrange(t.len() - path.len(), t.len() as int) =~= path);
    if path != "/"@ {
        assert(rest.subrange(rest.len() - path.len(), rest.len() as int) =~= url.subrange(
            url.len() - path.len(),
            url.len() as int,
        ));
    }
}

/// A redirected URL is never redirected again: the target is a plain
/// HTTP URL, so rewriting is idempotent.
pub proof fn law_redirect_is_final(url: Seq<char>)
    requires
        redirect_target(url) is Some,
    ensures
        redirect_target(redirect_target(url)->0) is None,
{
    reveal_strlit("https://");
    reveal_strlit("http://127.0.0.1:");
    let rest = url.skip(https_prefix().len() as int);
    let t = redirect_target(url)->0;
    assert(t == local_origin() + decimal(port_for(rest) as nat) + path_of(rest));
    assert(t[4] == ':');
    if https_prefix().is_prefix_of(t) {
        assert(t.subrange(0, 8)[4] == 's');
    }
}

/// Requests to the dispatch endpoints go to the dispatch port and all
/// others to the ordinary port.
pub proof fn law_redirect_port(url: Seq<char>)
    requires
        redirect_target(url) is Some,
    ensures
        ({
            let rest = url.skip(https_prefix().len() as int);
            redirect_target(url)->0 == local_origin() + decimal(
                (if is_dispatch(rest) {
                    DISPATCH_PORT
                } else {
                    PORT
                }) as nat,
            ) + path_of(rest)
        }),
{
}

/// The decimal text of the two local ports.
pub proof fn lemma_port_texts()
    ensures
        decimal(21041) == "21041"@,
        decimal(21000) == "21000"@,
{
    reveal_strlit("21041");
    reveal_strlit("21000");
    reveal_with_fuel(decimal, 6);
    assert(decimal(21041) =~= "21041"@);
    assert(decimal(21000) =~= "21000"@);
}

/// Where an HTTPS request is sent, spelled out: `https://` is stripped; if
/// the rest of the URL contains `/remote_config` or `/get_server_list`
/// anywhere the request goes to `http://127.0.0.1:21041`, else to
/// `http://127.0.0.1:21000`; the path that follows is the rest of the URL
/// from its first `/` (position `k`), or `/` when it has none.
pub proof fn law_redirect_explicit(url: Seq<char>, k: int)
    requires
        url.len() >= 8,
        url.take(8) == "https://"@,
        8 <= k <= url.len(),
        forall|j: int| 8 <= j < k ==> url[j] != '/',
        k < url.len() ==> url[k] == '/',
    ensures
        ({
            let rest = url.skip(8);
            let dispatch = (exists|i: int|
                0 <= i && i + "/remote_config"@.len() <= rest.len() && #[trigger] rest.subrange(
                    i,
                    i + "/remote_config"@.len(),
                ) == "/remote_config"@) || (exists|i: int|
                0 <= i && i + "/get_server_list"@.len() <= rest.len() && #[trigger] rest.subrange(
                    i,
                    i + "/get_server_list"@.len(),
                ) == "/get_server_list"@);
            let port = if dispatch {
                "21041"@
            } else {
                "21000"@
            };
            let path = if k < url.len() {
                url.skip(k)
            } else {
                "/"@
            };
            redirect_target(url) == Some("http://127.0.0.1:"@ + port + path)
        }),
{
    reveal_strlit("https://");
    let rest = url.skip(8);
    assert("https://"@.is_prefix_of(url)) by {
        assert(url.subrange(0, 8) =~= url.take(8));
    }
    assert(https_prefix().len() == 8);
    lemma_port_texts();
    assert forall|j: int| 0 <= j < k - 8 implies rest[j] != '/' by {
        assert(rest[j] == url[j + 8]);
    }
    if k < url.len() {
        assert(rest[k - 8] == url[k]);
    }
    lemma_path_of(rest, k - 8);
    if k < url.len() {
        assert(rest.skip(k - 8) =~= url.skip(k));
    }
    let d1 = exists|i: int|
        0 <= i && i + "/remote_config"@.len() <= rest.len() && #[trigger] rest.subrange(
            i,
            i + "/remote_config"@.len(),
        ) == "/remote_config"@;
    let d2 = exists|i: int|
        0 <= i && i + "/get_server_list"@.len() <= rest.len() && #[trigger] rest.subrange(
            i,
            i + "/get_server_list"@.len(),
        ) == "/get_server_list"@;
    assert(contains_text(rest, "/remote_config"@) == d1) by {
        if d1 {
            let i = choose|i: int|
                0 <= i && i + "/remote_config"@.len() <= rest.len() && #[trigger] rest.subrange(
                    i,
                    i + "/remote_config"@.len(),
                ) == "/remote_config"@;
            assert(occurs_at(rest, "/remote_config"@, i));
        }
        if contains_text(rest, "/remote_config"@) {
            let i = choose|i: int| #[trigger] occurs_at(rest, "/remote_config"@, i);
            assert(rest.subrange(i, i + "/remote_config"@.len()) == "/remote_config"@);
        }
    }
    assert(contains_text(rest, "/get_server_list"@) == d2) by {
        if d2 {
            let i = choose|i: int|
                0 <= i && i + "/get_server_list"@.len() <= rest.len() && #[trigger] rest.subrange(
                    i,
                    i + "/get_server_list"@.len(),
                ) == "/get_server_list"@;
            assert(occurs_at(rest, "/get_server_list"@, i));
        }
        if contains_text(rest, "/get_server_list"@) {
            let i = choose|i: int| #[trigger] occurs_at(rest, "/get_server_list"@, i);
            assert(rest.subrange(i, i + "/get_server_list"@.len()) == "/get_server_list"@);
        }
    }
}

} // verus!
