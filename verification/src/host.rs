//! Host names and access tokens as the monitoring interface sees them:
//! which host a request was addressed to, which hosts are worth
//! remembering for links, and which bearer token opens the interface.

use crate::text::{
    chars_are, chars_of, count_char, count_of, decimal, decimal_chars, extend_chars, extend_str,
    find_first, first_index, lemma_first_index_props, lower_seq, starts_with, string_of, sub_vec,
    to_lower, trim, trim_char, trim_of, trim_ws,
};
use vstd::prelude::*;

verus! {

/// The file that keeps the host that links are made with.
pub const DEEPLINK_HOST_CACHE_FILE: &'static str = "deeplink_host.txt";

/// The file that keeps the host that the last request was addressed to.
pub const DEEPLINK_HOST_LAST_SEEN_CACHE_FILE: &'static str = "deeplink_host_last_seen.txt";

/// How many log entries a request gets that asks for no number.
pub const DEFAULT_LOG_TAIL: usize = 100;

/// What is written down of the host of a request.
#[derive(Debug, Clone, Copy, PartialEq, Eq, Structural)]
pub struct HostNote {
    pub write_last_seen: bool,
    pub write_preferred: bool,
}

/// The host in one entry of a host header: what stands between the square
/// brackets of an address in brackets, what stands before the colon where
/// there is exactly one, and the whole entry otherwise. An opening bracket
/// that is never closed gives nothing.
pub open spec fn host_part(candidate: Seq<char>) -> Option<Seq<char>> {
    if candidate.len() > 0 && candidate[0] == '[' {
        let end = first_index(candidate, ']');
        if end >= candidate.len() {
            None
        } else {
            Some(candidate.subrange(1, end as int))
        }
    } else if count_of(candidate, ':') == 1 {
        Some(candidate.take(first_index(candidate, ':') as int))
    } else {
        Some(candidate)
    }
}

/// The host that a host header names: the host of its first entry,
/// trimmed, and without dots at either end. A header that names no host
/// gives nothing.
pub open spec fn sanitized_host(raw: Seq<char>) -> Option<Seq<char>> {
    let candidate = trim(raw.take(first_index(raw, ',') as int));
    if candidate.len() == 0 {
        None
    } else {
        match host_part(candidate) {
            None => None,
            Some(h) => {
                let t = trim_of(trim(h), '.');
                if t.len() == 0 {
                    None
                } else {
                    Some(t)
                }
            },
        }
    }
}

/// Whether a host is the machine itself.
pub open spec fn is_loopback(host: Seq<char>) -> bool {
    let l = lower_seq(host);
    l == "localhost"@ || l == "127.0.0.1"@ || l == "::1"@
}

/// The host that a request was addressed to: the one that a proxy passed
/// on, where it names one, else the one of the request itself.
pub open spec fn deeplink_candidate(forwarded: Option<Seq<char>>, host: Option<Seq<char>>)
    -> Option<Seq<char>> {
    if forwarded is Some && sanitized_host(forwarded->0) is Some {
        sanitized_host(forwarded->0)
    } else if host is Some {
        sanitized_host(host->0)
    } else {
        None
    }
}

/// What is written down of a host: it is noted as last seen unless it was
/// the last one seen, and as the host for links unless it is the machine
/// itself or already is the host for links.
pub open spec fn host_note(
    host: Seq<char>,
    last_seen: Option<Seq<char>>,
    preferred: Option<Seq<char>>,
) -> HostNote {
    HostNote {
        write_last_seen: last_seen != Some(host),
        write_preferred: !is_loopback(host) && preferred != Some(host),
    }
}

/// Whether credentials are unfit to open the interface: empty ones, and
/// the ones that every installation starts with.
pub open spec fn weak_credentials(username: Seq<char>, password: Seq<char>) -> bool {
    username.len() == 0 || password.len() == 0 || username == "admin"@ || password == "password"@
}

/// Whether an authorization header carries the expected bearer token, with
/// credentials that are fit to open the interface.
pub open spec fn token_accepted(
    auth_header: Seq<char>,
    username: Seq<char>,
    password: Seq<char>,
    expected_token: Seq<char>,
) -> bool {
    "Bearer "@.is_prefix_of(auth_header) && !weak_credentials(username, password)
        && auth_header.skip(7) == expected_token
}

/// The number of log entries that a request gets: the number it asks for,
/// or 100, but at least one and at most as many as are kept.
pub open spec fn tail_length(requested: Option<usize>, max_logs: usize) -> usize {
    let n = match requested {
        Some(n) => n,
        None => DEFAULT_LOG_TAIL,
    };
    if n < 1 {
        1
    } else if n > max_logs {
        max_logs
    } else {
        n
    }
}

/// The origin that requests from browsers are accepted from.
pub open spec fn origin_of(use_reverse_proxy: bool, port: Seq<char>, proxy_host: Seq<char>) -> Seq<
    char,
> {
    if use_reverse_proxy {
        "http://"@ + proxy_host + "/"@
    } else {
        "http://localhost:"@ + port + "/"@
    }
}

/// The base64 text, in the standard alphabet and with padding, of the
/// bytes of a text.
pub uninterp spec fn base64_standard(text: Seq<char>) -> Seq<char>;

/// Encodes the bytes of a text in base64.
///
/// Calls `base64::Engine::encode` on `base64::engine::general_purpose::STANDARD`.
/// The claim is that the result depends on the text alone.
#[verifier::external_body]
pub(crate) fn base64_encode_text(text: &str) -> (r: String)
    ensures
        r@ == base64_standard(text@),
{
    base64::Engine::encode(&base64::engine::general_purpose::STANDARD, text)
}

/// The host in one entry of a host header.
fn host_part_of(candidate: &Vec<char>) -> (r: Option<Vec<char>>)
    ensures
        match r {
            Some(h) => host_part(candidate@) == Some(h@),
            None => host_part(candidate@) is None,
        },
{
    if candidate.len() > 0 && candidate[0] == '[' {
        let end = find_first(candidate, ']');
        if end >= candidate.len() {
            None
        } else {
            proof {
                lemma_first_index_props(candidate@, ']');
            }
            Some(sub_vec(candidate, 1, end))
        }
    } else if count_char(candidate, ':') == 1 {
        let end = find_first(candidate, ':');
        let h = sub_vec(candidate, 0, end);
        assert(h@ =~= candidate@.take(end as int));
        Some(h)
    } else {
        let h = sub_vec(candidate, 0, candidate.len());
        assert(h@ =~= candidate@);
        Some(h)
    }
}

/// The host that a host header names, if it names one.
pub fn sanitize_host_header(raw: &str) -> (r: Option<String>)
    ensures
        match r {
            Some(h) => sanitized_host(raw@) == Some(h@),
            None => sanitized_host(raw@) is None,
        },
{
    let v = chars_of(raw);
    let comma = find_first(&v, ',');
    let first = sub_vec(&v, 0, comma);
    assert(first@ =~= v@.take(comma as int));
    let candidate = trim_ws(&first);
    if candidate.len() == 0 {
        return None;
    }
    match host_part_of(&candidate) {
        None => None,
        Some(h) => {
            let inner = trim_ws(&h);
            let t = trim_char(&inner, '.');
            if t.len() == 0 {
                None
            } else {
                Some(string_of(&t))
            }
        },
    }
}

/// Tells whether a host is the machine itself: `localhost`, `127.0.0.1`
/// or `::1`, in any case of letters.
pub fn is_loopback_host(host: &str) -> (r: bool)
    ensures
        r == is_loopback(host@),
{
    let v = chars_of(host);
    let l = to_lower(&v);
    chars_are(&l, "localhost") || chars_are(&l, "127.0.0.1") || chars_are(&l, "::1")
}

/// The host that a request was addressed to, read from the header that a
/// proxy adds and from the host header of the request.
pub fn extract_deeplink_host_candidate(forwarded_host: Option<&str>, host: Option<&str>) -> (r:
    Option<String>)
    ensures
        match r {
            Some(h) => deeplink_candidate(
                match forwarded_host {
                    Some(f) => Some(f@),
                    None => None,
                },
                match host {
                    Some(x) => Some(x@),
                    None => None,
                },
            ) == Some(h@),
            None => deeplink_candidate(
                match forwarded_host {
                    Some(f) => Some(f@),
                    None => None,
                },
                match host {
                    Some(x) => Some(x@),
                    None => None,
                },
            ) is None,
        },
{
    match forwarded_host {
        Some(f) => {
            match sanitize_host_header(f) {
                Some(h) => {
                    return Some(h);
                },
                None => {},
            }
        },
        None => {},
    }
    match host {
        Some(x) => sanitize_host_header(x),
        None => None,
    }
}

/// Tells whether an optional text is the given one.
fn holds(o: Option<&str>, text: &Vec<char>) -> (r: bool)
    ensures
        r == (match o {
            Some(s) => Some(s@),
            None => None,
        } == Some(text@)),
{
    match o {
        Some(s) => chars_are(text, s),
        None => false,
    }
}

/// Decides what is written down of the host of a request, given the host
/// last seen and the host that links are made with so far.
pub fn plan_host_note(host: &str, last_seen: Option<&str>, preferred: Option<&str>) -> (note:
    HostNote)
    ensures
        note == host_note(
            host@,
            match last_seen {
                Some(s) => Some(s@),
                None => None,
            },
            match preferred {
                Some(s) => Some(s@),
                None => None,
            },
        ),
{
    let h = chars_of(host);
    let write_last_seen = !holds(last_seen, &h);
    let write_preferred = !is_loopback_host(host) && !holds(preferred, &h);
    HostNote { write_last_seen, write_preferred }
}

/// Tells whether an authorization header carries the expected bearer
/// token, with credentials that are fit to open the interface.
pub fn token_matches(auth_header: &str, username: &str, password: &str, expected_token: &str) -> (r:
    bool)
    ensures
        r == token_accepted(auth_header@, username@, password@, expected_token@),
{
    let header = chars_of(auth_header);
    let prefix = chars_of("Bearer ");
    proof {
        reveal_strlit("Bearer ");
    }
    if !starts_with(&header, &prefix) {
        return false;
    }
    let user = chars_of(username);
    let pass = chars_of(password);
    if user.len() == 0 || pass.len() == 0 || chars_are(&user, "admin") || chars_are(
        &pass,
        "password",
    ) {
        return false;
    }
    let token = sub_vec(&header, 7, header.len());
    assert(token@ =~= auth_header@.skip(7));
    chars_are(&token, expected_token)
}

/// Tells whether an authorization header opens the interface: it must be
/// `Bearer` followed by the base64 text of user name, colon and password,
/// and the credentials must not be empty or the initial ones.
pub fn token_is_valid(auth_header: &str, username: &str, password: &str) -> (r: bool)
    ensures
        r == token_accepted(
            auth_header@,
            username@,
            password@,
            base64_standard(username@ + ":"@ + password@),
        ),
{
    let mut pair: Vec<char> = Vec::new();
    extend_str(&mut pair, username);
    extend_str(&mut pair, ":");
    extend_str(&mut pair, password);
    assert(pair@ =~= username@ + ":"@ + password@);
    let text = string_of(&pair);
    let expected = base64_encode_text(text.as_str());
    token_matches(auth_header, username, password, expected.as_str())
}

/// The number of log entries that a request gets.
pub fn log_tail(requested: Option<usize>, max_logs: usize) -> (n: usize)
    requires
        max_logs >= 1,
    ensures
        n == tail_length(requested, max_logs),
        1 <= n <= max_logs,
{
    let n = match requested {
        Some(n) => n,
        None => DEFAULT_LOG_TAIL,
    };
    if n < 1 {
        1
    } else if n > max_logs {
        max_logs
    } else {
        n
    }
}

/// The origin that requests from browsers are accepted from: the proxy's
/// host behind a reverse proxy, else this machine at the monitoring port.
pub fn cors_origin(use_reverse_proxy: bool, port: u16, proxy_host: &str) -> (r: String)
    ensures
        r@ == origin_of(use_reverse_proxy, decimal(port as nat), proxy_host@),
{
    let mut out: Vec<char> = Vec::new();
    if use_reverse_proxy {
        extend_str(&mut out, "http://");
        extend_str(&mut out, proxy_host);
        extend_str(&mut out, "/");
        assert(out@ =~= "http://"@ + proxy_host@ + "/"@);
    } else {
        extend_str(&mut out, "http://localhost:");
        let digits = decimal_chars(port as u64);
        extend_chars(&mut out, &digits);
        extend_str(&mut out, "/");
        assert(out@ =~= "http://localhost:"@ + decimal(port as nat) + "/"@);
    }
    string_of(&out)
}

} // verus!
