use vstd::prelude::*;
use vstd::string::*;
use crate::supervisor::{has_prefix, open_in_shell, opener_of, starts_with, HostOs, ShellCommand};
use crate::text::opt_view;

verus! {

/// The parts of a parsed URL that the opening rule reads.
pub struct ParsedUrl {
    pub scheme: String,
    pub host: Option<String>,
    /// The URL as the parser serialises it.
    pub text: String,
}

/// What the URL parser yields for a text: (scheme, host, serialised URL);
/// absent when the text is no valid URL.
pub uninterp spec fn parsed_url(s: Seq<char>) -> Option<(Seq<char>, Option<Seq<char>>, Seq<char>)>;

/// Relies on `url::Url::parse` (re-exported by reqwest) and its `scheme`,
/// `host_str` and `as_str` accessors; the result depends on the text alone.
#[verifier::external_body]
fn parse_url(s: &str) -> (r: Option<ParsedUrl>)
    ensures
        match r {
            Some(p) => parsed_url(s@) == Some((p.scheme@, opt_view(p.host), p.text@)),
            None => parsed_url(s@) is None,
        },
{
    reqwest::Url::parse(s).ok().map(
        |u| ParsedUrl {
            scheme: u.scheme().to_string(),
            host: u.host_str().map(|h| h.to_string()),
            text: u.as_str().to_string(),
        },
    )
}

/// Only `https`, or `http` to the local machine, may be opened.
pub open spec fn url_allowed(scheme: Seq<char>, host: Option<Seq<char>>) -> bool {
    scheme == "https"@ || (scheme == "http"@ && (host == Some("localhost"@) || host == Some(
        "127.0.0.1"@,
    )))
}

pub open spec fn invalid_url_message() -> Seq<char> {
    "Invalid URL"@
}

pub open spec fn scheme_refused_message() -> Seq<char> {
    "Only https:// URLs are allowed (http:// only for localhost)"@
}

/// The outcome of opening a URL, given what the parser made of it.
pub open spec fn url_outcome_ok(
    os: HostOs,
    parsed: Option<(Seq<char>, Option<Seq<char>>, Seq<char>)>,
    r: Result<ShellCommand, String>,
) -> bool {
    match parsed {
        None => r is Err && r->Err_0@ == invalid_url_message(),
        Some(p) => if url_allowed(p.0, p.1) {
            r is Ok && r->Ok_0.program@ == opener_of(os) && r->Ok_0.arg@ == p.2
        } else {
            r is Err && r->Err_0@ == scheme_refused_message()
        },
    }
}

fn is_local_host(host: &Option<String>) -> (r: bool)
    ensures
        r == (opt_view(*host) == Some("localhost"@) || opt_view(*host) == Some("127.0.0.1"@)),
{
    match host {
        Some(h) => *h == String::from_str("localhost") || *h == String::from_str("127.0.0.1"),
        None => false,
    }
}

/// Decides how to open a parsed URL: the opener command, or why it is refused.
pub fn url_open_command(os: HostOs, parsed: Option<ParsedUrl>) -> (r: Result<ShellCommand, String>)
    ensures
        url_outcome_ok(
            os,
            match parsed {
                Some(p) => Some((p.scheme@, opt_view(p.host), p.text@)),
                None => None,
            },
            r,
        ),
{
    match parsed {
        None => Err(String::from_str("Invalid URL")),
        Some(p) => {
            let allowed = p.scheme == String::from_str("https") || (p.scheme == String::from_str(
                "http",
            ) && is_local_host(&p.host));
            if allowed {
                Ok(open_in_shell(os, p.text.as_str()))
            } else {
                Err(String::from_str("Only https:// URLs are allowed (http:// only for localhost)"))
            }
        },
    }
}

/// Opens a URL in the platform's browser when it is `https`, or `http` to
/// the local machine.
pub fn open_url(os: HostOs, url: &str) -> (r: Result<ShellCommand, String>)
    ensures
        url_outcome_ok(os, parsed_url(url@), r),
{
    url_open_command(os, parse_url(url))
}

/// The first index at or after `k` that holds no `/` (or the length).
pub open spec fn lead_slashes(s: Seq<char>, k: int) -> int
    decreases s.len() - k,
{
    if k >= s.len() {
        s.len() as int
    } else if s[k] == '/' {
        lead_slashes(s, k + 1)
    } else {
        k
    }
}

/// The market-data path without its leading slashes.
pub open spec fn market_segment(path: Seq<char>) -> Seq<char> {
    path.skip(lead_slashes(path, 0))
}

/// Only the `events`, `markets` and `tags` endpoints may be fetched.
pub open spec fn market_path_allowed(segment: Seq<char>) -> bool {
    has_prefix(segment, "events"@) || has_prefix(segment, "markets"@) || has_prefix(
        segment,
        "tags"@,
    )
}

pub open spec fn market_url(segment: Seq<char>, params: Seq<char>) -> Seq<char> {
    "https://gamma-api.polymarket.com/"@ + segment + "?"@ + params
}

/// The market-data URL for `path` and the query `params`, when the path
/// (leading slashes dropped) names an allowed endpoint.
pub fn polymarket_url(path: &str, params: &str) -> (r: Result<String, String>)
    ensures
        market_path_allowed(market_segment(path@)) ==> r is Ok && r->Ok_0@ == market_url(
            market_segment(path@),
            params@,
        ),
        !market_path_allowed(market_segment(path@)) ==> r is Err && r->Err_0@
            == "Invalid Polymarket path"@,
{
    let n = path.unicode_len();
    let mut lo: usize = 0;
    while lo < n && path.get_char(lo) == '/'
        invariant
            n == path@.len(),
            0 <= lo <= n,
            lead_slashes(path@, lo as int) == lead_slashes(path@, 0),
        decreases n - lo,
    {
        lo = lo + 1;
    }
    let segment = path.substring_char(lo, n);
    assert(segment@ =~= market_segment(path@));
    if !(starts_with(segment, "events") || starts_with(segment, "markets") || starts_with(
        segment,
        "tags",
    )) {
        return Err(String::from_str("Invalid Polymarket path"));
    }
    let mut url = String::from_str("https://gamma-api.polymarket.com/");
    url.append(segment);
    url.append("?");
    url.append(params);
    Ok(url)
}

} // verus!
