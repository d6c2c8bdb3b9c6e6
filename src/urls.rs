//! URLs, read through the `url` crate into plain parts.
use vstd::prelude::*;

verus! {

/// Scheme, host and path of a URL as the WHATWG URL standard parses it;
/// `None` when the text is not a valid absolute URL.
pub uninterp spec fn url_parts_of(s: Seq<char>) -> Option<(Seq<char>, Option<Seq<char>>, Seq<char>)>;

/// The parts of a parsed URL that the engine reads.
#[derive(Debug, Clone)]
pub struct UrlParts {
    pub scheme: String,
    pub host: Option<String>,
    pub path: String,
}

pub open spec fn opt_view(o: Option<String>) -> Option<Seq<char>> {
    match o {
        Some(s) => Some(s@),
        None => None,
    }
}

/// The parts of a URL, as `url_parts_of` names them.
pub open spec fn parts_view(p: UrlParts) -> (Seq<char>, Option<Seq<char>>, Seq<char>) {
    (p.scheme@, opt_view(p.host), p.path@)
}

/// Relies on `url::Url::parse`, with `Url::scheme`, `Url::host_str` and
/// `Url::path` read off the result: the parts depend on the text alone.
#[verifier::external_body]
pub(crate) fn parse_url(s: &str) -> (r: Option<UrlParts>)
    ensures
        match url_parts_of(s@) {
            None => r is None,
            Some(parts) => r matches Some(p) && parts_view(p) == parts,
        },
{
    url::Url::parse(s).ok().map(
        |u| UrlParts {
            scheme: u.scheme().to_string(),
            host: u.host_str().map(|h| h.to_string()),
            path: u.path().to_string(),
        },
    )
}

} // verus!
