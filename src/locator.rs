//! URLs, through the `url` crate, reduced to the plain values the rest of
//! the library reads.
use url::Url;
use vstd::prelude::*;

verus! {

/// Whether `url::Url::parse` accepts `s`.
pub uninterp spec fn url_parses(s: Seq<char>) -> bool;

/// `Url::scheme` of the URL that `s` parses to.
pub uninterp spec fn url_scheme(s: Seq<char>) -> Seq<char>;

/// `Url::as_str` of the URL that `s` parses to: its serialization.
pub uninterp spec fn url_serialization(s: Seq<char>) -> Seq<char>;

/// `Url::to_file_path` of the URL that `s` parses to, kept when the path is
/// valid UTF-8.
pub uninterp spec fn url_file_path(s: Seq<char>) -> Option<Seq<char>>;

/// `Url::from_file_path` of the path `p`, serialized.
pub uninterp spec fn file_url_of(p: Seq<char>) -> Option<Seq<char>>;

/// What is read of a parsed URL.
pub struct ParsedUrl {
    pub scheme: String,
    pub serialization: String,
    pub file_path: Option<String>,
}

pub open spec fn opt_text(s: Option<String>) -> Option<Seq<char>> {
    match s {
        Some(s) => Some(s@),
        None => None,
    }
}

/// Relies on `url::Url::parse`, and on `Url::scheme`, `Url::as_str` and
/// `Url::to_file_path` of its result.
#[verifier::external_body]
pub(crate) fn parse_url(s: &str) -> (r: Option<ParsedUrl>)
    ensures
        r is Some == url_parses(s@),
        r matches Some(u) ==> u.scheme@ == url_scheme(s@) && u.serialization@ == url_serialization(s@)
            && opt_text(u.file_path) == url_file_path(s@),
{
    match Url::parse(s) {
        Ok(url) => Some(ParsedUrl {
            scheme: url.scheme().to_owned(),
            serialization: url.as_str().to_owned(),
            file_path: match url.to_file_path() {
                Ok(p) => p.to_str().map(str::to_owned),
                Err(()) => None,
            },
        }),
        Err(_) => None,
    }
}

/// Relies on `url::Url::from_file_path`, which fails on a relative path, and
/// on `Url::as_str` of its result.
#[verifier::external_body]
pub(crate) fn file_url(path: &str) -> (r: Option<String>)
    ensures
        opt_text(r) == file_url_of(path@),
{
    match Url::from_file_path(path) {
        Ok(url) => Some(url.as_str().to_owned()),
        Err(()) => None,
    }
}

} // verus!
