//! The parts of a URL that the request text shows.

use vstd::prelude::*;

verus! {

/// The parts of a parsed URL.
#[derive(Debug)]
pub struct UrlParts {
    /// The path.
    pub path: String,
    /// The query, without the question mark, where the URL has one.
    pub query: Option<String>,
    /// The fragment, without the hash, where the URL has one.
    pub fragment: Option<String>,
    /// The host as it is written in a URL, where the URL has one.
    pub host: Option<String>,
}

/// The parts of a parsed URL as sequences of characters.
pub struct UrlPartsView {
    pub path: Seq<char>,
    pub query: Option<Seq<char>>,
    pub fragment: Option<Seq<char>>,
    pub host: Option<Seq<char>>,
}

/// The characters of an optional string.
pub open spec fn opt_view(s: Option<String>) -> Option<Seq<char>> {
    match s {
        Some(t) => Some(t@),
        None => None,
    }
}

impl View for UrlParts {
    type V = UrlPartsView;

    open spec fn view(&self) -> UrlPartsView {
        UrlPartsView {
            path: self.path@,
            query: opt_view(self.query),
            fragment: opt_view(self.fragment),
            host: opt_view(self.host),
        }
    }
}

/// The error with which the URL parser refuses a text.
#[verifier::external_type_specification]
#[verifier::external_body]
pub struct ExUrlParseError(url::ParseError);

/// The parts of the URL that `text` is; `None` where `text` is no
/// absolute URL.
pub uninterp spec fn url_parts(text: Seq<char>) -> Option<UrlPartsView>;

/// Parses `text` with `url::Url::parse` and hands out what `path`, `query`,
/// `fragment` and `host` return, the host as it prints. The contract only
/// gives the outcome its name, `url_parts`.
#[verifier::external_body]
pub(crate) fn split_url(text: &str) -> (r: Result<UrlParts, url::ParseError>)
    ensures
        match r {
            Ok(parts) => url_parts(text@) == Some(parts@),
            Err(_) => url_parts(text@) is None,
        },
{
    let u = url::Url::parse(text)?;
    Ok(
        UrlParts {
            path: String::from(u.path()),
            query: u.query().map(String::from),
            fragment: u.fragment().map(String::from),
            host: match u.host() {
                Some(h) => Some(h.to_string()),
                None => None,
            },
        },
    )
}

} // verus!
