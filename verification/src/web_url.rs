//! Absolute URLs, as far as the window rules read them, and the parsing
//! that produces them (done by the `url` crate).
use vstd::prelude::*;

verus! {

/// The parts of a parsed URL: scheme, host, explicit non-default port,
/// path and the whole serialization.
pub type UrlParts = (Seq<char>, Option<Seq<char>>, Option<u16>, Seq<char>, Seq<char>);

/// An absolute URL as parsed by the `url` crate: its lower-case scheme,
/// its host (absent for URLs such as `data:` or `unix:`), its port when it
/// is given and is not the scheme's default, its path, and its
/// serialization.
#[derive(Clone, Debug)]
pub struct WebUrl {
    pub scheme: String,
    pub host: Option<String>,
    pub port: Option<u16>,
    pub path: String,
    pub serialization: String,
}

impl View for WebUrl {
    type V = UrlParts;

    open spec fn view(&self) -> UrlParts {
        (
            self.scheme@,
            match self.host {
                Some(h) => Some(h@),
                None => None,
            },
            self.port,
            self.path@,
            self.serialization@,
        )
    }
}

/// What `url::Url::parse` makes of `input`: the parts of the URL, or the
/// text of the parse error.
pub uninterp spec fn url_parse(input: Seq<char>) -> Result<UrlParts, Seq<char>>;

/// The view of a parse result.
pub open spec fn parse_view(r: Result<WebUrl, String>) -> Result<UrlParts, Seq<char>> {
    match r {
        Ok(u) => Ok(u@),
        Err(e) => Err(e@),
    }
}

/// Parses `input` with `url::Url::parse` and reads back `scheme()`,
/// `host_str()`, `port()`, `path()` and `as_str()`; on failure, the
/// `Display` text of the `url::ParseError`. The contract claims only that
/// the outcome is a function of the input (`url_parse`); the URL grammar
/// itself is not stated.
#[verifier::external_body]
pub(crate) fn parse_url(input: &str) -> (r: Result<WebUrl, String>)
    ensures
        parse_view(r) == url_parse(input@),
{
    match url::Url::parse(input) {
        Ok(u) => Ok(WebUrl {
            scheme: u.scheme().to_string(),
            host: u.host_str().map(|h| h.to_string()),
            port: u.port(),
            path: u.path().to_string(),
            serialization: u.as_str().to_string(),
        }),
        Err(e) => Err(e.to_string()),
    }
}

} // verus!
