//! Parsed web addresses, as the `url` crate reads them.
use vstd::prelude::*;

use crate::text::{has_prefix, lower};

verus! {

/// What the library reads of a parsed URL.
pub struct ParsedUrl {
    /// The scheme, lower-cased, without the `:` delimiter.
    pub scheme: String,
    /// The whole serialized URL.
    pub href: String,
    /// The host, for URLs that have one.
    pub host: Option<String>,
}

/// The mathematical model of a parsed URL.
pub struct UrlParts {
    pub scheme: Seq<char>,
    pub href: Seq<char>,
    pub host: Option<Seq<char>>,
}

impl View for ParsedUrl {
    type V = UrlParts;

    open spec fn view(&self) -> UrlParts {
        UrlParts {
            scheme: self.scheme@,
            href: self.href@,
            host: match self.host {
                Some(h) => Some(h@),
                None => None,
            },
        }
    }
}

/// What the WHATWG URL parser of the `url` crate (`Url::parse`) makes of `input`: `None`
/// where it reports an error, else the scheme, serialization and host of the absolute URL.
pub uninterp spec fn url_parse(input: Seq<char>) -> Option<UrlParts>;

/// The models of an optional parsed URL.
pub open spec fn parsed_view(p: Option<ParsedUrl>) -> Option<UrlParts> {
    match p {
        Some(u) => Some(u@),
        None => None,
    }
}

/// Calls `url::Url::parse` and reads the scheme (`Url::scheme`), the host (`Url::host_str`)
/// and the serialization (`String::from(Url)`) of the result. Claimed: the outcome is
/// `url_parse` of the input; the scheme is ASCII lower case (as `Url::scheme` documents)
/// and the serialization starts with the scheme and `:` (the parser's serialization
/// invariant, which `Url::scheme` slices); for `http` and `https` it starts with the scheme
/// and `://`, since the parser writes `//` and the authority after the `:` of a special
/// scheme other than `file` when no base URL is given.
#[verifier::external_body]
pub(crate) fn parse_url(input: &str) -> (r: Option<ParsedUrl>)
    ensures
        parsed_view(r) == url_parse(input@),
        r matches Some(u) ==> lower(u.scheme@) == u.scheme@,
        r matches Some(u) ==> has_prefix(u.href@, u.scheme@.push(':')),
        r matches Some(u) ==> (u.scheme@ == "http"@ || u.scheme@ == "https"@) ==> has_prefix(
            u.href@,
            u.scheme@ + "://"@,
        ),
{
    url::Url::parse(input).ok().map(|u| ParsedUrl {
        scheme: u.scheme().to_string(),
        host: u.host_str().map(|h| h.to_string()),
        href: u.into(),
    })
}

} // verus!
