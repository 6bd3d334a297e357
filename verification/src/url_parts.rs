//! What the library reads of a parsed URL.

use vstd::prelude::*;

verus! {

/// What `url::Url::parse` gives for an input: on success whether the URL
/// has a host, its scheme and its decoded query pairs in order; on failure
/// the text of the parse error.
pub uninterp spec fn url_parse(input: Seq<char>) -> Result<(bool, Seq<char>, Seq<(Seq<char>, Seq<char>)>), Seq<char>>;

/// The parts of a parsed URL that the library reads.
pub struct ParsedUrl {
    /// Whether the URL has a host.
    pub has_host: bool,
    /// The scheme, such as `https`.
    pub scheme: String,
    /// The decoded `key=value` pairs of the query, in order.
    pub query_pairs: Vec<(String, String)>,
}

impl ParsedUrl {
    /// The parts as plain values.
    pub open spec fn parts(&self) -> (bool, Seq<char>, Seq<(Seq<char>, Seq<char>)>) {
        (self.has_host, self.scheme@, self.query_pairs@.map_values(|p: (String, String)| (p.0@, p.1@)))
    }
}

/// A parse outcome as plain values.
pub open spec fn parse_view(r: Result<ParsedUrl, String>) -> Result<(bool, Seq<char>, Seq<(Seq<char>, Seq<char>)>), Seq<char>> {
    match r {
        Ok(p) => Ok(p.parts()),
        Err(e) => Err(e@),
    }
}

/// Calls `url::Url::parse` and reads `host().is_some()`, `scheme()` and
/// `query_pairs()` of the result, or the `Display` text of the error.
/// Claims the outcome equals `url_parse` of the input (named, not written
/// out: the WHATWG URL grammar).
#[verifier::external_body]
pub(crate) fn parse_url(input: &str) -> (r: Result<ParsedUrl, String>)
    ensures
        parse_view(r) == url_parse(input@),
{
    match url::Url::parse(input) {
        Ok(u) => Ok(ParsedUrl {
            has_host: u.host().is_some(),
            scheme: u.scheme().to_string(),
            query_pairs: u.query_pairs().map(|(k, v)| (k.to_string(), v.to_string())).collect(),
        }),
        Err(e) => Err(e.to_string()),
    }
}

} // verus!
