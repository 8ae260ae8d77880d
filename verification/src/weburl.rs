use vstd::prelude::*;

verus! {

/// Declares `url::Url`, the url crate's parsed-URL type, so that verified
/// signatures can carry it; its inside stays opaque here.
#[verifier::external_type_specification]
#[verifier::external_body]
pub struct ExUrl(url::Url);

/// Whether `url::Url::parse` accepts the string. Parsing is a pure function
/// of its input, so acceptance can be named without being spelled out.
pub uninterp spec fn url_parse_accepts(s: Seq<char>) -> bool;

/// Relies on `url::Url::parse`: turns a string into a parsed URL, accepting
/// or rejecting it on the string's content alone.
#[verifier::external_body]
pub fn parse_url(s: &str) -> (r: Option<url::Url>)
    ensures
        r is Some <==> url_parse_accepts(s@),
{
    match url::Url::parse(s) {
        Ok(u) => Some(u),
        Err(_) => None,
    }
}

} // verus!
