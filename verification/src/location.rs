//! URLs, kept as their text and worked on by the `url` crate.
use vstd::prelude::*;

verus! {

/// The error that the `url` crate returns for a text that is no URL.
#[verifier::external_type_specification]
#[verifier::external_body]
pub struct ExParseError(url::ParseError);

/// The text of the URL that `Url::join` makes of `reference`, read against
/// the URL with the text `base`; `None` where `base` is no URL or
/// `reference` cannot be read against it.
pub uninterp spec fn url_join(base: Seq<char>, reference: Seq<char>) -> Option<Seq<char>>;

/// What `Url::fragment` finds in the URL with the text `url`: the part
/// behind its `#`; `None` where it has none or `url` is no URL.
pub uninterp spec fn url_fragment(url: Seq<char>) -> Option<Seq<char>>;

/// The text that `Url::set_fragment` leaves of the URL with the text `url`
/// when it takes the fragment away; `None` where `url` is no URL.
pub uninterp spec fn url_resource(url: Seq<char>) -> Option<Seq<char>>;

/// Calls `Url::join` of the `url` crate on the URL that `base` writes, and
/// returns the text of the URL it gives. The contract names that text
/// `url_join` and says nothing of what it holds; it claims that the same two
/// texts always give the same outcome.
#[verifier::external_body]
pub(crate) fn join(base: &str, reference: &str) -> (joined: Result<String, url::ParseError>)
    ensures
        match joined {
            Ok(text) => url_join(base@, reference@) == Some(text@),
            Err(_) => url_join(base@, reference@).is_none(),
        },
{
    let base = url::Url::parse(base)?;
    let joined = base.join(reference)?;
    Ok(String::from(joined))
}

/// Calls `Url::fragment` of the `url` crate on the URL that `url` writes.
/// The contract names the outcome `url_fragment` and says nothing of what it
/// holds; it claims that the same text always gives the same outcome.
#[verifier::external_body]
pub(crate) fn fragment(url: &str) -> (found: Option<String>)
    ensures
        match found {
            Some(text) => url_fragment(url@) == Some(text@),
            None => url_fragment(url@).is_none(),
        },
{
    match url::Url::parse(url) {
        Ok(parsed) => parsed.fragment().map(String::from),
        Err(_) => None,
    }
}

/// Calls `Url::set_fragment` of the `url` crate, with no fragment, on the
/// URL that `url` writes, and returns the text that is left. The contract
/// names that text `url_resource` and says nothing of what it holds; it
/// claims that the same text always gives the same outcome.
#[verifier::external_body]
pub(crate) fn resource(url: &str) -> (found: Result<String, url::ParseError>)
    ensures
        match found {
            Ok(text) => url_resource(url@) == Some(text@),
            Err(_) => url_resource(url@).is_none(),
        },
{
    let mut parsed = url::Url::parse(url)?;
    parsed.set_fragment(None);
    Ok(String::from(parsed))
}

} // verus!
