use vstd::prelude::*;

verus! {

/// The serialization of the absolute URL that `s` parses to, or `None` where
/// `s` is not an absolute URL.
pub uninterp spec fn parsed_url(s: Seq<char>) -> Option<Seq<char>>;

/// The serialization of the URL `url` with the pair `key=value` appended to its
/// query in form encoding, or `None` where `url` is not an absolute URL.
pub uninterp spec fn url_with_query_pair(
    url: Seq<char>,
    key: Seq<char>,
    value: Seq<char>,
) -> Option<Seq<char>>;

/// Relies on `url::Url::parse` and `From<url::Url> for String`: parses `s` as an
/// absolute URL and returns its serialization, or nothing where parsing fails.
#[verifier::external_body]
pub(crate) fn parse_url(s: &str) -> (r: Option<String>)
    ensures
        match r {
            Some(u) => parsed_url(s@) == Some(u@),
            None => parsed_url(s@) is None,
        },
{
    url::Url::parse(s).ok().map(String::from)
}

/// Whether the URL that `url` parses to, with a pair of `key` and `value`
/// characters appended to its query, stays within the `u32` offsets that
/// `url::Url` keeps. The bound is on the parsed serialization, whose length
/// the parser alone decides: a character of it takes at most four bytes, one of
/// the pair at most twelve once form-encoded, and the separators two. A URL
/// that does not parse gets no pair and fits.
pub open spec fn query_fits(url: Seq<char>, key: nat, value: nat) -> bool {
    match parsed_url(url) {
        Some(p) => 4 * p.len() + 12 * (key + value) + 2 <= u32::MAX,
        None => true,
    }
}

/// Relies on `url::Url::parse`, `url::Url::query_pairs_mut` and
/// `form_urlencoded::Serializer::append_pair`: appends one form-encoded pair to
/// the query of `url` and returns the new serialization. Dropping the query
/// serializer unwraps a `u32` offset of the serialization, hence the bound.
#[verifier::external_body]
pub(crate) fn append_query_pair(url: &str, key: &str, value: &str) -> (r: Option<String>)
    requires
        query_fits(url@, key@.len(), value@.len()),
    ensures
        match r {
            Some(u) => url_with_query_pair(url@, key@, value@) == Some(u@),
            None => url_with_query_pair(url@, key@, value@) is None,
        },
{
    let mut parsed = url::Url::parse(url).ok()?;
    parsed.query_pairs_mut().append_pair(key, value);
    Some(String::from(parsed))
}

} // verus!
