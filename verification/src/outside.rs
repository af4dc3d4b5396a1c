//! The calls into other crates. Verus takes the contracts in this file on
//! trust: each states what the crate's own source shows of the call.

use crate::text::{key_part, value_part};
use vstd::prelude::*;

verus! {

/// The pattern of the separator between a key and its value: an `=` and
/// all the whitespace on either side of it.
pub const SEPARATOR: &'static str = r"\s*=\s*";

/// Compiles the separator pattern with `regex::Regex::new` and splits
/// `section` with `regex::Regex::splitn`, limit two.
///
/// `splitn` cuts at the leftmost match and hands out what stands before the
/// match and what stands behind it, or the whole text where nothing matches.
/// The pattern matches from the first position from which whitespace alone
/// leads to an `=`, and both `\s*` take all the whitespace there is (`\s` is
/// the Unicode `White_Space` property). So the match is the first `=` with
/// the whitespace around it.
#[verifier::external_body]
pub(crate) fn split_at_separator(pattern: &str, section: &str) -> (parts: Vec<String>)
    requires
        pattern@ == SEPARATOR@,
    ensures
        parts@.len() == (if section@.contains('=') { 2nat } else { 1nat }),
        section@.contains('=') ==> parts@[0]@ == key_part(section@) && parts@[1]@ == value_part(
            section@,
        ),
        !section@.contains('=') ==> parts@[0]@ == section@,
{
    regex::Regex::new(pattern).unwrap().splitn(section, 2).map(|part| part.to_string()).collect()
}

/// The error of `url::Url::parse`.
#[verifier::external_type_specification]
#[verifier::external_body]
pub struct ExUrlParseError(url::ParseError);

/// The error of `serde_urlencoded::from_str`.
#[verifier::external_type_specification]
#[verifier::external_body]
pub struct ExQueryDecodeError(serde_urlencoded::de::Error);

/// The error of `serde_urlencoded::to_string`.
#[verifier::external_type_specification]
#[verifier::external_body]
pub struct ExQueryEncodeError(serde_urlencoded::ser::Error);

/// What `url::Url::parse` and `url::Url::query` make of `text`: `None`
/// where `text` is no URL, `Some(None)` where it is one without a query,
/// and else the query, the text between `?` and `#` as the parser has
/// encoded it.
pub uninterp spec fn url_query(text: Seq<char>) -> Option<Option<Seq<char>>>;

/// The pairs that `serde_urlencoded::from_str` decodes from `query`, in the
/// order in which they stand; `None` where it fails.
pub uninterp spec fn form_pairs(query: Seq<char>) -> Option<Seq<(Seq<char>, Seq<char>)>>;

/// The characters of each pair of `pairs`.
pub open spec fn pair_views(pairs: Seq<(String, String)>) -> Seq<(Seq<char>, Seq<char>)> {
    pairs.map_values(|pair: (String, String)| (pair.0@, pair.1@))
}

/// Parses `text` with `url::Url::parse` (the type that `reqwest` hands on
/// as its `Url`) and takes the query of the URL with `url::Url::query`. The
/// result depends on `text` alone and is `url_query` of it.
#[verifier::external_body]
pub(crate) fn query_of_url(text: &str) -> (query: Result<Option<String>, url::ParseError>)
    ensures
        query is Ok <==> url_query(text@) is Some,
        query matches Ok(Some(q)) ==> url_query(text@) == Some(Some(q@)),
        query matches Ok(None) ==> url_query(text@) == Some(None::<Seq<char>>),
{
    match url::Url::parse(text) {
        Ok(url) => Ok(url.query().map(|q| q.to_string())),
        Err(error) => Err(error),
    }
}

/// Decodes `query` as `application/x-www-form-urlencoded` with
/// `serde_urlencoded::from_str`, into the list of its pairs, which holds
/// every pair in the order in which the decoder finds it. The result
/// depends on `query` alone and is `form_pairs` of it.
#[verifier::external_body]
pub(crate) fn decode_query(query: &str) -> (pairs: Result<
    Vec<(String, String)>,
    serde_urlencoded::de::Error,
>)
    ensures
        pairs is Ok <==> form_pairs(query@) is Some,
        pairs matches Ok(list) ==> form_pairs(query@) == Some(pair_views(list@)),
{
    serde_urlencoded::from_str::<Vec<(String, String)>>(query)
}

} // verus!
