//! The parsers: reply text to fields, redirect URL to fields.

use crate::error::{Failure, LoginError};
use crate::fields::FieldMap;
use crate::outside::{
    decode_query, form_pairs, pair_views, query_of_url, split_at_separator, url_query, SEPARATOR,
};
use crate::text::{
    chars_of, entries, fields_of, lemma_fields_of_list, lemma_fields_of_push,
    lemma_first_index_is, section_entry, strip_escape, strip_quotes, text_fields, trim,
};
use vstd::prelude::*;
use vstd::string::StrSliceExecFns;
use vstd::string::StringExecFns;

verus! {

/// The key and the value of one section of a reply, if it holds an `=`.
///
/// The section is trimmed, a leading backslash and `n` are dropped, and what
/// is left is cut at the first `=` with the whitespace around it. A pair of
/// double quotes around the value is dropped.
pub fn parse_section(section: &str) -> (entry: Option<(String, String)>)
    ensures
        entry is Some <==> section_entry(section@) is Some,
        entry matches Some(e) ==> (e.0@, e.1@) == section_entry(section@).unwrap(),
{
    let body = strip_escape(trim(section));
    let parts = split_at_separator(SEPARATOR, body);
    if parts.len() < 2 {
        return None;
    }
    let value = strip_quotes(parts[1].as_str());
    Some((parts[0].clone(), value.to_owned()))
}

/// Reads a reply of the form `key = value; key2 = "value2";` into its fields.
///
/// Sections end at each `;`. Reading stops at the first section that holds
/// no `=`; of two sections with one key the later one counts.
pub fn text_to_map(text: &str) -> (fields: FieldMap)
    ensures
        fields@ == text_fields(text@),
        fields@.dom().finite(),
{
    proof {
        lemma_fields_of_list(entries(text@));
    }
    let chars = chars_of(text);
    let n: usize = chars.len();
    let mut fields = FieldMap::new();
    let mut start: usize = 0;
    let ghost mut done: Seq<(Seq<char>, Seq<char>)> = Seq::empty();
    assert(text@.subrange(0, n as int) == text@);
    loop
        invariant_except_break
            chars@ == text@,
            n == chars.len(),
            start <= n,
            fields@ == fields_of(done),
            entries(text@) == done + entries(text@.subrange(start as int, n as int)),
        ensures
            fields@ == text_fields(text@),
        decreases n - start,
    {
        let mut end: usize = start;
        while end < n && chars[end] != ';'
            invariant
                start <= end <= n,
                n == chars.len(),
                forall|j: int| start <= j < end ==> chars@[j] != ';',
            decreases n - end,
        {
            end += 1;
        }
        let section = text.substring_char(start, end);
        let ghost rest = text@.subrange(start as int, n as int);
        proof {
            assert forall|j: int| 0 <= j < end - start implies rest[j] != ';' by {
                assert(rest[j] == chars@[j + start]);
            }
            lemma_first_index_is(rest, ';', end - start);
            assert(rest.subrange(0, end - start) == section@);
            if end < n {
                assert(rest.subrange(end - start + 1, rest.len() as int) == text@.subrange(
                    end + 1,
                    n as int,
                ));
            }
        }
        match parse_section(section) {
            None => {
                assert(entries(rest) == Seq::<(Seq<char>, Seq<char>)>::empty());
                assert(done + entries(rest) == done);
                break ;
            },
            Some((key, value)) => {
                let ghost entry = (key@, value@);
                proof {
                    lemma_fields_of_push(done, entry);
                }
                fields.insert(key, value);
                if end >= n {
                    assert(done + entries(rest) == done.push(entry));
                    break ;
                }
                proof {
                    assert(done + entries(rest) == done.push(entry) + entries(
                        text@.subrange(end + 1, n as int),
                    ));
                    done = done.push(entry);
                }
                start = end + 1;
            },
        }
    }
    fields
}

/// The fields that a redirect URL carries: those of its query, the query
/// decoded as a form. A URL without a query, or with an empty one, carries
/// none. `None` where the text is no URL or the query cannot be decoded.
pub open spec fn redirect_fields(url: Seq<char>) -> Option<Map<Seq<char>, Seq<char>>> {
    match url_query(url) {
        None => None,
        Some(query) => query_fields(query),
    }
}

/// The fields of the query of a URL; of two pairs with one key the later
/// one counts.
pub open spec fn query_fields(query: Option<Seq<char>>) -> Option<Map<Seq<char>, Seq<char>>> {
    match query {
        None => Some(Map::empty()),
        Some(q) => if q.len() == 0 {
            Some(Map::empty())
        } else {
            match form_pairs(q) {
                None => None,
                Some(pairs) => Some(fields_of(pairs)),
            }
        },
    }
}

/// `url` followed by `?` and `query`, or `url` alone where `query` is empty.
pub open spec fn with_query(url: Seq<char>, query: Seq<char>) -> Seq<char> {
    if query.len() == 0 {
        url
    } else {
        url + seq!['?'] + query
    }
}

/// The mapping that a list of pairs gives: a later pair replaces an earlier
/// one of the same key.
pub fn fields_from_pairs(pairs: &Vec<(String, String)>) -> (fields: FieldMap)
    ensures
        fields@ == fields_of(pair_views(pairs@)),
        fields@.dom().finite(),
{
    proof {
        lemma_fields_of_list(pair_views(pairs@));
    }
    let mut fields = FieldMap::new();
    let mut i: usize = 0;
    while i < pairs.len()
        invariant
            i <= pairs.len(),
            fields@ == fields_of(pair_views(pairs@).take(i as int)),
        decreases pairs.len() - i,
    {
        let key = pairs[i].0.clone();
        let value = pairs[i].1.clone();
        proof {
            let views = pair_views(pairs@);
            lemma_fields_of_push(views.take(i as int), views[i as int]);
            assert(views.take(i as int).push(views[i as int]) == views.take(i + 1));
        }
        fields.insert(key, value);
        i += 1;
    }
    assert(pair_views(pairs@).take(i as int) == pair_views(pairs@));
    fields
}

/// The fields of the query of a URL. An absent or empty query gives no
/// field; one that cannot be decoded is an error.
pub fn fields_of_query(query: Option<String>) -> (fields: Result<FieldMap, LoginError>)
    ensures
        match query_fields(
            match query {
                Some(q) => Some(q@),
                None => None,
            },
        ) {
            Some(expected) => fields matches Ok(found) && found@ == expected,
            None => fields matches Err(error) && error@ == Failure::MalformedUrl,
        },
{
    match query {
        None => Ok(FieldMap::new()),
        Some(q) => {
            if q.as_str().is_empty() {
                return Ok(FieldMap::new());
            }
            match decode_query(q.as_str()) {
                Ok(pairs) => Ok(fields_from_pairs(&pairs)),
                Err(_) => Err(LoginError::MalformedUrl),
            }
        },
    }
}

/// Reads the fields that the query of `redirect_url` carries.
///
/// Fails with `MalformedUrl` where `redirect_url` is no URL or its query
/// cannot be decoded. A URL without a query carries no field.
pub fn process_redirect_url(redirect_url: &String) -> (fields: Result<FieldMap, LoginError>)
    ensures
        match redirect_fields(redirect_url@) {
            Some(expected) => fields matches Ok(found) && found@ == expected,
            None => fields matches Err(error) && error@ == Failure::MalformedUrl,
        },
{
    match query_of_url(redirect_url.as_str()) {
        Ok(query) => fields_of_query(query),
        Err(_) => Err(LoginError::MalformedUrl),
    }
}

/// Appends a query to `url`. `query` is what encoding the parameters gave:
/// where that failed, or gave nothing, `url` comes back as it is.
pub fn append_query_to_url(url: &str, query: Result<String, serde_urlencoded::ser::Error>) -> (full:
    String)
    ensures
        full@ == match query {
            Ok(q) => with_query(url@, q@),
            Err(_) => url@,
        },
{
    let query = match query {
        Ok(q) => q,
        Err(_) => String::new(),
    };
    if query.as_str().is_empty() {
        return url.to_owned();
    }
    proof {
        reveal_strlit("?");
        assert("?"@ == seq!['?']);
    }
    let mut full = url.to_owned();
    full.append("?");
    full.append(query.as_str());
    full
}

} // verus!
