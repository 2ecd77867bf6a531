//! Reading the `api-version` query parameter out of an endpoint address.

use vstd::prelude::*;
use crate::text::{chars_of, same_chars, string_of};

verus! {

/// The decoded query pairs of a text read as an absolute URL by
/// `url::Url::parse` and listed by `url::Url::query_pairs`; `None` where the
/// text is not a URL.
pub uninterp spec fn url_query_pairs(input: Seq<char>) -> Option<Seq<(Seq<char>, Seq<char>)>>;

/// The texts of a list of pairs of strings.
pub open spec fn pair_texts(pairs: Seq<(String, String)>) -> Seq<(Seq<char>, Seq<char>)> {
    pairs.map_values(|p: (String, String)| (p.0@, p.1@))
}

/// The value of the first pair whose key is `key`.
pub open spec fn first_value(pairs: Seq<(Seq<char>, Seq<char>)>, key: Seq<char>) -> Option<Seq<char>>
    decreases pairs.len(),
{
    if pairs.len() == 0 {
        None
    } else if pairs[0].0 == key {
        Some(pairs[0].1)
    } else {
        first_value(pairs.drop_first(), key)
    }
}

/// The `api-version` an endpoint address carries in its query, if any.
pub open spec fn api_version_of(url: Seq<char>) -> Option<Seq<char>> {
    match url_query_pairs(url) {
        Some(pairs) => first_value(pairs, "api-version"@),
        None => None,
    }
}

/// `url::Url::parse` followed by `url::Url::query_pairs`: the decoded
/// key/value pairs of the query of an absolute URL, in order, or `None` where
/// the text does not parse. The result is named `url_query_pairs` of the text.
#[verifier::external_body]
fn query_pairs(input: &str) -> (r: Option<Vec<(String, String)>>)
    ensures
        match r {
            Some(v) => url_query_pairs(input@) == Some(pair_texts(v@)),
            None => url_query_pairs(input@) is None,
        },
{
    match url::Url::parse(input) {
        Ok(u) => Some(u.query_pairs().map(|(k, v)| (k.into_owned(), v.into_owned())).collect()),
        Err(_) => None,
    }
}

/// The value of the first `api-version` pair of a list of query pairs.
pub fn api_version_in_pairs(pairs: &Vec<(String, String)>) -> (r: Option<String>)
    ensures
        match r {
            Some(v) => first_value(pair_texts(pairs@), "api-version"@) == Some(v@),
            None => first_value(pair_texts(pairs@), "api-version"@) is None,
        },
{
    let key = chars_of("api-version");
    let ghost all = pair_texts(pairs@);
    let mut i: usize = 0;
    assert(all.skip(0) =~= all);
    while i < pairs.len()
        invariant
            i <= pairs.len(),
            key@ == "api-version"@,
            all == pair_texts(pairs@),
            first_value(all, key@) == first_value(all.skip(i as int), key@),
        decreases pairs.len() - i,
    {
        let name = chars_of(pairs[i].0.as_str());
        assert(all.skip(i as int).len() > 0);
        assert(all.skip(i as int)[0] == (pairs@[i as int].0@, pairs@[i as int].1@));
        if same_chars(&name, &key) {
            let v = chars_of(pairs[i].1.as_str());
            return Some(string_of(&v));
        }
        assert(all.skip(i as int).drop_first() =~= all.skip(i + 1));
        i = i + 1;
    }
    None
}

/// The `api-version` query parameter of an endpoint address, if the address
/// parses as a URL and carries one (the first, where there are several).
pub fn extract_api_version_from_url(url: &str) -> (r: Option<String>)
    ensures
        match r {
            Some(v) => api_version_of(url@) == Some(v@),
            None => api_version_of(url@) is None,
        },
{
    match query_pairs(url) {
        Some(pairs) => api_version_in_pairs(&pairs),
        None => None,
    }
}

} // verus!
