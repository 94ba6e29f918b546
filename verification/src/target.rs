//! The URL a request is sent to: the given URL, parsed, with the query
//! parameters of the request appended.
//!
//! URLs are handled as text. Parsing and the encoding of query parameters
//! are the work of the `url` crate; what it gives has a name here, and
//! the contracts say how those results are put together.

use vstd::prelude::*;
use vstd::string::*;
use vstd::utf8::*;
use crate::error::RequestError;
use crate::string_map::{text_pairs, StringMap};

verus! {

/// The longest URL, parameter name or parameter value, in bytes, that a
/// parameter is appended to or with. `url` keeps positions within a URL
/// in 32 bits; this bound keeps every URL that is built here far below
/// that.
pub const PART_LIMIT: usize = 0x100_0000;

/// What `Url::parse` makes of `text`: the serialisation of the URL it
/// parsed, or nothing where the text is no absolute URL.
pub uninterp spec fn url_parse(text: Seq<char>) -> Option<Seq<char>>;

/// The URL `url` after `Url::query_pairs_mut` and `append_pair` have
/// added the pair `key`, `value` to its query: what was in the query
/// stays, and the pair follows it, encoded as the query syntax asks.
/// Nothing where `url` does not parse.
pub uninterp spec fn url_with_pair(url: Seq<char>, key: Seq<char>, value: Seq<char>) -> Option<
    Seq<char>,
>;

/// The error of `Url::parse`, carried as it is.
#[verifier::external_type_specification]
#[verifier::external_body]
pub struct ExUrlParseError(url::ParseError);

/// Calls `Url::parse` and gives the URL back as text. The contract
/// claims only that the outcome is a function of the text.
#[verifier::external_body]
fn parse_url(text: &str) -> (parsed: Result<String, url::ParseError>)
    ensures
        parsed is Ok <==> url_parse(text@) is Some,
        parsed matches Ok(url) ==> url_parse(text@) == Some(url@),
{
    url::Url::parse(text).map(String::from)
}

/// Parses `url` with `Url::parse`, appends one pair to its query with
/// `query_pairs_mut().append_pair`, and gives the URL back as text. The
/// contract claims only that the outcome is a function of the three
/// texts. The bound keeps the URL below 4 GiB, beyond which `url` stops.
#[verifier::external_body]
fn append_query_pair(url: &str, key: &str, value: &str) -> (appended: Result<
    String,
    url::ParseError,
>)
    requires
        within_limit(url@),
        within_limit(key@),
        within_limit(value@),
    ensures
        appended is Ok <==> url_with_pair(url@, key@, value@) is Some,
        appended matches Ok(next) ==> url_with_pair(url@, key@, value@) == Some(next@),
{
    let mut parsed = url::Url::parse(url)?;
    parsed.query_pairs_mut().append_pair(key, value);
    Ok(String::from(parsed))
}

/// The text takes no more than `PART_LIMIT` bytes.
pub open spec fn within_limit(text: Seq<char>) -> bool {
    encode_utf8(text).len() <= PART_LIMIT
}

/// The URL after one pair has been appended: nothing where the URL or a
/// part of the pair is over the limit, or where `url` gives nothing.
pub open spec fn with_pair(url: Seq<char>, key: Seq<char>, value: Seq<char>) -> Option<Seq<char>> {
    if within_limit(url) && within_limit(key) && within_limit(value) {
        url_with_pair(url, key, value)
    } else {
        None
    }
}

/// The URL after all of `params` have been appended, first to last.
pub open spec fn with_params(url: Option<Seq<char>>, params: Seq<(Seq<char>, Seq<char>)>) -> Option<
    Seq<char>,
>
    decreases params.len(),
{
    if params.len() == 0 {
        url
    } else {
        match with_params(url, params.drop_last()) {
            Some(so_far) => with_pair(so_far, params.last().0, params.last().1),
            None => None,
        }
    }
}

/// The URL a request goes to: the parsed URL with the parameters
/// appended. Nothing where the text is no absolute URL.
pub open spec fn target_url(text: Seq<char>, params: Seq<(Seq<char>, Seq<char>)>) -> Option<
    Seq<char>,
> {
    with_params(url_parse(text), params)
}

/// A request without parameters goes to the URL it names, as parsed:
/// nothing is added to its query.
pub proof fn lemma_no_params(text: Seq<char>)
    ensures
        target_url(text, Seq::empty()) == url_parse(text),
{
}

/// Appends the parameters to a URL that has been parsed.
pub fn append_params(url: String, params: &StringMap) -> (target: Result<String, RequestError>)
    ensures
        target is Ok <==> with_params(Some(url@), params.entries()) is Some,
        target matches Ok(text) ==> with_params(Some(url@), params.entries()) == Some(text@),
        target matches Err(e) ==> e == RequestError::InvalidUrl,
{
    let pairs = params.pairs();
    let ghost all = params.entries();
    let ghost start = url@;
    let mut current = url;
    let mut i: usize = 0;
    while i < pairs.len()
        invariant
            i <= pairs.len(),
            start == url@,
            all == params.entries(),
            all == text_pairs(pairs@),
            with_params(Some(start), all.take(i as int)) == Some(current@),
        decreases pairs.len() - i,
    {
        let key = pairs[i].0.as_str();
        let value = pairs[i].1.as_str();
        assert(all.take(i + 1).drop_last() =~= all.take(i as int));
        assert(all.take(i + 1).last() == all[i as int]);
        if current.as_str().as_bytes().len() > PART_LIMIT || key.as_bytes().len() > PART_LIMIT
            || value.as_bytes().len() > PART_LIMIT {
            proof {
                lemma_stays_none(Some(start), all, i + 1);
            }
            return Err(RequestError::InvalidUrl);
        }
        match append_query_pair(current.as_str(), key, value) {
            Ok(next) => {
                current = next;
            },
            Err(_) => {
                proof {
                    lemma_stays_none(Some(start), all, i + 1);
                }
                return Err(RequestError::InvalidUrl);
            },
        }
        i += 1;
    }
    assert(all.take(i as int) =~= all);
    Ok(current)
}

/// Once appending has given nothing, appending more gives nothing.
proof fn lemma_stays_none(url: Option<Seq<char>>, params: Seq<(Seq<char>, Seq<char>)>, n: int)
    requires
        0 <= n <= params.len(),
        with_params(url, params.take(n)) is None,
    ensures
        with_params(url, params) is None,
    decreases params.len() - n,
{
    if n < params.len() {
        assert(params.take(n + 1).drop_last() =~= params.take(n));
        lemma_stays_none(url, params, n + 1);
    } else {
        assert(params.take(n) =~= params);
    }
}

/// The URL a request goes to, or `InvalidUrl` where `url` is no absolute
/// URL or the URL grows beyond the limit.
pub fn build_url(url: &str, params: &StringMap) -> (target: Result<String, RequestError>)
    ensures
        target is Ok <==> target_url(url@, params.entries()) is Some,
        target matches Ok(text) ==> target_url(url@, params.entries()) == Some(text@),
        target matches Err(e) ==> e == RequestError::InvalidUrl,
{
    match parse_url(url) {
        Ok(parsed) => append_params(parsed, params),
        Err(_) => {
            proof {
                lemma_stays_none(url_parse(url@), params.entries(), 0);
                assert(params.entries().take(0) =~= Seq::empty());
            }
            Err(RequestError::InvalidUrl)
        },
    }
}

} // verus!
