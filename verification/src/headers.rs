//! Request headers in wire format.
//!
//! A header name is a token and goes on the wire in lower case. A header
//! value is made of visible ASCII characters, spaces and tabs.

use std::str::FromStr;
use vstd::prelude::*;
use vstd::string::*;
use crate::error::RequestError;
use crate::string_map::{put, text_pairs, StringMap};

verus! {

/// The longest header name, in characters.
pub const MAX_HEADER_NAME_LEN: usize = 65535;

/// A character that may stand in a header name: a letter, a digit or one
/// of ``! # $ % & ' * + - . ^ _ ` | ~``.
pub open spec fn is_token_char(c: char) -> bool {
    ('a' <= c <= 'z') || ('A' <= c <= 'Z') || ('0' <= c <= '9') || c == '!' || c == '#' || c
        == '$' || c == '%' || c == '&' || c == '\'' || c == '*' || c == '+' || c == '-' || c == '.'
        || c == '^' || c == '_' || c == '`' || c == '|' || c == '~'
}

/// An upper case ASCII letter as its lower case letter, any other
/// character as itself.
pub open spec fn lower_char(c: char) -> char {
    if 'A' <= c <= 'Z' {
        ((c as u8) + 32) as char
    } else {
        c
    }
}

/// A name that may stand as a header name: not empty, not too long, made
/// of token characters only.
pub open spec fn valid_header_name(name: Seq<char>) -> bool {
    &&& 1 <= name.len() <= MAX_HEADER_NAME_LEN
    &&& forall|i: int| 0 <= i < name.len() ==> is_token_char(#[trigger] name[i])
}

/// A header name as it goes on the wire: in lower case.
pub open spec fn wire_name(name: Seq<char>) -> Seq<char> {
    Seq::new(name.len(), |i: int| lower_char(name[i]))
}

/// A character that `http` lets stand in a header value built from text:
/// anything but a control character, where a tab is no control character.
pub open spec fn is_value_char(c: char) -> bool {
    (c >= ' ' && c != '\u{7f}') || c == '\t'
}

/// A text that `http` takes as a header value.
pub open spec fn accepted_header_value(value: Seq<char>) -> bool {
    forall|i: int| 0 <= i < value.len() ==> is_value_char(#[trigger] value[i])
}

/// A character that may stand in a header value: a visible ASCII
/// character, a space or a tab.
pub open spec fn is_text_char(c: char) -> bool {
    (' ' <= c <= '~') || c == '\t'
}

/// A text that may stand as a header value: every character is a visible
/// ASCII character, a space or a tab.
pub open spec fn valid_header_value(value: Seq<char>) -> bool {
    forall|i: int| 0 <= i < value.len() ==> is_text_char(#[trigger] value[i])
}

/// Every header of `entries` has a valid name and a valid value.
pub open spec fn valid_headers(entries: Seq<(Seq<char>, Seq<char>)>) -> bool {
    forall|i: int|
        0 <= i < entries.len() ==> valid_header_name((#[trigger] entries[i]).0)
            && valid_header_value(entries[i].1)
}

/// The headers as they go on the wire: names in lower case, and of
/// several headers whose names differ in case only, the last value.
pub open spec fn wire_headers(entries: Seq<(Seq<char>, Seq<char>)>) -> Seq<(Seq<char>, Seq<char>)>
    decreases entries.len(),
{
    if entries.len() == 0 {
        Seq::empty()
    } else {
        put(wire_headers(entries.drop_last()), wire_name(entries.last().0), entries.last().1)
    }
}

/// The error of `HeaderName::from_str`, carried as it is.
#[verifier::external_type_specification]
#[verifier::external_body]
pub struct ExInvalidHeaderName(http::header::InvalidHeaderName);

/// The error of `HeaderValue::from_str`, carried as it is.
#[verifier::external_type_specification]
#[verifier::external_body]
pub struct ExInvalidHeaderValue(http::header::InvalidHeaderValue);

/// Calls `HeaderName::from_str` of `http` and gives the name back as text
/// (`HeaderName::as_str`). `http` takes a name of 1 to 65535 bytes in
/// which every byte is a token character, and turns upper case letters
/// into lower case.
#[verifier::external_body]
fn parse_header_name(name: &str) -> (parsed: Result<String, http::header::InvalidHeaderName>)
    ensures
        parsed is Ok <==> valid_header_name(name@),
        parsed matches Ok(wire) ==> wire@ == wire_name(name@),
{
    http::header::HeaderName::from_str(name).map(|parsed| parsed.as_str().to_string())
}

/// Calls `HeaderValue::from_str` of `http`, which takes a text where no
/// byte is below 32, but for the tab, and none is 127. Every byte of a
/// character beyond ASCII is 128 or more, so such characters pass.
#[verifier::external_body]
fn parse_header_value(value: &str) -> (parsed: Result<(), http::header::InvalidHeaderValue>)
    ensures
        parsed is Ok <==> accepted_header_value(value@),
{
    http::header::HeaderValue::from_str(value).map(|_| ())
}

/// The name of a header as it goes on the wire, or `InvalidHeader`
/// where the name may not stand as a header name.
pub fn header_name(name: &str) -> (wire: Result<String, RequestError>)
    ensures
        wire is Ok <==> valid_header_name(name@),
        wire matches Ok(text) ==> text@ == wire_name(name@),
        wire matches Err(e) ==> e == RequestError::InvalidHeader,
{
    match parse_header_name(name) {
        Ok(text) => Ok(text),
        Err(_) => Err(RequestError::InvalidHeader),
    }
}

/// Tells whether `value` may stand as a header value: `InvalidHeader`
/// where it may not.
pub fn header_value(value: &str) -> (valid: Result<(), RequestError>)
    ensures
        valid is Ok <==> valid_header_value(value@),
        valid matches Err(e) ==> e == RequestError::InvalidHeader,
{
    if !value.is_ascii() {
        assert(!valid_header_value(value@)) by {
            if valid_header_value(value@) {
                assert forall|i: int| 0 <= i < value@.len() implies '\0' <= #[trigger] value@[i]
                    <= '\u{7f}' by {
                    assert(is_text_char(value@[i]));
                }
            }
        }
        return Err(RequestError::InvalidHeader);
    }
    match parse_header_value(value) {
        Ok(_) => {
            assert(valid_header_value(value@)) by {
                assert forall|i: int| 0 <= i < value@.len() implies is_text_char(
                    #[trigger] value@[i],
                ) by {
                    assert(is_value_char(value@[i]));
                    assert('\0' <= value@[i] <= '\u{7f}');
                }
            }
            Ok(())
        },
        Err(_) => {
            assert(!valid_header_value(value@)) by {
                if valid_header_value(value@) {
                    assert forall|i: int| 0 <= i < value@.len() implies is_value_char(
                        #[trigger] value@[i],
                    ) by {
                        assert(is_text_char(value@[i]));
                    }
                }
            }
            Err(RequestError::InvalidHeader)
        },
    }
}

/// The headers of a request in wire format, or `InvalidHeader` where a
/// name or a value may not stand in a header.
pub fn build_headers(headers: &StringMap) -> (wire: Result<StringMap, RequestError>)
    ensures
        wire is Ok <==> valid_headers(headers.entries()),
        wire matches Ok(map) ==> map.entries() == wire_headers(headers.entries()),
        wire matches Err(e) ==> e == RequestError::InvalidHeader,
{
    let pairs = headers.pairs();
    let ghost all = headers.entries();
    let mut map = StringMap::new();
    let mut i: usize = 0;
    while i < pairs.len()
        invariant
            i <= pairs.len(),
            all == headers.entries(),
            all == text_pairs(pairs@),
            valid_headers(all.take(i as int)),
            map.entries() == wire_headers(all.take(i as int)),
        decreases pairs.len() - i,
    {
        let name = match header_name(pairs[i].0.as_str()) {
            Ok(name) => name,
            Err(e) => {
                assert(!valid_header_name(all[i as int].0));
                return Err(e);
            },
        };
        match header_value(pairs[i].1.as_str()) {
            Ok(_) => {},
            Err(e) => {
                assert(!valid_header_value(all[i as int].1));
                return Err(e);
            },
        }
        map.insert(name, pairs[i].1.clone());
        assert(all.take(i + 1).drop_last() =~= all.take(i as int));
        assert(all.take(i + 1).last() == all[i as int]);
        assert(valid_headers(all.take(i + 1))) by {
            assert forall|k: int| 0 <= k < i + 1 implies valid_header_name(
                (#[trigger] all.take(i + 1)[k]).0,
            ) && valid_header_value(all.take(i + 1)[k].1) by {
                if k < i {
                    assert(all.take(i as int)[k] == all.take(i + 1)[k]);
                }
            }
        }
        i += 1;
    }
    assert(all.take(i as int) =~= all);
    Ok(map)
}

} // verus!
