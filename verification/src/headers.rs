//! The header fields of a request.
use vstd::prelude::*;
use axum::http::{HeaderMap, HeaderValue};

verus! {

/// `http::HeaderMap`, the header fields of a request.
#[verifier::external_type_specification]
#[verifier::external_body]
#[verifier::reject_recursive_types(T)]
pub struct ExHeaderMap<T>(axum::http::HeaderMap<T>);

/// `http::HeaderValue`, the value of one header field.
#[verifier::external_type_specification]
#[verifier::external_body]
pub struct ExHeaderValue(axum::http::HeaderValue);

/// The header fields whose first value is visible ASCII text, by the names
/// under which they are found.
pub uninterp spec fn header_texts(headers: HeaderMap<HeaderValue>) -> Map<Seq<char>, Seq<char>>;

/// The text under a name, where there is one.
pub open spec fn text_under(headers: HeaderMap<HeaderValue>, name: Seq<char>) -> Option<Seq<char>> {
    if header_texts(headers).contains_key(name) {
        Some(header_texts(headers)[name])
    } else {
        None
    }
}

/// A character of visible ASCII, or a tab.
pub open spec fn is_visible(c: char) -> bool {
    ' ' <= c <= '~' || c == '\t'
}

/// `http::HeaderMap::get` and `HeaderValue::to_str`: the first value under the
/// name, where there is one and it is visible ASCII text.
#[verifier::external_body]
pub(crate) fn header_text(headers: &HeaderMap<HeaderValue>, name: &str) -> (text: Option<String>)
    ensures
        match text {
            Some(t) => header_texts(*headers).contains_key(name@) && t@ == header_texts(
                *headers,
            )[name@],
            None => !header_texts(*headers).contains_key(name@),
        },
        match text {
            Some(t) => forall|i: int| 0 <= i < t@.len() ==> is_visible(#[trigger] t@[i]),
            None => true,
        },
{
    match headers.get(name) {
        Some(value) => match value.to_str() {
            Ok(text) => Some(text.to_string()),
            Err(_) => None,
        },
        None => None,
    }
}

} // verus!
