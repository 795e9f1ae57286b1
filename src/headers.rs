//! Header maps of the HTTP client, and what this library relies on about them.
use reqwest::header::{HeaderMap, HeaderName, HeaderValue, InvalidHeaderName, InvalidHeaderValue};
use vstd::multiset::Multiset;
use vstd::prelude::*;

verus! {

/// http's `HeaderName`, made by `from_bytes` only to check a name.
#[verifier::external_type_specification]
#[verifier::external_body]
pub struct ExHeaderName(HeaderName);

/// http's `HeaderValue`, made by `from_bytes` only to check a value.
#[verifier::external_type_specification]
#[verifier::external_body]
pub struct ExHeaderValue(HeaderValue);

/// http's error for a rejected header name, carried in `PigeonError`.
#[verifier::external_type_specification]
#[verifier::external_body]
pub struct ExInvalidHeaderName(InvalidHeaderName);

/// http's error for a rejected header value, carried in `PigeonError`.
#[verifier::external_type_specification]
#[verifier::external_body]
pub struct ExInvalidHeaderValue(InvalidHeaderValue);

/// http's `HeaderMap`; what it holds is named by `header_entries`.
#[verifier::external_type_specification]
#[verifier::external_body]
#[verifier::reject_recursive_types(T)]
pub struct ExHeaderMap<T>(HeaderMap<T>);

/// Fewest headers at which appending one more could exhaust a map's capacity.
pub const MAX_HEADERS: usize = 4096;

/// A byte allowed in a header name (an RFC 7230 token character; upper case is folded).
pub open spec fn is_token_byte(b: u8) -> bool {
    ||| 33 <= b <= 39
    ||| b == 42 || b == 43 || b == 45 || b == 46
    ||| 48 <= b <= 57
    ||| 65 <= b <= 90
    ||| 94 <= b <= 122
    ||| b == 124 || b == 126
}

/// Bytes that make a header name: one to 65535 token characters.
pub open spec fn valid_header_name(b: Seq<u8>) -> bool {
    &&& 1 <= b.len() <= 65535
    &&& forall|i: int| 0 <= i < b.len() ==> is_token_byte(#[trigger] b[i])
}

/// Bytes that make a header value: visible characters, spaces and tabs.
pub open spec fn valid_header_value(b: Seq<u8>) -> bool {
    forall|i: int| 0 <= i < b.len() ==> ((#[trigger] b[i] >= 32 && b[i] != 127) || b[i] == 9)
}

/// A header name as the map stores it: ASCII upper-case letters folded to lower case.
pub open spec fn folded_name(b: Seq<u8>) -> Seq<u8> {
    b.map_values(|c: u8| if 65 <= c <= 90 { (c + 32) as u8 } else { c })
}

/// The (name, value) pairs a header map holds, names as stored and values as given.
pub uninterp spec fn header_entries(m: HeaderMap) -> Multiset<(Seq<u8>, Seq<u8>)>;

/// Relies on http's `HeaderName::from_bytes`: it accepts exactly the byte strings of
/// 1 to 65535 bytes that its character table maps to a non-zero byte.
pub assume_specification[ HeaderName::from_bytes ](src: &[u8]) -> (r: Result<
    HeaderName,
    InvalidHeaderName,
>)
    ensures
        r is Ok <==> valid_header_name(src@),
;

/// Relies on http's `HeaderValue::from_bytes`: it fails on the first byte below 32 other
/// than a tab, and on 127.
pub assume_specification[ HeaderValue::from_bytes ](src: &[u8]) -> (r: Result<
    HeaderValue,
    InvalidHeaderValue,
>)
    ensures
        r is Ok <==> valid_header_value(src@),
;

/// Relies on http's `HeaderMap::new`: the map starts empty.
pub assume_specification[ HeaderMap::new ]() -> (r: HeaderMap)
    ensures
        header_entries(r) == Multiset::<(Seq<u8>, Seq<u8>)>::empty(),
;

/// Relies on http's `HeaderMap::append`, with the name and value made by `from_bytes`
/// (which accept these bytes, see above): the map gains the pair, the name folded to
/// lower case by the name table, the value bytes kept as they are. `append` panics only
/// when the map outgrows its maximum size, which takes more than `MAX_HEADERS` entries.
#[verifier::external_body]
pub(crate) fn append_header(map: &mut HeaderMap, name: &[u8], value: &[u8])
    requires
        valid_header_name(name@),
        valid_header_value(value@),
        header_entries(*old(map)).len() < MAX_HEADERS,
    ensures
        header_entries(*final(map)) == header_entries(*old(map)).insert(
            (folded_name(name@), value@),
        ),
{
    map.append(HeaderName::from_bytes(name).unwrap(), HeaderValue::from_bytes(value).unwrap());
}

} // verus!
