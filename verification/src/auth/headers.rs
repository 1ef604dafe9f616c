//! The headers of a request.

use vstd::prelude::*;

verus! {

/// The headers of a request, or other values by header name.
#[verifier::external_type_specification]
#[verifier::external_body]
#[verifier::reject_recursive_types(T)]
pub struct ExHeaderMap<T>(http::HeaderMap<T>);

/// The value of a header.
#[verifier::external_type_specification]
#[verifier::external_body]
pub struct ExHeaderValue(http::HeaderValue);

/// Why a text cannot be the value of a header.
#[verifier::external_type_specification]
#[verifier::external_body]
pub struct ExInvalidHeaderValue(http::header::InvalidHeaderValue);

/// The values that each header has, by its name in lower case.
pub uninterp spec fn header_values(headers: http::HeaderMap<http::HeaderValue>) -> Map<
    Seq<char>,
    Seq<Seq<u8>>,
>;

/// The bytes of the value of a header.
pub uninterp spec fn value_bytes(value: http::HeaderValue) -> Seq<u8>;

/// The most headers that one more can be added to without reaching a limit of
/// `HeaderMap`: with more it may need a table of more than its 32768 places.
pub const MAX_HEADERS: usize = 6553;

/// The text may be the value of a header: it has no control characters but
/// tabs.
pub open spec fn is_header_text(s: Seq<char>) -> bool {
    forall|i: int|
        0 <= i < s.len() ==> (s[i] as u32 >= 32 && s[i] as u32 != 127) || #[trigger] s[i] == '\t'
}

/// The text may be the name of a header, in lower case.
pub open spec fn is_header_name(s: Seq<char>) -> bool {
    &&& 0 < s.len() <= 64
    &&& forall|i: int| 0 <= i < s.len() ==> 'a' <= s[i] <= 'z' || #[trigger] s[i] == '-'
}

/// No headers.
pub open spec fn no_values() -> Map<Seq<char>, Seq<Seq<u8>>> {
    Map::empty()
}

/// There are `n` different headers.
pub open spec fn has_count(values: Map<Seq<char>, Seq<Seq<u8>>>, n: nat) -> bool {
    values.dom().finite() && values.dom().len() == n
}

/// `n` more headers can be added.
pub open spec fn has_room(values: Map<Seq<char>, Seq<Seq<u8>>>, n: nat) -> bool {
    values.dom().finite() && values.dom().len() + n <= MAX_HEADERS + 1
}

/// The headers, with one that has a single value.
pub open spec fn with_header(
    values: Map<Seq<char>, Seq<Seq<u8>>>,
    name: Seq<char>,
    value: Seq<char>,
) -> Map<Seq<char>, Seq<Seq<u8>>> {
    values.insert(name, seq![vstd::utf8::encode_utf8(value)])
}

/// `http::HeaderValue::from_str`: the value with the bytes of the text, unless
/// one of its bytes is a control character other than a tab.
#[verifier::external_body]
pub(crate) fn header_value(s: &str) -> (r: Result<
    http::HeaderValue,
    http::header::InvalidHeaderValue,
>)
    ensures
        match r {
            Ok(value) => is_header_text(s@) && value_bytes(value) == vstd::utf8::encode_utf8(s@),
            Err(_) => !is_header_text(s@),
        },
{
    http::HeaderValue::from_str(s)
}

/// `http::HeaderMap::new`: no headers.
#[verifier::external_body]
pub(crate) fn no_headers() -> (r: http::HeaderMap<http::HeaderValue>)
    ensures
        header_values(r) == no_values(),
{
    http::HeaderMap::new()
}

/// `http::HeaderMap::keys_len`: the number of different names.
#[verifier::external_body]
pub(crate) fn count_headers(headers: &http::HeaderMap<http::HeaderValue>) -> (r: usize)
    ensures
        has_count(header_values(*headers), r as nat),
{
    headers.keys_len()
}

/// `http::HeaderMap::insert`: the header has the value and no other.
#[verifier::external_body]
pub(crate) fn insert_header(
    headers: &mut http::HeaderMap<http::HeaderValue>,
    name: &'static str,
    value: http::HeaderValue,
)
    requires
        is_header_name(name@),
        has_room(header_values(*old(headers)), 1),
    ensures
        header_values(*final(headers)) == header_values(*old(headers)).insert(
            name@,
            seq![value_bytes(value)],
        ),
{
    headers.insert(name, value);
}

} // verus!
