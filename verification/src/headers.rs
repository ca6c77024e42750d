//! Header maps of `http`: what they hold, and the operations on them.

use axum::http::HeaderMap;
use axum::http::HeaderName;
use axum::http::HeaderValue;
use vstd::prelude::*;

use crate::text;

verus! {

/// A header map. What it holds is `header_contents`.
#[verifier::external_type_specification]
#[verifier::external_body]
#[verifier::reject_recursive_types(T)]
pub struct ExHeaderMap<T>(axum::http::HeaderMap<T>);

/// The name of a header. Its characters are `name_text`.
#[verifier::external_type_specification]
#[verifier::external_body]
pub struct ExHeaderName(axum::http::HeaderName);

/// The value of a header. Its bytes are `value_bytes`.
#[verifier::external_type_specification]
#[verifier::external_body]
pub struct ExHeaderValue(axum::http::HeaderValue);

/// The values that a header map holds under each name, in their order.
pub uninterp spec fn header_contents(headers: HeaderMap<HeaderValue>) -> Map<
    Seq<char>,
    Seq<Seq<u8>>,
>;

/// The characters of a header name.
pub uninterp spec fn name_text(name: HeaderName) -> Seq<char>;

/// The bytes of a header value.
pub uninterp spec fn value_bytes(value: HeaderValue) -> Seq<u8>;

/// The number of names up to which a header map always takes one more. It keeps its names in a table
/// of at most 32768 slots, which it doubles when it is three quarters full, or a fifth full with
/// many collisions.
pub const ALWAYS_ROOM: usize = 6553;

/// A character that a header name may hold.
pub open spec fn is_name_char(c: char) -> bool {
    ||| 'a' <= c <= 'z'
    ||| '0' <= c <= '9'
    ||| c == '!' || c == '#' || c == '$' || c == '%' || c == '&' || c == '\''
    ||| c == '*' || c == '+' || c == '-' || c == '.' || c == '^' || c == '_' || c == '`'
    ||| c == '|' || c == '~'
}

/// The spelling of a header name.
pub open spec fn is_name(s: Seq<char>) -> bool {
    0 < s.len() <= 65535 && forall|i: int| 0 <= i < s.len() ==> is_name_char(#[trigger] s[i])
}

/// A byte that a header value may hold.
pub open spec fn is_value_byte(b: u8) -> bool {
    b == 9 || (b >= 32 && b != 127)
}

/// Bytes that are a header value.
pub open spec fn is_value(bytes: Seq<u8>) -> bool {
    forall|i: int| 0 <= i < bytes.len() ==> is_value_byte(#[trigger] bytes[i])
}

/// A byte of a header value that can be read as text.
pub open spec fn is_text_byte(b: u8) -> bool {
    b == 9 || 32 <= b < 127
}

/// A header value that can be read as text.
pub open spec fn is_readable(bytes: Seq<u8>) -> bool {
    forall|i: int| 0 <= i < bytes.len() ==> is_text_byte(#[trigger] bytes[i])
}

/// The text of a readable header value.
pub open spec fn as_text(bytes: Seq<u8>) -> Seq<char> {
    bytes.map_values(|b: u8| b as char)
}

/// The bytes of a text.
pub open spec fn as_bytes(s: Seq<char>) -> Seq<u8> {
    vstd::utf8::encode_utf8(s)
}

/// What a failed conversion into a header value says.
pub const BAD_VALUE: &'static str = "failed to parse header value";

/// What a failed reading of a header value as text says.
pub const NOT_TEXT: &'static str = "failed to convert header to a str";

/// What an addition to a full header map says.
pub const MAP_FULL: &'static str = "max size reached";

/// `HeaderMap::new` holds nothing.
#[verifier::external_body]
pub(crate) fn no_headers() -> (headers: HeaderMap<HeaderValue>)
    ensures
        header_contents(headers) =~= map![],
{
    HeaderMap::new()
}

/// `HeaderMap::get` gives the first value under a name, whatever the case of the name's letters. What
/// it gives where the characters are not those of a name is left open.
#[verifier::external_body]
pub(crate) fn get<'a>(headers: &'a HeaderMap<HeaderValue>, name: &str) -> (r: Option<
    &'a HeaderValue,
>)
    ensures
        is_name(text::lowered(name@)) ==> match r {
            Some(value) => first_value(header_contents(*headers), name@) == Some(
                value_bytes(*value),
            ),
            None => first_value(header_contents(*headers), name@) is None,
        },
{
    headers.get(name)
}

/// The first of the values under a name.
pub open spec fn first_value(
    contents: Map<Seq<char>, Seq<Seq<u8>>>,
    name: Seq<char>,
) -> Option<Seq<u8>> {
    let key = text::lowered(name);
    if contents.contains_key(key) && contents[key].len() > 0 {
        Some(contents[key][0])
    } else {
        None
    }
}

/// `HeaderMap::try_insert` puts a value in place of all that were under its name. It fails only on a
/// map without room for one more name.
#[verifier::external_body]
pub(crate) fn insert(headers: &mut HeaderMap<HeaderValue>, name: HeaderName, value: HeaderValue) -> (r:
    Result<(), String>)
    ensures
        header_contents(*old(headers)).dom().len() <= ALWAYS_ROOM ==> r is Ok,
        match r {
            Ok(_) => header_contents(*final(headers)) == header_contents(*old(headers)).insert(
                name_text(name),
                seq![value_bytes(value)],
            ),
            Err(message) => message@ == MAP_FULL@,
        },
{
    match headers.try_insert(name, value) {
        Ok(_) => Ok(()),
        Err(err) => Err(err.to_string()),
    }
}

/// The values under a name, with one more at their end.
pub open spec fn appended(
    contents: Map<Seq<char>, Seq<Seq<u8>>>,
    name: Seq<char>,
    value: Seq<u8>,
) -> Map<Seq<char>, Seq<Seq<u8>>> {
    contents.insert(
        name,
        if contents.contains_key(name) {
            contents[name].push(value)
        } else {
            seq![value]
        },
    )
}

/// `HeaderMap::try_append` adds a value at the end of those under its name. It fails only on a map
/// without room for one more name.
#[verifier::external_body]
pub(crate) fn append(headers: &mut HeaderMap<HeaderValue>, name: HeaderName, value: HeaderValue) -> (r:
    Result<(), String>)
    ensures
        header_contents(*old(headers)).dom().len() <= ALWAYS_ROOM ==> r is Ok,
        match r {
            Ok(_) => header_contents(*final(headers)) == appended(
                header_contents(*old(headers)),
                name_text(name),
                value_bytes(value),
            ),
            Err(message) => message@ == MAP_FULL@,
        },
{
    match headers.try_append(name, value) {
        Ok(_) => Ok(()),
        Err(err) => Err(err.to_string()),
    }
}

/// The values of the entries with a given name, in their order.
pub open spec fn values_of(entries: Seq<(HeaderName, HeaderValue)>, name: Seq<char>) -> Seq<
    Seq<u8>,
>
    decreases entries.len(),
{
    if entries.len() == 0 {
        Seq::empty()
    } else if name_text(entries.last().0) == name {
        values_of(entries.drop_last(), name).push(value_bytes(entries.last().1))
    } else {
        values_of(entries.drop_last(), name)
    }
}

/// `entries` are the entries of a map with the given contents.
pub open spec fn lists_contents(
    entries: Seq<(HeaderName, HeaderValue)>,
    contents: Map<Seq<char>, Seq<Seq<u8>>>,
) -> bool {
    &&& contents.dom().finite()
    &&& forall|name: Seq<char>|
        #![trigger values_of(entries, name)]
        #![trigger contents.contains_key(name)]
        if contents.contains_key(name) {
            contents[name] == values_of(entries, name) && contents[name].len() > 0
        } else {
            values_of(entries, name).len() == 0
        }
}

/// `HeaderMap::iter` visits each name once for each of its values, those of one name in their order.
#[verifier::external_body]
pub(crate) fn entries(headers: &HeaderMap<HeaderValue>) -> (r: Vec<(HeaderName, HeaderValue)>)
    ensures
        lists_contents(r@, header_contents(*headers)),
{
    headers.iter().map(|(name, value)| (name.clone(), value.clone())).collect()
}

/// `HeaderName::as_str` gives the characters of a name.
#[verifier::external_body]
pub(crate) fn name_str(name: &HeaderName) -> (s: &str)
    ensures
        s@ == name_text(*name),
{
    name.as_str()
}

/// `HeaderName::from_static` takes the spelling of a name.
#[verifier::external_body]
pub(crate) fn static_name(s: &'static str) -> (name: HeaderName)
    requires
        is_name(s@),
    ensures
        name_text(name) == s@,
{
    HeaderName::from_static(s)
}

/// `HeaderValue::from_static` takes readable text.
#[verifier::external_body]
pub(crate) fn static_value(s: &'static str) -> (value: HeaderValue)
    requires
        is_readable(as_bytes(s@)),
    ensures
        value_bytes(value) == as_bytes(s@),
{
    HeaderValue::from_static(s)
}

/// `HeaderValue::from_str` takes the bytes of a text, unless one of them is a control byte other than
/// the tabulator.
#[verifier::external_body]
pub(crate) fn value_from_str(s: &str) -> (r: Result<HeaderValue, String>)
    ensures
        match r {
            Ok(value) => is_value(as_bytes(s@)) && value_bytes(value) == as_bytes(s@),
            Err(message) => !is_value(as_bytes(s@)) && message@ == BAD_VALUE@,
        },
{
    match HeaderValue::from_str(s) {
        Ok(value) => Ok(value),
        Err(err) => Err(err.to_string()),
    }
}

/// `HeaderValue::to_str` gives the text of a value whose bytes are visible ASCII characters and
/// tabulators.
#[verifier::external_body]
pub(crate) fn value_str(value: &HeaderValue) -> (r: Result<&str, String>)
    ensures
        match r {
            Ok(s) => is_readable(value_bytes(*value)) && s@ == as_text(value_bytes(*value)),
            Err(message) => !is_readable(value_bytes(*value)) && message@ == NOT_TEXT@,
        },
{
    match value.to_str() {
        Ok(s) => Ok(s),
        Err(err) => Err(err.to_string()),
    }
}

/// `HeaderValue::is_empty` tells whether a value has no bytes.
#[verifier::external_body]
pub(crate) fn is_empty_value(value: &HeaderValue) -> (r: bool)
    ensures
        r == (value_bytes(*value).len() == 0),
{
    value.is_empty()
}

/// A text of visible ASCII characters and blanks.
pub open spec fn is_plain(s: Seq<char>) -> bool {
    forall|i: int| 0 <= i < s.len() ==> ' ' <= #[trigger] s[i] <= '~'
}

/// Plain text is a header value that can be read as text, and reads as it was.
pub proof fn lemma_plain(s: Seq<char>)
    requires
        is_plain(s),
    ensures
        is_value(as_bytes(s)),
        is_readable(as_bytes(s)),
        as_text(as_bytes(s)) == s,
{
    assert(vstd::utf8::is_ascii_chars(s));
    vstd::utf8::is_ascii_chars_encode_utf8(s);
    let bytes = as_bytes(s);
    assert forall|i: int| 0 <= i < bytes.len() implies is_text_byte(#[trigger] bytes[i])
        && is_value_byte(bytes[i]) && bytes[i] as char == s[i] by {
        assert(s[i] as u8 == bytes[i]);
    }
    assert(as_text(bytes) =~= s);
}

} // verus!
