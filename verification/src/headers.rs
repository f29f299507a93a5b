//! Response headers: the header map of the HTTP stack as this library sees
//! it, and the CORS decorator that every response goes through.
//!
//! A header map is read as a map from the name of a field, in lower case, to
//! the value that a reader of that field finds: the first one, as text with
//! one character for each byte.

use vstd::prelude::*;
use hyper::HeaderMap;
use hyper::header::{HeaderName, HeaderValue};
use crate::text::chars_of;

verus! {

/// The header map of the HTTP stack. Nothing is known of it but what
/// [`header_fields`] says.
#[verifier::external_type_specification]
#[verifier::external_body]
#[verifier::reject_recursive_types(T)]
pub struct ExHeaderMap<T>(hyper::HeaderMap<T>);

/// The value of a field as the HTTP stack holds it.
#[verifier::external_type_specification]
#[verifier::external_body]
pub struct ExHeaderValue(hyper::header::HeaderValue);

/// Fields by name.
pub type Fields = Map<Seq<char>, Seq<char>>;

/// The fields that a header map holds: for each name in it, in lower case,
/// the first of its values, with one character for each byte.
pub uninterp spec fn header_fields(headers: HeaderMap<HeaderValue>) -> Fields;

/// The most names a header map may hold for one more to be sure of its
/// place. A header map refuses to grow beyond 32768 slots, and asks to grow
/// no sooner than with a fifth of its slots taken.
pub const HEADER_ROOM: usize = 6553;

/// Whether `more` names can be added to `fields`.
pub open spec fn has_room(fields: Fields, more: nat) -> bool {
    &&& fields.dom().finite()
    &&& fields.dom().len() + more <= HEADER_ROOM + 1
}

/// Whether `c` may stand in the name of a field written by this library:
/// a lower-case letter, a digit or a hyphen.
pub open spec fn is_name_char(c: char) -> bool {
    ('a' <= c && c <= 'z') || ('0' <= c && c <= '9') || c == '-'
}

/// Whether `s` can be the name of a field.
pub open spec fn is_field_name(s: Seq<char>) -> bool {
    &&& 0 < s.len() <= 0xffff
    &&& forall|i: int| 0 <= i < s.len() ==> is_name_char(#[trigger] s[i])
}

/// Whether `c` is a visible ASCII character or a space.
pub open spec fn is_value_char(c: char) -> bool {
    ' ' <= c && c <= '~'
}

/// Whether `s` can be the value of a field: visible ASCII and spaces only.
pub open spec fn is_field_value(s: Seq<char>) -> bool {
    forall|i: int| 0 <= i < s.len() ==> is_value_char(#[trigger] s[i])
}

/// `HeaderMap::new`: a header map without fields.
#[verifier::external_body]
pub(crate) fn new_headers() -> (headers: HeaderMap)
    ensures
        header_fields(headers) == Fields::empty(),
{
    HeaderMap::new()
}

/// `HeaderMap::insert`, with the name made by `HeaderName::from_static` and
/// the value by `HeaderValue::from_str`: afterwards the field `name` has the
/// value `value` and no other, and every other field is as it was. The three
/// calls panic on a name with a character outside the lower-case token
/// characters, on a value with a control character, and on a map that can
/// not grow; the conditions keep clear of all three.
#[verifier::external_body]
pub(crate) fn insert_header(headers: &mut HeaderMap, name: &'static str, value: &str)
    requires
        is_field_name(name@),
        is_field_value(value@),
        has_room(header_fields(*old(headers)), 1),
    ensures
        header_fields(*final(headers)) == header_fields(*old(headers)).insert(name@, value@),
{
    headers.insert(HeaderName::from_static(name), HeaderValue::from_str(value).unwrap());
}

/// Tests whether `text` can be the value of a field.
pub fn is_header_text(text: &str) -> (ok: bool)
    ensures
        ok == is_field_value(text@),
{
    let chars = chars_of(text);
    let mut i: usize = 0;
    while i < chars.len()
        invariant
            i <= chars.len(),
            chars@ == text@,
            forall|j: int| 0 <= j < i ==> is_value_char(#[trigger] chars@[j]),
        decreases chars.len() - i,
    {
        let c = chars[i];
        if !(c >= ' ' && c <= '~') {
            return false;
        }
        i += 1;
    }
    true
}

/// The fields that let a page of any origin read a response.
pub open spec fn with_cors(fields: Fields) -> Fields {
    fields.insert("access-control-allow-origin"@, "*"@).insert(
        "access-control-allow-methods"@,
        "GET, HEAD, OPTIONS"@,
    ).insert("access-control-allow-headers"@, "*"@).insert("vary"@, "Origin"@)
}

/// Whether `name` is the name of one of the four CORS fields.
pub open spec fn is_cors_name(name: Seq<char>) -> bool {
    ||| name == "access-control-allow-origin"@
    ||| name == "access-control-allow-methods"@
    ||| name == "access-control-allow-headers"@
    ||| name == "vary"@
}

/// Whether `fields` holds the four CORS fields with their values.
pub open spec fn has_cors(fields: Fields) -> bool {
    &&& fields.contains_pair("access-control-allow-origin"@, "*"@)
    &&& fields.contains_pair("access-control-allow-methods"@, "GET, HEAD, OPTIONS"@)
    &&& fields.contains_pair("access-control-allow-headers"@, "*"@)
    &&& fields.contains_pair("vary"@, "Origin"@)
}

/// The CORS decorator: sets the four fields that every response carries,
/// whatever else it holds.
pub fn add_cors_headers(headers: &mut HeaderMap)
    requires
        has_room(header_fields(*old(headers)), 4),
    ensures
        header_fields(*final(headers)) == with_cors(header_fields(*old(headers))),
        has_cors(header_fields(*final(headers))),
        header_fields(*final(headers)).dom().finite(),
        header_fields(*final(headers)).dom().len() <= header_fields(*old(headers)).dom().len() + 4,
{
    proof {
        reveal_strlit("access-control-allow-origin");
        reveal_strlit("access-control-allow-methods");
        reveal_strlit("access-control-allow-headers");
        reveal_strlit("vary");
        reveal_strlit("*");
        reveal_strlit("GET, HEAD, OPTIONS");
        reveal_strlit("Origin");
    }
    insert_header(headers, "access-control-allow-origin", "*");
    insert_header(headers, "access-control-allow-methods", "GET, HEAD, OPTIONS");
    insert_header(headers, "access-control-allow-headers", "*");
    insert_header(headers, "vary", "Origin");
    proof {
        lemma_cors_names_differ();
    }
}

/// The names of the four CORS fields differ from one another.
pub proof fn lemma_cors_names_differ()
    ensures
        "access-control-allow-origin"@ != "access-control-allow-methods"@,
        "access-control-allow-origin"@ != "access-control-allow-headers"@,
        "access-control-allow-origin"@ != "vary"@,
        "access-control-allow-methods"@ != "access-control-allow-headers"@,
        "access-control-allow-methods"@ != "vary"@,
        "access-control-allow-headers"@ != "vary"@,
{
    reveal_strlit("access-control-allow-origin");
    reveal_strlit("access-control-allow-methods");
    reveal_strlit("access-control-allow-headers");
    reveal_strlit("vary");
    assert("access-control-allow-origin"@.len() == 27);
    assert("access-control-allow-methods"@.len() == 28);
    assert("access-control-allow-headers"@.len() == 28);
    assert("access-control-allow-methods"@[21] != "access-control-allow-headers"@[21]);
}

} // verus!
