//! The URL builder and its counterpart in the server: how the path of a
//! file is put into a URL, and how it is taken out of a query again.

use vstd::prelude::*;
use vstd::utf8::{
    decode_utf8, encode_utf8, encode_utf8_decode_utf8, encode_utf8_valid_utf8, is_ascii_chars,
    is_ascii_chars_encode_utf8, valid_utf8,
};
use crate::decimal::{decimal_text, write_u64};
use crate::text::{chars_of, find_char, has_prefix_at, starts_with_at, string_of, text_of};

verus! {

/// Whether the byte is an ASCII letter or digit: the only bytes that a URL
/// built here holds as they are.
pub open spec fn is_alphanumeric(b: u8) -> bool {
    (0x30 <= b <= 0x39) || (0x41 <= b <= 0x5a) || (0x61 <= b <= 0x7a)
}

/// The upper-case hexadecimal digit for `n`.
pub open spec fn hex_digit(n: u8) -> char
    recommends
        n < 16,
{
    if n < 10 {
        (0x30 + n) as char
    } else {
        (0x41 + n - 10) as char
    }
}

/// How one byte stands in a URL: as itself, or as `%` and two hexadecimal digits.
pub open spec fn escaped_byte(b: u8) -> Seq<char> {
    if is_alphanumeric(b) {
        seq![b as char]
    } else {
        seq!['%', hex_digit(b / 16), hex_digit(b % 16)]
    }
}

/// The percent-encoding of `bytes` in which every byte but ASCII letters and
/// digits is escaped.
pub open spec fn percent_encoded(bytes: Seq<u8>) -> Seq<char>
    decreases bytes.len(),
{
    if bytes.len() == 0 {
        Seq::empty()
    } else {
        escaped_byte(bytes[0]) + percent_encoded(bytes.drop_first())
    }
}

/// The value of a hexadecimal digit of either case, `None` for any other byte.
pub open spec fn hex_value(b: u8) -> Option<u8> {
    if 0x30 <= b <= 0x39 {
        Some((b - 0x30) as u8)
    } else if 0x41 <= b <= 0x46 {
        Some((b - 0x41 + 10) as u8)
    } else if 0x61 <= b <= 0x66 {
        Some((b - 0x61 + 10) as u8)
    } else {
        None
    }
}

/// Whether `bytes` begins with `%` and two hexadecimal digits.
pub open spec fn starts_with_escape(bytes: Seq<u8>) -> bool {
    &&& bytes.len() >= 3
    &&& bytes[0] == 0x25
    &&& hex_value(bytes[1]) is Some
    &&& hex_value(bytes[2]) is Some
}

/// The bytes that `bytes` stands for once every `%` that two hexadecimal
/// digits follow is replaced, with them, by the byte they name. Any other
/// `%` stays.
pub open spec fn percent_decoded(bytes: Seq<u8>) -> Seq<u8>
    decreases bytes.len(),
{
    if bytes.len() == 0 {
        Seq::empty()
    } else if starts_with_escape(bytes) {
        seq![(hex_value(bytes[1])->0 * 16 + hex_value(bytes[2])->0) as u8] + percent_decoded(
            bytes.skip(3),
        )
    } else {
        seq![bytes[0]] + percent_decoded(bytes.skip(1))
    }
}

/// The text that the percent-encoded `text` stands for, where the bytes it
/// decodes to are UTF-8.
pub open spec fn decoded_text(text: Seq<char>) -> Option<Seq<char>> {
    let bytes = percent_decoded(encode_utf8(text));
    if valid_utf8(bytes) {
        Some(decode_utf8(bytes))
    } else {
        None
    }
}

/// `percent_encoding::utf8_percent_encode` with the set `NON_ALPHANUMERIC`,
/// written out as a string: each byte of the UTF-8 form of `text` that is an
/// ASCII letter or digit stands as it is, every other byte as `%` and its two
/// upper-case hexadecimal digits.
#[verifier::external_body]
fn percent_encode(text: &str) -> (encoded: String)
    ensures
        encoded@ == percent_encoded(encode_utf8(text@)),
{
    percent_encoding::utf8_percent_encode(text, percent_encoding::NON_ALPHANUMERIC).to_string()
}

/// `percent_encoding::percent_decode_str` followed by `decode_utf8`: every
/// `%` with two hexadecimal digits behind it becomes the byte they name, and
/// the bytes that result are read as UTF-8. `None` where they are not UTF-8.
#[verifier::external_body]
fn percent_decode(text: &str) -> (decoded: Option<String>)
    ensures
        text_of(decoded) == decoded_text(text@),
{
    match percent_encoding::percent_decode_str(text).decode_utf8() {
        Ok(s) => Some(s.into_owned()),
        Err(_) => None,
    }
}

/// The address of the media server as the rest of the application knows it.
/// Made once, when the server was bound or could not be; never changed.
#[derive(Clone, Debug, PartialEq, Eq)]
pub struct ServerHandle {
    /// The loopback port the server listens on; 0 where it could not be bound.
    pub bound_port: u16,
    /// Scheme, loopback address and port, without a slash at the end.
    pub base_url: String,
}

/// The base URL of a server on the loopback port `port`.
pub open spec fn base_url_text(port: u16) -> Seq<char> {
    "http://127.0.0.1:"@ + decimal_text(port as nat)
}

/// The URL under which the server behind `base` serves the file at `path`.
pub open spec fn media_url(base: Seq<char>, path: Seq<char>) -> Seq<char> {
    base + "/audio?path="@ + percent_encoded(encode_utf8(path))
}

impl ServerHandle {
    /// The invariant of a handle: its URL names its port.
    pub open spec fn wf(&self) -> bool {
        self.base_url@ == base_url_text(self.bound_port)
    }

    /// The handle of a server bound to `port`.
    pub fn bound(port: u16) -> (handle: ServerHandle)
        ensures
            handle.wf(),
            handle.bound_port == port,
    {
        let mut base_url = String::new();
        base_url.append("http://127.0.0.1:");
        write_u64(&mut base_url, port as u64);
        ServerHandle { bound_port: port, base_url }
    }

    /// The handle used when no port could be bound: it names port 0, where
    /// nothing listens, so that the URLs built from it lead nowhere.
    pub fn unbound() -> (handle: ServerHandle)
        ensures
            handle.wf(),
            handle.bound_port == 0,
    {
        ServerHandle::bound(0)
    }

    /// The handle for the outcome of binding: the port where there is one.
    pub fn from_bind(port: Option<u16>) -> (handle: ServerHandle)
        ensures
            handle.wf(),
            handle.bound_port == match port {
                Some(p) => p,
                None => 0,
            },
    {
        match port {
            Some(p) => ServerHandle::bound(p),
            None => ServerHandle::unbound(),
        }
    }
}

/// Builds the URL from which the file at `path` can be fetched.
pub fn media_url_for_path(path: &str, state: &ServerHandle) -> (url: String)
    ensures
        url@ == media_url(state.base_url@, path@),
{
    let mut url = state.base_url.clone();
    url.append("/audio?path=");
    let encoded = percent_encode(path);
    url.append(encoded.as_str());
    url
}

/// The name and the equals sign of the query parameter that carries the path.
pub open spec fn path_key() -> Seq<char> {
    seq!['p', 'a', 't', 'h', '=']
}

/// The value, still encoded, of the first parameter named `path` among the
/// parameters of `query`, which `&` separates.
pub open spec fn path_param(query: Seq<char>) -> Option<Seq<char>>
    decreases query.len(),
{
    let end = match query.index_of_first('&') {
        Some(i) => i,
        None => query.len() as int,
    };
    if has_prefix_at(query.take(end), 0, path_key()) {
        Some(query.subrange(path_key().len() as int, end))
    } else if 0 <= end < query.len() {
        path_param(query.skip(end + 1))
    } else {
        None
    }
}

/// The path of the file that a request with `query` asks for.
pub open spec fn requested_path(query: Option<Seq<char>>) -> Option<Seq<char>> {
    match query {
        None => None,
        Some(q) => match path_param(q) {
            None => None,
            Some(raw) => decoded_text(raw),
        },
    }
}

/// Finds the value of the first `path` parameter of `query`, still encoded.
pub fn find_path_param(query: &str) -> (value: Option<String>)
    ensures
        text_of(value) == path_param(query@),
{
    let chars = chars_of(query);
    let key: Vec<char> = vec!['p', 'a', 't', 'h', '='];
    let len = chars.len();
    let mut pos: usize = 0;
    assert(chars@.skip(0) =~= chars@);
    loop
        invariant
            pos <= len == chars.len(),
            chars@ == query@,
            key@ == path_key(),
            path_param(query@) == path_param(chars@.skip(pos as int)),
        decreases len - pos,
    {
        let ghost rest = chars@.skip(pos as int);
        proof {
            rest.index_of_first_ensures('&');
        }
        let found = find_char(&chars, pos, len, '&');
        let end: usize = match found {
            Some(i) => i,
            None => len,
        };
        if end - pos >= 5 && starts_with_at(&chars, pos, &key) {
            assert(rest.take(end - pos).subrange(0, 5) =~= chars@.subrange(pos as int, pos + 5));
            return Some(string_of(&chars, pos + 5, end));
        }
        proof {
            if has_prefix_at(rest.take(end - pos), 0, path_key()) {
                assert(rest.take(end - pos).subrange(0, 5) =~= chars@.subrange(
                    pos as int,
                    pos + 5,
                ));
            }
        }
        if end == len {
            return None;
        }
        assert(rest.skip(end - pos + 1) =~= chars@.skip(end + 1));
        pos = end + 1;
    }
}

/// Finds the path of the file that a request with `query` asks for: the
/// first `path` parameter, percent-decoded.
pub fn find_requested_path(query: Option<&str>) -> (path: Option<String>)
    ensures
        text_of(path) == requested_path(
            match query {
                Some(q) => Some(q@),
                None => None,
            },
        ),
{
    match query {
        None => None,
        Some(q) => match find_path_param(q) {
            None => None,
            Some(raw) => percent_decode(raw.as_str()),
        },
    }
}

/// The bytes of a text of ASCII characters.
pub open spec fn ascii_bytes(s: Seq<char>) -> Seq<u8> {
    Seq::new(s.len(), |i: int| s[i] as u8)
}

/// Whether `c` can stand in an encoded path: an ASCII letter or digit, or `%`.
pub open spec fn is_encoded_char(c: char) -> bool {
    c == '%' || ('0' <= c && c <= '9') || ('a' <= c && c <= 'z') || ('A' <= c && c <= 'Z')
}

/// A hexadecimal digit is a digit or one of the letters `A` to `F`, and
/// names the number it was made for.
pub proof fn lemma_hex_digit(n: u8)
    requires
        n < 16,
    ensures
        ('0' <= hex_digit(n) && hex_digit(n) <= '9') || ('A' <= hex_digit(n) && hex_digit(n)
            <= 'F'),
        hex_value(hex_digit(n) as u8) == Some(n),
{
}

/// An encoded path holds nothing but ASCII letters, digits and `%`.
pub proof fn lemma_encoded_chars(bytes: Seq<u8>)
    ensures
        forall|i: int|
            0 <= i < percent_encoded(bytes).len() ==> is_encoded_char(
                #[trigger] percent_encoded(bytes)[i],
            ),
    decreases bytes.len(),
{
    if bytes.len() > 0 {
        let b = bytes[0];
        let head = escaped_byte(b);
        let rest = percent_encoded(bytes.drop_first());
        lemma_encoded_chars(bytes.drop_first());
        lemma_hex_digit(b / 16);
        lemma_hex_digit(b % 16);
        assert forall|i: int| 0 <= i < percent_encoded(bytes).len() implies is_encoded_char(
            #[trigger] percent_encoded(bytes)[i],
        ) by {
            if i < head.len() {
                assert(percent_encoded(bytes)[i] == head[i]);
            } else {
                assert(percent_encoded(bytes)[i] == rest[i - head.len()]);
            }
        }
    }
}

/// Decoding undoes encoding, byte for byte.
pub proof fn lemma_decode_encoded(bytes: Seq<u8>)
    ensures
        percent_decoded(ascii_bytes(percent_encoded(bytes))) == bytes,
    decreases bytes.len(),
{
    if bytes.len() > 0 {
        let b = bytes[0];
        let rest = bytes.drop_first();
        lemma_decode_encoded(rest);
        let text = ascii_bytes(percent_encoded(bytes));
        if is_alphanumeric(b) {
            assert(text.skip(1) =~= ascii_bytes(percent_encoded(rest)));
        } else {
            assert(text.skip(3) =~= ascii_bytes(percent_encoded(rest)));
        }
    }
}

/// What follows the question mark in a URL built by [`media_url_for_path`]
/// is a query with the one parameter `path`.
pub proof fn lemma_url_query(base: Seq<char>, path: Seq<char>)
    ensures
        media_url(base, path) == base + "/audio"@ + seq!['?'] + (path_key() + percent_encoded(
            encode_utf8(path),
        )),
{
    reveal_strlit("/audio?path=");
    reveal_strlit("/audio");
}

/// The server reads back from the query of a URL built by
/// [`media_url_for_path`] the very path that the URL was built for.
pub proof fn lemma_url_round_trip(path: Seq<char>)
    ensures
        requested_path(Some(path_key() + percent_encoded(encode_utf8(path)))) == Some(path),
{
    let bytes = encode_utf8(path);
    let encoded = percent_encoded(bytes);
    let query = path_key() + encoded;
    lemma_encoded_chars(bytes);
    query.index_of_first_ensures('&');
    assert(query.take(query.len() as int) =~= query);
    assert(query.subrange(0, 5) =~= path_key());
    assert(path_param(query) == Some(encoded));
    assert(is_ascii_chars(encoded));
    is_ascii_chars_encode_utf8(encoded);
    assert(encode_utf8(encoded) =~= ascii_bytes(encoded));
    lemma_decode_encoded(bytes);
    encode_utf8_valid_utf8(path);
    encode_utf8_decode_utf8(path);
}

} // verus!
