//! The range resolver: from an optional `Range` header and the length of a
//! file to the span of bytes that is served, and with which status.
//!
//! Only the single form `bytes=<first>-<last>` is honoured, with `<last>`
//! optional. A header of any other shape, the suffix form `bytes=-N` among
//! them, counts as absent: the whole file is served. A first byte at or
//! beyond the end of the file can not be served, wherever the last byte
//! lies: it is never drawn back into the file.

use vstd::prelude::*;
use crate::decimal::{
    decimal_text, lemma_decimal_text_shape, lemma_parse_written, parse_u64, parsed_u64,
};
use crate::text::{chars_of, find_char, has_prefix_at, starts_with_at};

verus! {

/// How a request for bytes was settled.
#[derive(Clone, Copy, Debug, PartialEq, Eq, Structural)]
pub enum RangeStatus {
    /// The whole file is served.
    Full,
    /// The span that the header asked for is served, cut at the end of the file.
    Partial,
    /// The header asked for bytes that the file does not have.
    Unsatisfiable,
}

/// What a well-formed `Range` header asks for.
#[derive(Clone, Copy, Debug, PartialEq, Eq)]
pub struct ByteRange {
    /// Offset of the first byte asked for.
    pub first: u64,
    /// Offset of the last byte asked for; `None` where the header leaves it
    /// open, which means the end of the file.
    pub last: Option<u64>,
}

/// The span served to one request, against the length the file had then.
#[derive(Clone, Copy, Debug, PartialEq, Eq, Structural)]
pub struct ResolvedRange {
    /// Offset of the first byte served.
    pub start: u64,
    /// Offset of the last byte served.
    pub end: u64,
    /// Length of the file.
    pub total_length: u64,
    /// How the request was settled.
    pub status: RangeStatus,
}

/// The unit and the equals sign that open every header this resolver honours.
pub open spec fn range_unit() -> Seq<char> {
    seq!['b', 'y', 't', 'e', 's', '=']
}

/// What `header` asks for: `Some` exactly where it reads `bytes=`, a number,
/// a dash, and then nothing or one more number.
pub open spec fn parsed_range(header: Seq<char>) -> Option<ByteRange> {
    if !has_prefix_at(header, 0, range_unit()) {
        None
    } else {
        let span = header.skip(range_unit().len() as int);
        match span.index_of_first('-') {
            None => None,
            Some(dash) => match parsed_u64(span.take(dash)) {
                None => None,
                Some(first) => {
                    let tail = span.skip(dash + 1);
                    if tail.len() == 0 {
                        Some(ByteRange { first, last: None })
                    } else {
                        match parsed_u64(tail) {
                            None => None,
                            Some(last) => Some(ByteRange { first, last: Some(last) }),
                        }
                    }
                },
            },
        }
    }
}

/// The last offset of a file of `len` bytes; 0 for the empty file.
pub open spec fn last_offset(len: u64) -> u64 {
    if len == 0 {
        0
    } else {
        (len - 1) as u64
    }
}

/// The span that stands for the whole file.
pub open spec fn full_span(len: u64) -> ResolvedRange {
    ResolvedRange { start: 0, end: last_offset(len), total_length: len, status: RangeStatus::Full }
}

/// The span that stands for a request that can not be served.
pub open spec fn no_span(len: u64) -> ResolvedRange {
    ResolvedRange { start: 0, end: 0, total_length: len, status: RangeStatus::Unsatisfiable }
}

/// The span served for `asked` from a file of `len` bytes.
pub open spec fn resolved_span(asked: Option<ByteRange>, len: u64) -> ResolvedRange {
    match asked {
        None => full_span(len),
        Some(range) => {
            let end = match range.last {
                Some(last) if last < last_offset(len) => last,
                _ => last_offset(len),
            };
            if range.first < len && range.first <= end {
                ResolvedRange {
                    start: range.first,
                    end,
                    total_length: len,
                    status: RangeStatus::Partial,
                }
            } else {
                no_span(len)
            }
        },
    }
}

/// The span served for a request that carried `header`, from a file of `len` bytes.
pub open spec fn resolved_header(header: Option<Seq<char>>, len: u64) -> ResolvedRange {
    match header {
        None => full_span(len),
        Some(text) => resolved_span(parsed_range(text), len),
    }
}

impl ResolvedRange {
    /// The invariant of a span: one that is served lies within the file, a
    /// whole file starts at its first byte and ends at its last, and the
    /// empty file has no byte to lie on.
    pub open spec fn wf(&self) -> bool {
        match self.status {
            RangeStatus::Full => self.start == 0 && self.end == last_offset(self.total_length),
            RangeStatus::Partial => self.start <= self.end < self.total_length,
            RangeStatus::Unsatisfiable => self.start == 0 && self.end == 0,
        }
    }

    /// How many bytes the body of the response holds.
    pub open spec fn spec_body_len(&self) -> nat {
        if self.status == RangeStatus::Unsatisfiable || self.total_length == 0 {
            0
        } else {
            (self.end - self.start + 1) as nat
        }
    }

    /// The bytes of `file` that the span covers.
    pub open spec fn body_of(&self, file: Seq<u8>) -> Seq<u8>
        recommends
            self.wf(),
            file.len() == self.total_length,
    {
        file.subrange(self.start as int, self.start + self.spec_body_len())
    }

    /// How many bytes the body of the response holds.
    pub fn body_len(&self) -> (n: u64)
        requires
            self.wf(),
        ensures
            n == self.spec_body_len(),
            self.start + n <= self.total_length,
    {
        match self.status {
            RangeStatus::Unsatisfiable => 0,
            _ => if self.total_length == 0 {
                0
            } else {
                self.end - self.start + 1
            },
        }
    }
}

/// Reads a `Range` header.
pub fn parse_range_header(header: &str) -> (r: Option<ByteRange>)
    ensures
        r == parsed_range(header@),
{
    let chars = chars_of(header);
    let unit: Vec<char> = vec!['b', 'y', 't', 'e', 's', '='];
    if !starts_with_at(&chars, 0, &unit) {
        return None;
    }
    let from: usize = 6;
    let to: usize = chars.len();
    let ghost span = chars@.skip(6);
    match find_char(&chars, from, to, '-') {
        None => None,
        Some(dash) => {
            proof {
                span.index_of_first_ensures('-');
                assert(span.take(dash - from) =~= chars@.subrange(from as int, dash as int));
                assert(span.skip(dash - from + 1) =~= chars@.subrange(dash + 1, to as int));
            }
            match parse_u64(&chars, from, dash) {
                None => None,
                Some(first) => {
                    if dash + 1 == to {
                        Some(ByteRange { first, last: None })
                    } else {
                        match parse_u64(&chars, dash + 1, to) {
                            None => None,
                            Some(last) => Some(ByteRange { first, last: Some(last) }),
                        }
                    }
                },
            }
        },
    }
}

/// Settles which bytes of a file of `len` bytes are served for `asked`.
pub fn resolve(asked: Option<ByteRange>, len: u64) -> (r: ResolvedRange)
    ensures
        r == resolved_span(asked, len),
        r.wf(),
        r.total_length == len,
{
    let last: u64 = if len == 0 {
        0
    } else {
        len - 1
    };
    match asked {
        None => ResolvedRange { start: 0, end: last, total_length: len, status: RangeStatus::Full },
        Some(range) => {
            let end: u64 = match range.last {
                Some(l) => if l < last {
                    l
                } else {
                    last
                },
                None => last,
            };
            if range.first < len && range.first <= end {
                ResolvedRange {
                    start: range.first,
                    end,
                    total_length: len,
                    status: RangeStatus::Partial,
                }
            } else {
                ResolvedRange {
                    start: 0,
                    end: 0,
                    total_length: len,
                    status: RangeStatus::Unsatisfiable,
                }
            }
        },
    }
}

/// Settles which bytes of a file of `len` bytes are served to a request with
/// the given `Range` header, if it had one.
pub fn resolve_range(header: Option<&str>, len: u64) -> (r: ResolvedRange)
    ensures
        r == resolved_header(
            match header {
                Some(text) => Some(text@),
                None => None,
            },
            len,
        ),
        r.wf(),
        r.total_length == len,
{
    match header {
        None => resolve(None, len),
        Some(text) => resolve(parse_range_header(text), len),
    }
}

/// The header that asks for the bytes from `first` to `last`, or to the end
/// of the file where `last` is `None`.
pub open spec fn range_header_text(first: u64, last: Option<u64>) -> Seq<char> {
    range_unit() + decimal_text(first as nat) + seq!['-'] + match last {
        Some(l) => decimal_text(l as nat),
        None => Seq::empty(),
    }
}

/// A header written from two offsets is read back as those offsets.
pub proof fn lemma_header_text_parses(first: u64, last: Option<u64>)
    ensures
        parsed_range(range_header_text(first, last)) == Some(ByteRange { first, last }),
{
    let header = range_header_text(first, last);
    let head = decimal_text(first as nat);
    let tail = match last {
        Some(l) => decimal_text(l as nat),
        None => Seq::empty(),
    };
    let span = header.skip(range_unit().len() as int);
    lemma_decimal_text_shape(first as nat);
    lemma_parse_written(first);
    assert(header.subrange(0, range_unit().len() as int) =~= range_unit());
    span.index_of_first_ensures('-');
    let at = head.len() as int;
    assert(span[at] == '-');
    assert(span.take(at) =~= head);
    assert(span.skip(at + 1) =~= tail);
    match last {
        Some(l) => {
            lemma_decimal_text_shape(l as nat);
            lemma_parse_written(l);
        },
        None => {},
    }
}

/// A span that lies within the file is served as it was asked for.
pub proof fn lemma_span_within_file(first: u64, last: u64, len: u64)
    requires
        first <= last < len,
    ensures
        resolved_span(Some(ByteRange { first, last: Some(last) }), len) == (ResolvedRange {
            start: first,
            end: last,
            total_length: len,
            status: RangeStatus::Partial,
        }),
        resolved_span(Some(ByteRange { first, last: Some(last) }), len).spec_body_len() == last
            - first + 1,
{
}

/// A request without a usable header is served the whole file.
pub proof fn lemma_no_header_is_full(len: u64, file: Seq<u8>)
    requires
        file.len() == len,
    ensures
        resolved_header(None, len).status == RangeStatus::Full,
        resolved_header(None, len).spec_body_len() == len,
        resolved_header(None, len).body_of(file) == file,
{
}

/// A request can not be served exactly where its first byte lies beyond the
/// file, or beyond its last byte once that is cut at the end of the file.
pub proof fn lemma_unsatisfiable_iff(asked: ByteRange, len: u64)
    ensures
        resolved_span(Some(asked), len).status == RangeStatus::Unsatisfiable <==> {
            let end = match asked.last {
                Some(last) if last < last_offset(len) => last,
                _ => last_offset(len),
            };
            asked.first >= len || asked.first > end
        },
        resolved_span(Some(asked), len).status == RangeStatus::Unsatisfiable
            ==> resolved_span(Some(asked), len).spec_body_len() == 0,
        resolved_span(Some(asked), len).status != RangeStatus::Full,
{
}

/// Whatever was asked, the span that comes out keeps the invariant: where
/// bytes are served from a file that has any, they lie within the file.
pub proof fn lemma_resolved_wf(header: Option<Seq<char>>, len: u64)
    ensures
        resolved_header(header, len).wf(),
        resolved_header(header, len).total_length == len,
        resolved_header(header, len).start + resolved_header(header, len).spec_body_len() <= len,
        resolved_header(header, len).status != RangeStatus::Unsatisfiable && len > 0
            ==> resolved_header(header, len).start <= resolved_header(header, len).end < len,
{
}

/// The bodies served for `[0, k]` and for `[k + 1, len - 1]`, one after the
/// other, are the file.
pub proof fn lemma_split_round_trip(file: Seq<u8>, len: u64, k: u64)
    requires
        file.len() == len,
        k + 1 < len,
    ensures
        ({
            let low = resolved_span(Some(ByteRange { first: 0, last: Some(k) }), len);
            let high = resolved_span(
                Some(ByteRange { first: (k + 1) as u64, last: Some((len - 1) as u64) }),
                len,
            );
            &&& low.status == RangeStatus::Partial
            &&& high.status == RangeStatus::Partial
            &&& low.body_of(file) + high.body_of(file) == file
        }),
{
}

} // verus!
