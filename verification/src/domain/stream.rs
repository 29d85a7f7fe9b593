//! Byte-range streaming of media: from the size of a resource and the `Range`
//! header of a request to the status, the headers and the span of bytes of
//! the response.
//!
//! Only one range is served. Where a header lists several, separated by
//! commas, the first is taken and the others are not looked at.

use crate::domain::text::{decimal_digits, pairs_view, push_decimal};
use vstd::prelude::*;
use vstd::string::StringExecFns;

verus! {

/// ASCII `0`.
pub const DIGIT_ZERO: u8 = 48;

/// ASCII `9`.
pub const DIGIT_NINE: u8 = 57;

/// ASCII `,`.
pub const COMMA: u8 = 44;

/// ASCII `-`.
pub const DASH: u8 = 45;

/// ASCII `=`.
pub const EQUALS: u8 = 61;

/// ASCII `b`.
pub const LETTER_B: u8 = 98;

/// ASCII `e`.
pub const LETTER_E: u8 = 101;

/// ASCII `s`.
pub const LETTER_S: u8 = 115;

/// ASCII `t`.
pub const LETTER_T: u8 = 116;

/// ASCII `y`.
pub const LETTER_Y: u8 = 121;

/// Whether a byte is an ASCII decimal digit.
pub open spec fn is_digit(b: u8) -> bool {
    DIGIT_ZERO <= b <= DIGIT_NINE
}

/// Whether every byte is an ASCII decimal digit.
pub open spec fn all_digits(s: Seq<u8>) -> bool {
    forall|i: int| 0 <= i < s.len() ==> is_digit(#[trigger] s[i])
}

/// The number that a run of decimal digits spells.
pub open spec fn digits_value(s: Seq<u8>) -> nat
    decreases s.len(),
{
    if s.len() == 0 {
        0
    } else {
        digits_value(s.drop_last()) * 10 + (s.last() - DIGIT_ZERO) as nat
    }
}

/// The position of the first `b` in `s`, or the length of `s` if there is
/// none.
pub open spec fn first_index_of(s: Seq<u8>, b: u8) -> int
    decreases s.len(),
{
    if s.len() == 0 {
        0
    } else if s[0] == b {
        0
    } else {
        1 + first_index_of(s.drop_first(), b)
    }
}

/// The unit that a range header has to start with: `bytes=`.
pub open spec fn range_unit() -> Seq<u8> {
    seq![LETTER_B, LETTER_Y, LETTER_T, LETTER_E, LETTER_S, EQUALS]
}

/// What a well-formed range header asks for: the first byte and, if given,
/// the last byte, as the numbers that the header spells.
///
/// A header is well formed when it reads `bytes=`, one or more digits, `-`,
/// then either nothing or one or more digits; after that there may be a comma
/// and anything at all. Nothing else is: no spaces, no sign, no missing
/// start.
pub open spec fn requested_range(header: Seq<u8>) -> Option<(nat, Option<nat>)> {
    if header.len() < 6 || header.take(6) != range_unit() {
        None
    } else {
        let rest = header.skip(6);
        let first = rest.take(first_index_of(rest, COMMA));
        let dash = first_index_of(first, DASH);
        let start_text = first.take(dash);
        let end_text = first.skip(dash + 1);
        if dash >= first.len() || start_text.len() == 0 || !all_digits(start_text) {
            None
        } else if end_text.len() == 0 {
            Some((digits_value(start_text), None))
        } else if all_digits(end_text) {
            Some((digits_value(start_text), Some(digits_value(end_text))))
        } else {
            None
        }
    }
}

/// A number as far as 64 bits hold it: anything larger becomes the largest
/// value.
pub open spec fn saturated(n: nat) -> u64 {
    if n > u64::MAX {
        u64::MAX
    } else {
        n as u64
    }
}

/// A range as a header asked for it, before it is fitted to a resource.
/// Numbers too large for 64 bits are held as the largest value, which is
/// beyond the end of every resource just as they are.
#[derive(Clone, Copy, Debug, PartialEq, Eq, Structural)]
pub struct ByteRange {
    pub start: u64,
    pub end: Option<u64>,
}

/// The range that a request asked for, held in 64 bits.
pub open spec fn saturated_range(asked: (nat, Option<nat>)) -> ByteRange {
    ByteRange {
        start: saturated(asked.0),
        end: match asked.1 {
            Some(e) => Some(saturated(e)),
            None => None,
        },
    }
}

/// The span of a resource that a response carries: the bytes from `start` to
/// `end`, both included, of `total` bytes.
#[derive(Clone, Copy, Debug, PartialEq, Eq, Structural)]
pub struct RangeDescriptor {
    pub start: u64,
    pub end: u64,
    pub total: u64,
}

impl RangeDescriptor {
    /// A descriptor lies within its resource.
    pub open spec fn well_formed(self) -> bool {
        self.start <= self.end < self.total
    }

    /// Whether the span is the whole resource.
    pub open spec fn covers_all(self) -> bool {
        self.start == 0 && self.end + 1 == self.total
    }
}

/// The first byte to serve: the start asked for, but no later than the last
/// byte of the resource.
pub open spec fn clipped_start(start: nat, total: nat) -> nat
    recommends
        total > 0,
{
    if start < total {
        start
    } else {
        (total - 1) as nat
    }
}

/// The last byte to serve: the end asked for, but no earlier than the first
/// byte served and no later than the last byte of the resource. Without an
/// end, the last byte of the resource.
pub open spec fn clipped_end(start: nat, end: Option<nat>, total: nat) -> nat
    recommends
        total > 0,
{
    match end {
        None => (total - 1) as nat,
        Some(e) => if e < clipped_start(start, total) {
            clipped_start(start, total)
        } else if e < total {
            e
        } else {
            (total - 1) as nat
        },
    }
}

/// Why a media request is answered with an error.
#[derive(Clone, Copy, Debug, PartialEq, Eq, Structural)]
pub enum StreamError {
    /// No media has the identifier.
    NotFound,
    /// The range header is not well formed.
    MalformedRange,
    /// A range was asked of a resource without any byte.
    RangeNotSatisfiable,
}

/// The status code for a request that is not well formed.
pub const STATUS_BAD_REQUEST: u16 = 400;

/// The status code for a resource that does not exist.
pub const STATUS_NOT_FOUND: u16 = 404;

/// The status code for a range of which no byte can be served.
pub const STATUS_RANGE_NOT_SATISFIABLE: u16 = 416;

impl StreamError {
    /// The status code of the response that tells the client of the error.
    /// Every one of them is a client error.
    pub open spec fn spec_status(self) -> u16 {
        match self {
            StreamError::NotFound => STATUS_NOT_FOUND,
            StreamError::MalformedRange => STATUS_BAD_REQUEST,
            StreamError::RangeNotSatisfiable => STATUS_RANGE_NOT_SATISFIABLE,
        }
    }

    /// The status code of the response that tells the client of the error.
    pub fn status(self) -> (code: u16)
        ensures
            code == self.spec_status(),
            400 <= code < 500,
    {
        match self {
            StreamError::NotFound => STATUS_NOT_FOUND,
            StreamError::MalformedRange => STATUS_BAD_REQUEST,
            StreamError::RangeNotSatisfiable => STATUS_RANGE_NOT_SATISFIABLE,
        }
    }
}

/// The span that answers a range header on a resource of `total` bytes.
pub open spec fn resolved_range(total: u64, header: Seq<u8>) -> Result<
    RangeDescriptor,
    StreamError,
> {
    match requested_range(header) {
        None => Err(StreamError::MalformedRange),
        Some(asked) => if total == 0 {
            Err(StreamError::RangeNotSatisfiable)
        } else {
            Ok(
                RangeDescriptor {
                    start: clipped_start(asked.0, total as nat) as u64,
                    end: clipped_end(asked.0, asked.1, total as nat) as u64,
                    total,
                },
            )
        },
    }
}

proof fn lemma_first_index_of(s: Seq<u8>, b: u8, k: int)
    requires
        0 <= k <= s.len(),
        forall|j: int| 0 <= j < k ==> s[j] != b,
        k == s.len() || s[k] == b,
    ensures
        first_index_of(s, b) == k,
    decreases s.len(),
{
    if s.len() > 0 && k > 0 {
        let tail = s.drop_first();
        assert forall|j: int| 0 <= j < k - 1 implies tail[j] != b by {
            assert(tail[j] == s[j + 1]);
        }
        lemma_first_index_of(tail, b, k - 1);
    }
}

proof fn lemma_digits_value_step(s: Seq<u8>, lo: int, hi: int)
    requires
        0 <= lo <= hi < s.len(),
    ensures
        digits_value(s.subrange(lo, hi + 1)) == digits_value(s.subrange(lo, hi)) * 10 + (s[hi]
            - DIGIT_ZERO) as nat,
{
    assert(s.subrange(lo, hi + 1).drop_last() =~= s.subrange(lo, hi));
}

/// Reads a run of digits of `header` from `from` up to `stop`, or up to the
/// first byte that is no digit.
fn read_digits(header: &[u8], from: usize, stop: usize) -> (r: (u64, usize))
    requires
        from <= stop <= header@.len(),
    ensures
        from <= r.1 <= stop,
        all_digits(header@.subrange(from as int, r.1 as int)),
        r.1 == stop || !is_digit(header@[r.1 as int]),
        r.0 == saturated(digits_value(header@.subrange(from as int, r.1 as int))),
{
    let mut value: u64 = 0;
    let mut i: usize = from;
    while i < stop && DIGIT_ZERO <= header[i] && header[i] <= DIGIT_NINE
        invariant
            from <= i <= stop <= header@.len(),
            all_digits(header@.subrange(from as int, i as int)),
            value == saturated(digits_value(header@.subrange(from as int, i as int))),
        decreases stop - i,
    {
        let digit: u64 = (header[i] - DIGIT_ZERO) as u64;
        proof {
            lemma_digits_value_step(header@, from as int, i as int);
        }
        if value > (u64::MAX - digit) / 10 {
            value = u64::MAX;
        } else {
            value = value * 10 + digit;
        }
        i += 1;
    }
    (value, i)
}

/// Reads a `Range` header.
///
/// Returns the range that the header asks for, or `None` if the header is not
/// well formed.
pub fn parse_range(header: &[u8]) -> (r: Option<ByteRange>)
    ensures
        r == match requested_range(header@) {
            Some(asked) => Some(saturated_range(asked)),
            None => None,
        },
{
    let n = header.len();
    if n < 6 {
        return None;
    }
    if header[0] != LETTER_B || header[1] != LETTER_Y || header[2] != LETTER_T || header[3] != LETTER_E
        || header[4] != LETTER_S || header[5] != EQUALS {
        assert(header@.take(6)[0] == header@[0]);
        assert(header@.take(6)[1] == header@[1]);
        assert(header@.take(6)[2] == header@[2]);
        assert(header@.take(6)[3] == header@[3]);
        assert(header@.take(6)[4] == header@[4]);
        assert(header@.take(6)[5] == header@[5]);
        return None;
    }
    assert(header@.take(6) =~= range_unit());
    let ghost rest = header@.skip(6);
    let mut stop: usize = 6;
    while stop < n && header[stop] != COMMA
        invariant
            6 <= stop <= n,
            n == header@.len(),
            rest == header@.skip(6),
            forall|j: int| 0 <= j < stop - 6 ==> rest[j] != COMMA,
        decreases n - stop,
    {
        stop += 1;
    }
    proof {
        lemma_first_index_of(rest, COMMA, stop as int - 6);
    }
    let ghost first = rest.take(stop as int - 6);
    let (start, dash) = read_digits(header, 6, stop);
    let ghost start_text = header@.subrange(6, dash as int);
    proof {
        assert(first.take(dash as int - 6) =~= start_text);
        if dash == stop {
            assert forall|j: int| 0 <= j < first.len() implies first[j] != DASH by {
                assert(first[j] == start_text[j]);
            }
            lemma_first_index_of(first, DASH, first.len() as int);
        } else if header@[dash as int] == DASH {
            assert forall|j: int| 0 <= j < dash - 6 implies first[j] != DASH by {
                assert(first[j] == start_text[j]);
            }
            assert(first[dash as int - 6] == header@[dash as int]);
            lemma_first_index_of(first, DASH, dash as int - 6);
        }
    }
    if dash == stop {
        return None;
    }
    if header[dash] != DASH {
        proof {
            let found = first_index_of(first, DASH);
            lemma_first_index_bounds(first, DASH);
            if found < first.len() {
                // the byte at `dash` is neither a digit nor the dash, and it
                // lies before the dash
                assert(first[dash as int - 6] == header@[dash as int]);
                if found <= dash - 6 {
                    assert(first[found] == DASH);
                    if found < dash - 6 {
                        assert(start_text[found] == first[found]);
                    }
                }
                assert(first.take(found)[dash as int - 6] == first[dash as int - 6]);
            }
        }
        return None;
    }
    if dash == 6 {
        return None;
    }
    let ghost end_text = header@.subrange(dash as int + 1, stop as int);
    assert(first.skip(dash as int - 6 + 1) =~= end_text);
    if dash + 1 == stop {
        return Some(ByteRange { start, end: None });
    }
    let (end, after) = read_digits(header, dash + 1, stop);
    if after != stop {
        assert(end_text[after as int - dash as int - 1] == header@[after as int]);
        return None;
    }
    Some(ByteRange { start, end: Some(end) })
}

proof fn lemma_first_index_bounds(s: Seq<u8>, b: u8)
    ensures
        0 <= first_index_of(s, b) <= s.len(),
        first_index_of(s, b) < s.len() ==> s[first_index_of(s, b)] == b,
        forall|j: int| 0 <= j < first_index_of(s, b) ==> s[j] != b,
    decreases s.len(),
{
    if s.len() > 0 && s[0] != b {
        let tail = s.drop_first();
        lemma_first_index_bounds(tail, b);
        assert forall|j: int| 0 <= j < first_index_of(s, b) implies s[j] != b by {
            if j > 0 {
                assert(tail[j - 1] == s[j]);
            }
        }
    }
}

/// Fits a requested range to a resource of `total` bytes.
///
/// The start is moved back onto the last byte if it lies beyond it; the end
/// is moved into the part from the start to the last byte. A range that asks
/// for more than there is gets what there is.
pub fn clip_range(range: ByteRange, total: u64) -> (d: RangeDescriptor)
    requires
        total > 0,
    ensures
        d.well_formed(),
        d.total == total,
        d.start == clipped_start(range.start as nat, total as nat),
        d.end == clipped_end(
            range.start as nat,
            match range.end {
                Some(e) => Some(e as nat),
                None => None,
            },
            total as nat,
        ),
{
    let start = if range.start < total {
        range.start
    } else {
        total - 1
    };
    let end = match range.end {
        None => total - 1,
        Some(e) => if e < start {
            start
        } else if e < total {
            e
        } else {
            total - 1
        },
    };
    RangeDescriptor { start, end, total }
}

/// Clipping does not see the difference between a number and the same number
/// held in 64 bits: whatever is too large for 64 bits lies beyond the end of
/// the resource either way.
proof fn lemma_clip_of_saturated(asked: (nat, Option<nat>), total: u64)
    requires
        total > 0,
    ensures
        clipped_start(saturated(asked.0) as nat, total as nat) == clipped_start(
            asked.0,
            total as nat,
        ),
        clipped_end(
            saturated(asked.0) as nat,
            match saturated_range(asked).end {
                Some(e) => Some(e as nat),
                None => None,
            },
            total as nat,
        ) == clipped_end(asked.0, asked.1, total as nat),
{
}

/// Resolves the `Range` header of a request on a resource of `total` bytes.
///
/// A header that is not well formed is refused, and so is any range on a
/// resource without bytes. Every other range is clipped to the resource.
pub fn stream_music(total: u64, header: &[u8]) -> (r: Result<RangeDescriptor, StreamError>)
    ensures
        r == resolved_range(total, header@),
        r matches Ok(d) ==> d.well_formed() && d.total == total,
{
    match parse_range(header) {
        None => Err(StreamError::MalformedRange),
        Some(range) => {
            if total == 0 {
                Err(StreamError::RangeNotSatisfiable)
            } else {
                proof {
                    lemma_clip_of_saturated(requested_range(header@).unwrap(), total);
                }
                Ok(clip_range(range, total))
            }
        },
    }
}

/// A range that lies within the resource is served as it was asked for, and
/// whatever was asked for, what is served lies within the resource.
pub proof fn lemma_resolved_range_lies_within(total: u64, header: Seq<u8>)
    requires
        total > 0,
        requested_range(header) is Some,
    ensures
        resolved_range(total, header) matches Ok(d) && d.well_formed() && d.total == total && ({
            let asked = requested_range(header).unwrap();
            &&& asked.0 < total ==> d.start == asked.0
            &&& asked.1 is None ==> d.end == total - 1
            &&& asked.1 matches Some(e) ==> (asked.0 <= e < total ==> d.end == e)
        }),
{
}

/// What is known of a stored media: its size in bytes and its content type.
#[derive(Clone, Debug, PartialEq, Eq)]
pub struct MediaInfo {
    pub total: u64,
    pub content_type: String,
}

/// The answer to a media request: the status code, the headers in the order
/// in which they are set, and the part of the resource that makes the body.
#[derive(Clone, Debug, PartialEq, Eq)]
pub struct StreamResponse {
    pub status: u16,
    pub headers: Vec<(String, String)>,
    /// Where the body starts in the resource.
    pub offset: u64,
    /// How many bytes the body has.
    pub length: u64,
}

/// The status code for success with the whole answer.
pub const STATUS_OK: u16 = 200;

/// The status code for success with a part of the resource.
pub const STATUS_PARTIAL_CONTENT: u16 = 206;

/// The value of a `Content-Range` header: `bytes start-end/total`.
pub open spec fn content_range_text(d: RangeDescriptor) -> Seq<char> {
    "bytes "@ + decimal_digits(d.start as nat) + "-"@ + decimal_digits(d.end as nat) + "/"@
        + decimal_digits(d.total as nat)
}

/// The headers of a successful response, as pairs of name and value:
/// `Content-Type`, `Accept-Ranges`, and `Content-Range` where the request
/// asked for a range.
pub open spec fn response_headers(content_type: Seq<char>, range: Option<RangeDescriptor>) -> Seq<
    (Seq<char>, Seq<char>),
> {
    let always = seq![("Content-Type"@, content_type), ("Accept-Ranges"@, "bytes"@)];
    match range {
        Some(d) => always.push(("Content-Range"@, content_range_text(d))),
        None => always,
    }
}

/// The status of a successful response: partial content for a range, but not
/// for one that spans the whole resource, which is answered like a request
/// without range.
pub open spec fn response_status(range: Option<RangeDescriptor>) -> u16 {
    match range {
        Some(d) => if d.covers_all() {
            STATUS_OK
        } else {
            STATUS_PARTIAL_CONTENT
        },
        None => STATUS_OK,
    }
}

/// Writes the value of a `Content-Range` header.
pub fn content_range_value(d: &RangeDescriptor) -> (text: String)
    ensures
        text@ == content_range_text(*d),
{
    let mut out = String::from_str("bytes ");
    push_decimal(&mut out, d.start);
    out.append("-");
    push_decimal(&mut out, d.end);
    out.append("/");
    push_decimal(&mut out, d.total);
    assert(out@ =~= content_range_text(*d));
    out
}

/// Answers a media request.
///
/// `media` is what the store knows of the identifier in the request, `None`
/// if it knows nothing; `header` is the value of the `Range` header, `None`
/// if the request has none.
///
/// An unknown media is refused before the header is looked at. Without a
/// header the whole resource is the body. With one, the body is the clipped
/// range, and `Content-Range` says which part it is.
pub fn stream(media: Option<&MediaInfo>, header: Option<&[u8]>) -> (r: Result<
    StreamResponse,
    StreamError,
>)
    ensures
        media is None ==> r == Err::<StreamResponse, StreamError>(StreamError::NotFound),
        media matches Some(m) ==> match header {
            None => r matches Ok(resp) && resp.status == STATUS_OK && pairs_view(resp.headers@)
                == response_headers(m.content_type@, None) && resp.offset == 0 && resp.length
                == m.total,
            Some(h) => match resolved_range(m.total, h@) {
                Err(e) => r == Err::<StreamResponse, StreamError>(e),
                Ok(d) => r matches Ok(resp) && resp.status == response_status(Some(d))
                    && pairs_view(resp.headers@) == response_headers(m.content_type@, Some(d))
                    && resp.offset == d.start && resp.length == d.end - d.start + 1,
            },
        },
{
    let m = match media {
        None => {
            return Err(StreamError::NotFound);
        },
        Some(m) => m,
    };
    let mut headers: Vec<(String, String)> = Vec::new();
    headers.push((String::from_str("Content-Type"), m.content_type.clone()));
    headers.push((String::from_str("Accept-Ranges"), String::from_str("bytes")));
    match header {
        None => {
            assert(pairs_view(headers@) =~= response_headers(m.content_type@, None));
            Ok(StreamResponse { status: STATUS_OK, headers, offset: 0, length: m.total })
        },
        Some(h) => {
            let d = match stream_music(m.total, h) {
                Err(e) => {
                    return Err(e);
                },
                Ok(d) => d,
            };
            headers.push((String::from_str("Content-Range"), content_range_value(&d)));
            assert(pairs_view(headers@) =~= response_headers(m.content_type@, Some(d)));
            let status = if d.start == 0 && d.end == d.total - 1 {
                STATUS_OK
            } else {
                STATUS_PARTIAL_CONTENT
            };
            Ok(StreamResponse { status, headers, offset: d.start, length: d.end - d.start + 1 })
        },
    }
}

} // verus!
