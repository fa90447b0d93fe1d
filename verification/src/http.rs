//! The HTTP/1.1 request head: its data model and its grammar.
//!
//! The grammar consumed is the CRLF-delimited request head: a request
//! line `method SP path SP HTTP/1.minor CRLF`, then header lines
//! `name ":" value CRLF` (value stripped of surrounding spaces and
//! tabs), closed by an empty line. The head is complete once the first
//! empty line — the first `CRLF CRLF` — has arrived; until then the
//! bytes are an incomplete head. Header names may not be empty or
//! contain a space; the header count is bounded by [`MAX_HEADERS`].
//! Body framing uses `Content-Length` only; chunked transfer encoding
//! is not recognized.
use vstd::prelude::*;

verus! {

/// The fixed maximum number of headers a request head may carry.
pub const MAX_HEADERS: usize = 24;

/// One header field: its name and its value with surrounding blanks
/// removed.
pub struct HeaderField {
    pub name: Vec<u8>,
    pub value: Vec<u8>,
}

impl View for HeaderField {
    type V = (Seq<u8>, Seq<u8>);

    open spec fn view(&self) -> (Seq<u8>, Seq<u8>) {
        (self.name@, self.value@)
    }
}

/// A parsed request head: method, path, protocol minor version, the
/// ordered header list, and the byte offset where the body begins.
pub struct RequestHead {
    pub method: Vec<u8>,
    pub path: Vec<u8>,
    pub minor_version: u8,
    pub headers: Vec<HeaderField>,
    pub body_offset: usize,
}

/// The mathematical shape of a parsed request head.
pub ghost struct HeadView {
    pub method: Seq<u8>,
    pub path: Seq<u8>,
    pub minor_version: u8,
    pub headers: Seq<(Seq<u8>, Seq<u8>)>,
    pub body_offset: int,
}

/// The header list of `hs`, as a sequence of (name, value) pairs.
pub open spec fn fields_view(hs: Seq<HeaderField>) -> Seq<(Seq<u8>, Seq<u8>)> {
    hs.map_values(|h: HeaderField| h@)
}

impl View for RequestHead {
    type V = HeadView;

    open spec fn view(&self) -> HeadView {
        HeadView {
            method: self.method@,
            path: self.path@,
            minor_version: self.minor_version,
            headers: fields_view(self.headers@),
            body_offset: self.body_offset as int,
        }
    }
}

/// What an attempt to parse a buffered byte prefix can yield.
pub ghost enum SpecParse {
    /// no complete head yet: more bytes are needed
    Partial,
    /// the head is complete but does not fit the grammar
    Malformed,
    /// a complete, well-formed head
    Complete(HeadView),
}

pub const CR: u8 = 13;

pub const LF: u8 = 10;

pub const SP: u8 = 32;

pub const HTAB: u8 = 9;

pub const COLON: u8 = 58;

/// The position of the first CRLF at or after `i`, if any.
pub open spec fn spec_find_crlf(s: Seq<u8>, i: int) -> Option<int>
    decreases s.len() - i,
{
    if i < 0 || i + 2 > s.len() {
        None
    } else if s[i] == CR && s[i + 1] == LF {
        Some(i)
    } else {
        spec_find_crlf(s, i + 1)
    }
}

/// The position of the first CRLF CRLF at or after `i`, if any: the
/// first empty line, whose end is where the head ends.
pub open spec fn spec_find_terminator(s: Seq<u8>, i: int) -> Option<int>
    decreases s.len() - i,
{
    if i < 0 || i + 4 > s.len() {
        None
    } else if s[i] == CR && s[i + 1] == LF && s[i + 2] == CR && s[i + 3] == LF {
        Some(i)
    } else {
        spec_find_terminator(s, i + 1)
    }
}

/// The position of the first `b` in `s[i .. end)`, if any.
pub open spec fn spec_find_byte(s: Seq<u8>, i: int, end: int, b: u8) -> Option<int>
    decreases end - i,
{
    if i < 0 || i >= end || i >= s.len() {
        None
    } else if s[i] == b {
        Some(i)
    } else {
        spec_find_byte(s, i + 1, end, b)
    }
}

/// The first position at or after `i` (up to `end`) that does not hold a
/// space or tab.
pub open spec fn spec_skip_ws(s: Seq<u8>, i: int, end: int) -> int
    decreases end - i,
{
    if i >= end {
        end
    } else if s[i] == SP || s[i] == HTAB {
        spec_skip_ws(s, i + 1, end)
    } else {
        i
    }
}

/// The end of `s[i .. end)` after dropping trailing spaces and tabs.
pub open spec fn spec_trim_end(s: Seq<u8>, i: int, end: int) -> int
    decreases end - i,
{
    if end <= i {
        i
    } else if s[end - 1] == SP || s[end - 1] == HTAB {
        spec_trim_end(s, i, end - 1)
    } else {
        end
    }
}

/// Whether `v` reads `HTTP/1.0` or `HTTP/1.1`.
pub open spec fn spec_is_http_version(v: Seq<u8>) -> bool {
    v.len() == 8 && v[0] == 72 && v[1] == 84 && v[2] == 84 && v[3] == 80 && v[4] == 47 && v[5]
        == 49 && v[6] == 46 && (v[7] == 48 || v[7] == 49)
}

/// The request line `s[0 .. end)` split into method, path and minor
/// version: two single-space splits, then an exact version literal.
/// Method and path may not be empty.
pub open spec fn spec_parse_request_line(s: Seq<u8>, end: int) -> Option<(Seq<u8>, Seq<u8>, u8)> {
    match spec_find_byte(s, 0, end, SP) {
        None => None,
        Some(sp1) => if sp1 == 0 {
            None
        } else {
            match spec_find_byte(s, sp1 + 1, end, SP) {
                None => None,
                Some(sp2) => if sp2 == sp1 + 1 {
                    None
                } else {
                    let ver = s.subrange(sp2 + 1, end);
                    if spec_is_http_version(ver) {
                        Some(
                            (
                                s.subrange(0, sp1),
                                s.subrange(sp1 + 1, sp2),
                                (ver[7] - 48) as u8,
                            ),
                        )
                    } else {
                        None
                    }
                },
            }
        },
    }
}

/// One header line `s[i .. end)`: a non-empty, space-free name before the
/// first colon, and the value after it with surrounding blanks removed.
pub open spec fn spec_parse_header_line(s: Seq<u8>, i: int, end: int) -> Option<
    (Seq<u8>, Seq<u8>),
> {
    match spec_find_byte(s, i, end, COLON) {
        None => None,
        Some(colon) => if colon == i || spec_find_byte(s, i, colon, SP) is Some {
            None
        } else {
            let vstart = spec_skip_ws(s, colon + 1, end);
            let vend = spec_trim_end(s, vstart, end);
            Some((s.subrange(i, colon), s.subrange(vstart, vend)))
        },
    }
}

/// The header lines of the region `s[i .. t + 2)`, each CRLF-terminated,
/// where the CRLF at `t` closes the last line; `i == t + 2` means the
/// region is exhausted.
pub open spec fn spec_parse_headers(s: Seq<u8>, i: int, t: int) -> Option<
    Seq<(Seq<u8>, Seq<u8>)>,
>
    decreases t + 2 - i,
{
    if i == t + 2 {
        Some(Seq::<(Seq<u8>, Seq<u8>)>::empty())
    } else if i < 0 || i > t + 2 {
        None
    } else {
        match spec_find_crlf(s, i) {
            None => None,
            Some(c) => if c < i || c > t {
                None
            } else {
                match spec_parse_header_line(s, i, c) {
                    None => None,
                    Some(field) => match spec_parse_headers(s, c + 2, t) {
                        None => None,
                        Some(rest) => Some(seq![field] + rest),
                    },
                }
            },
        }
    }
}

/// A complete head `s[0 .. t + 4)`, with the first empty line at `t`:
/// the request line up to the first CRLF, then the header lines, with
/// the header count bounded.
pub open spec fn spec_parse_complete(s: Seq<u8>, t: int) -> Option<HeadView> {
    match spec_find_crlf(s, 0) {
        None => None,
        Some(c0) => match spec_parse_request_line(s, c0) {
            None => None,
            Some(line) => match spec_parse_headers(s, c0 + 2, t) {
                None => None,
                Some(hs) => if hs.len() <= MAX_HEADERS {
                    Some(
                        HeadView {
                            method: line.0,
                            path: line.1,
                            minor_version: line.2,
                            headers: hs,
                            body_offset: t + 4,
                        },
                    )
                } else {
                    None
                },
            },
        },
    }
}

/// ASCII upper-case letters folded to lower case; all else untouched.
pub open spec fn ascii_lower(b: u8) -> u8 {
    if 65 <= b && b <= 90 {
        (b + 32) as u8
    } else {
        b
    }
}

/// Byte-wise ASCII case-insensitive equality.
pub open spec fn eq_ignore_ascii_case(a: Seq<u8>, b: Seq<u8>) -> bool {
    a.len() == b.len() && forall|k: int| 0 <= k < a.len() ==> ascii_lower(a[k]) == ascii_lower(
        b[k],
    )
}

/// The bytes of the lower-case header name `content-length`.
pub open spec fn content_length_name() -> Seq<u8> {
    seq![99u8, 111u8, 110u8, 116u8, 101u8, 110u8, 116u8, 45u8, 108u8, 101u8, 110u8, 103u8, 116u8, 104u8]
}

/// The value of the first header named `Content-Length` (in any case),
/// if any.
pub open spec fn spec_find_content_length(headers: Seq<(Seq<u8>, Seq<u8>)>) -> Option<Seq<u8>>
    decreases headers.len(),
{
    if headers.len() == 0 {
        None
    } else if eq_ignore_ascii_case(headers[0].0, content_length_name()) {
        Some(headers[0].1)
    } else {
        spec_find_content_length(headers.drop_first())
    }
}

/// A non-empty, all-decimal-digit byte sequence.
pub open spec fn is_digits(v: Seq<u8>) -> bool {
    v.len() > 0 && forall|k: int| 0 <= k < v.len() ==> 48 <= #[trigger] v[k] <= 57
}

/// The non-negative integer the decimal digits `v` denote.
pub open spec fn dec_value(v: Seq<u8>) -> int
    decreases v.len(),
{
    if v.len() == 0 {
        0
    } else {
        dec_value(v.drop_last()) * 10 + (v.last() - 48)
    }
}

/// A digit string denotes a non-negative value.
pub proof fn lemma_dec_value_nonneg(v: Seq<u8>)
    requires
        forall|k: int| 0 <= k < v.len() ==> 48 <= #[trigger] v[k] <= 57,
    ensures
        dec_value(v) >= 0,
    decreases v.len(),
{
    if v.len() > 0 {
        assert(forall|k: int|
            0 <= k < v.drop_last().len() ==> 48 <= #[trigger] v.drop_last()[k] <= 57);
        lemma_dec_value_nonneg(v.drop_last());
    }
}

/// The declared body length: the first `Content-Length` header's value,
/// when that value is a machine-representable non-negative decimal
/// integer; otherwise no declared length (and the body is empty).
pub open spec fn spec_content_length(headers: Seq<(Seq<u8>, Seq<u8>)>) -> Option<int> {
    match spec_find_content_length(headers) {
        None => None,
        Some(v) => if is_digits(v) && dec_value(v) <= usize::MAX {
            Some(dec_value(v))
        } else {
            None
        },
    }
}

/// A found head terminator lies at or after the scan start and fits the
/// bytes.
pub proof fn lemma_terminator_bounds(s: Seq<u8>, i: int)
    requires
        spec_find_terminator(s, i) is Some,
    ensures
        spec_find_terminator(s, i) matches Some(t) && i <= t && t + 4 <= s.len(),
    decreases s.len() - i,
{
    if !(i < 0 || i + 4 > s.len()) && !(s[i] == CR && s[i + 1] == LF && s[i + 2] == CR && s[i + 3]
        == LF) {
        lemma_terminator_bounds(s, i + 1);
    }
}

/// A found CRLF lies at or after the scan start, fits the bytes, and
/// holds those two bytes.
pub proof fn lemma_crlf_bounds(s: Seq<u8>, i: int)
    requires
        spec_find_crlf(s, i) is Some,
    ensures
        spec_find_crlf(s, i) matches Some(c) && i <= c && c + 2 <= s.len() && s[c] == CR && s[c
            + 1] == LF,
    decreases s.len() - i,
{
    if !(i < 0 || i + 2 > s.len()) && !(s[i] == CR && s[i + 1] == LF) {
        lemma_crlf_bounds(s, i + 1);
    }
}

/// A found byte lies within the scanned range.
proof fn lemma_find_byte_bounds(s: Seq<u8>, i: int, end: int, b: u8)
    requires
        spec_find_byte(s, i, end, b) is Some,
    ensures
        spec_find_byte(s, i, end, b) matches Some(c) && i <= c && c < end && c < s.len(),
    decreases end - i,
{
    if !(i < 0 || i >= end || i >= s.len()) && s[i] != b {
        lemma_find_byte_bounds(s, i + 1, end, b);
    }
}

/// Skipping leading blanks stays within the scanned range.
proof fn lemma_skip_ws_bounds(s: Seq<u8>, i: int, end: int)
    requires
        i <= end,
    ensures
        i <= spec_skip_ws(s, i, end) <= end,
    decreases end - i,
{
    if i < end && (s[i] == SP || s[i] == HTAB) {
        lemma_skip_ws_bounds(s, i + 1, end);
    }
}

/// Dropping trailing blanks stays within the scanned range.
proof fn lemma_trim_end_bounds(s: Seq<u8>, i: int, end: int)
    requires
        i <= end,
    ensures
        i <= spec_trim_end(s, i, end) <= end,
    decreases end - i,
{
    if !(end <= i) && (s[end - 1] == SP || s[end - 1] == HTAB) {
        lemma_trim_end_bounds(s, i, end - 1);
    }
}

/// A CRLF found in `s` is found at the same place once `e` is appended.
proof fn lemma_find_crlf_extend(s: Seq<u8>, e: Seq<u8>, i: int)
    requires
        0 <= i,
        spec_find_crlf(s, i) is Some,
    ensures
        spec_find_crlf(s + e, i) == spec_find_crlf(s, i),
    decreases s.len() - i,
{
    lemma_crlf_bounds(s, i);
    if s[i] == CR && s[i + 1] == LF {
        assert((s + e)[i] == s[i]);
        assert((s + e)[i + 1] == s[i + 1]);
    } else {
        assert((s + e)[i] == s[i]);
        assert((s + e)[i + 1] == s[i + 1]);
        lemma_find_crlf_extend(s, e, i + 1);
    }
}

/// A head terminator found in `s` is found at the same place once `e` is
/// appended: appended bytes never move an already-complete head.
proof fn lemma_find_terminator_extend(s: Seq<u8>, e: Seq<u8>, i: int)
    requires
        0 <= i,
        spec_find_terminator(s, i) is Some,
    ensures
        spec_find_terminator(s + e, i) == spec_find_terminator(s, i),
    decreases s.len() - i,
{
    lemma_terminator_bounds(s, i);
    assert((s + e)[i] == s[i]);
    assert((s + e)[i + 1] == s[i + 1]);
    assert((s + e)[i + 2] == s[i + 2]);
    assert((s + e)[i + 3] == s[i + 3]);
    if !(s[i] == CR && s[i + 1] == LF && s[i + 2] == CR && s[i + 3] == LF) {
        lemma_find_terminator_extend(s, e, i + 1);
    }
}

/// A bounded byte scan reads only `s[.. end)`, so appending changes
/// nothing.
proof fn lemma_find_byte_extend(s: Seq<u8>, e: Seq<u8>, i: int, end: int, b: u8)
    requires
        end <= s.len(),
    ensures
        spec_find_byte(s + e, i, end, b) == spec_find_byte(s, i, end, b),
    decreases end - i,
{
    if !(i < 0 || i >= end || i >= s.len()) {
        assert((s + e)[i] == s[i]);
        if s[i] != b {
            lemma_find_byte_extend(s, e, i + 1, end, b);
        }
    }
}

/// Skipping leading blanks reads only `s[.. end)`, so appending changes
/// nothing.
proof fn lemma_skip_ws_extend(s: Seq<u8>, e: Seq<u8>, i: int, end: int)
    requires
        0 <= i,
        end <= s.len(),
    ensures
        spec_skip_ws(s + e, i, end) == spec_skip_ws(s, i, end),
    decreases end - i,
{
    if i < end {
        assert((s + e)[i] == s[i]);
        if s[i] == SP || s[i] == HTAB {
            lemma_skip_ws_extend(s, e, i + 1, end);
        }
    }
}

/// Dropping trailing blanks reads only `s[.. end)`, so appending changes
/// nothing.
proof fn lemma_trim_end_extend(s: Seq<u8>, e: Seq<u8>, i: int, end: int)
    requires
        0 <= i,
        end <= s.len(),
    ensures
        spec_trim_end(s + e, i, end) == spec_trim_end(s, i, end),
    decreases end - i,
{
    if !(end <= i) {
        assert((s + e)[end - 1] == s[end - 1]);
        if s[end - 1] == SP || s[end - 1] == HTAB {
            lemma_trim_end_extend(s, e, i, end - 1);
        }
    }
}

/// The request line is read from `s[.. end)` alone, so appending changes
/// nothing.
proof fn lemma_parse_request_line_extend(s: Seq<u8>, e: Seq<u8>, end: int)
    requires
        0 <= end <= s.len(),
    ensures
        spec_parse_request_line(s + e, end) == spec_parse_request_line(s, end),
{
    lemma_find_byte_extend(s, e, 0, end, SP);
    match spec_find_byte(s, 0, end, SP) {
        None => {},
        Some(sp1) => {
            lemma_find_byte_bounds(s, 0, end, SP);
            lemma_find_byte_extend(s, e, sp1 + 1, end, SP);
            match spec_find_byte(s, sp1 + 1, end, SP) {
                None => {},
                Some(sp2) => {
                    lemma_find_byte_bounds(s, sp1 + 1, end, SP);
                    assert((s + e).subrange(sp2 + 1, end) =~= s.subrange(sp2 + 1, end));
                    assert((s + e).subrange(0, sp1) =~= s.subrange(0, sp1));
                    assert((s + e).subrange(sp1 + 1, sp2) =~= s.subrange(sp1 + 1, sp2));
                },
            }
        },
    }
}

/// A header line is read from `s[.. end)` alone, so appending changes
/// nothing.
proof fn lemma_parse_header_line_extend(s: Seq<u8>, e: Seq<u8>, i: int, end: int)
    requires
        0 <= i,
        end <= s.len(),
    ensures
        spec_parse_header_line(s + e, i, end) == spec_parse_header_line(s, i, end),
{
    lemma_find_byte_extend(s, e, i, end, COLON);
    match spec_find_byte(s, i, end, COLON) {
        None => {},
        Some(colon) => {
            lemma_find_byte_bounds(s, i, end, COLON);
            lemma_find_byte_extend(s, e, i, colon, SP);
            if colon != i && spec_find_byte(s, i, colon, SP) is None {
                lemma_skip_ws_extend(s, e, colon + 1, end);
                lemma_skip_ws_bounds(s, colon + 1, end);
                let vstart = spec_skip_ws(s, colon + 1, end);
                lemma_trim_end_extend(s, e, vstart, end);
                lemma_trim_end_bounds(s, vstart, end);
                let vend = spec_trim_end(s, vstart, end);
                assert((s + e).subrange(i, colon) =~= s.subrange(i, colon));
                assert((s + e).subrange(vstart, vend) =~= s.subrange(vstart, vend));
            }
        },
    }
}

/// Successfully parsed header lines are read from `s[.. t + 2)` alone,
/// so appending changes nothing.
proof fn lemma_parse_headers_extend(s: Seq<u8>, e: Seq<u8>, i: int, t: int)
    requires
        0 <= i,
        t + 2 <= s.len(),
        spec_parse_headers(s, i, t) is Some,
    ensures
        spec_parse_headers(s + e, i, t) == spec_parse_headers(s, i, t),
    decreases t + 2 - i,
{
    if i != t + 2 {
        lemma_find_crlf_extend(s, e, i);
        match spec_find_crlf(s, i) {
            None => {},
            Some(c) => {
                if !(c < i || c > t) {
                    lemma_parse_header_line_extend(s, e, i, c);
                    match spec_parse_header_line(s, i, c) {
                        None => {},
                        Some(field) => {
                            lemma_parse_headers_extend(s, e, c + 2, t);
                        },
                    }
                }
            },
        }
    }
}

/// A complete, well-formed head is read from `s[.. t + 4)` alone, so the
/// very same head is parsed however many bytes arrive after it.
pub proof fn lemma_parse_head_extend(s: Seq<u8>, e: Seq<u8>)
    requires
        spec_parse_head(s) is Complete,
    ensures
        spec_parse_head(s + e) == spec_parse_head(s),
{
    lemma_terminator_bounds(s, 0);
    lemma_find_terminator_extend(s, e, 0);
    let t = spec_find_terminator(s, 0)->0;
    match spec_find_crlf(s, 0) {
        None => {},
        Some(c0) => {
            lemma_crlf_bounds(s, 0);
            lemma_find_crlf_extend(s, e, 0);
            lemma_parse_request_line_extend(s, e, c0);
            match spec_parse_request_line(s, c0) {
                None => {},
                Some(line) => {
                    if spec_parse_headers(s, c0 + 2, t) is Some {
                        lemma_parse_headers_extend(s, e, c0 + 2, t);
                    }
                },
            }
        },
    }
}

/// A complete head ends within the buffered bytes: its body offset never
/// passes the end of the buffer.
pub proof fn lemma_body_offset_in_bounds(s: Seq<u8>)
    requires
        spec_parse_head(s) is Complete,
    ensures
        spec_parse_head(s) matches SpecParse::Complete(h) && 4 <= h.body_offset <= s.len(),
{
    lemma_terminator_bounds(s, 0);
}

/// What the buffered bytes `s` parse to: an incomplete head while no
/// empty line has arrived, and otherwise exactly what the grammar makes
/// of the complete head.
pub open spec fn spec_parse_head(s: Seq<u8>) -> SpecParse {
    match spec_find_terminator(s, 0) {
        None => SpecParse::Partial,
        Some(t) => match spec_parse_complete(s, t) {
            None => SpecParse::Malformed,
            Some(h) => SpecParse::Complete(h),
        },
    }
}

} // verus!
