//! The executable HTTP/1.1 request-head parser, proved against the
//! grammar in [`crate::http`].
use vstd::prelude::*;

use crate::http::ascii_lower;
use crate::http::content_length_name;
use crate::http::dec_value;
use crate::http::eq_ignore_ascii_case;
use crate::http::fields_view;
use crate::http::is_digits;
use crate::http::lemma_dec_value_nonneg;
use crate::http::spec_content_length;
use crate::http::spec_find_byte;
use crate::http::spec_find_content_length;
use crate::http::spec_find_crlf;
use crate::http::spec_find_terminator;
use crate::http::spec_parse_head;
use crate::http::spec_parse_header_line;
use crate::http::spec_parse_headers;
use crate::http::spec_parse_request_line;
use crate::http::spec_skip_ws;
use crate::http::spec_trim_end;
use crate::http::HeaderField;
use crate::http::RequestHead;
use crate::http::SpecParse;
use crate::http::COLON;
use crate::http::CR;
use crate::http::HTAB;
use crate::http::LF;
use crate::http::MAX_HEADERS;
use crate::http::SP;

verus! {

/// One attempt to parse the buffered bytes as a request head.
pub enum ParseStatus {
    /// no complete head yet: read more and retry
    Partial,
    /// the head is complete but breaks the grammar, or carries too many
    /// headers
    Malformed,
    /// one complete, well-formed head
    Complete(RequestHead),
}

/// The first CRLF at or after `from`.
fn find_crlf(buf: &Vec<u8>, from: usize) -> (r: Option<usize>)
    requires
        from <= buf@.len(),
    ensures
        r matches Some(c) ==> spec_find_crlf(buf@, from as int) == Some(c as int) && from <= c && c
            + 2 <= buf@.len() && buf@[c as int] == CR && buf@[c as int + 1] == LF,
        r is None ==> spec_find_crlf(buf@, from as int) is None,
{
    let mut i: usize = from;
    while buf.len() >= 2 && i <= buf.len() - 2
        invariant
            from <= i,
            i <= buf@.len(),
            spec_find_crlf(buf@, from as int) == spec_find_crlf(buf@, i as int),
        decreases buf@.len() - i,
    {
        if buf[i] == CR && buf[i + 1] == LF {
            return Some(i);
        }
        i = i + 1;
    }
    None
}

/// The first CRLF CRLF at or after `from`: the end of the first empty
/// line, where the head ends.
fn find_terminator(buf: &Vec<u8>, from: usize) -> (r: Option<usize>)
    requires
        from <= buf@.len(),
    ensures
        r matches Some(t) ==> spec_find_terminator(buf@, from as int) == Some(t as int) && from
            <= t && t + 4 <= buf@.len() && buf@[t as int] == CR && buf@[t as int + 1] == LF
            && buf@[t as int + 2] == CR && buf@[t as int + 3] == LF,
        r is None ==> spec_find_terminator(buf@, from as int) is None,
{
    let mut i: usize = from;
    while buf.len() >= 4 && i <= buf.len() - 4
        invariant
            from <= i,
            i <= buf@.len(),
            spec_find_terminator(buf@, from as int) == spec_find_terminator(buf@, i as int),
        decreases buf@.len() - i,
    {
        if buf[i] == CR && buf[i + 1] == LF && buf[i + 2] == CR && buf[i + 3] == LF {
            return Some(i);
        }
        i = i + 1;
    }
    None
}

/// The first `b` in `buf[from .. end)`.
fn find_byte(buf: &Vec<u8>, from: usize, end: usize, b: u8) -> (r: Option<usize>)
    requires
        from <= end,
        end <= buf@.len(),
    ensures
        r matches Some(c) ==> spec_find_byte(buf@, from as int, end as int, b) == Some(c as int)
            && from <= c && c < end && buf@[c as int] == b,
        r is None ==> spec_find_byte(buf@, from as int, end as int, b) is None,
{
    let mut i: usize = from;
    while i < end
        invariant
            from <= i,
            i <= end,
            end <= buf@.len(),
            spec_find_byte(buf@, from as int, end as int, b) == spec_find_byte(
                buf@,
                i as int,
                end as int,
                b,
            ),
        decreases end - i,
    {
        if buf[i] == b {
            return Some(i);
        }
        i = i + 1;
    }
    None
}

/// The start of `buf[from .. end)` after leading spaces and tabs.
fn skip_ws(buf: &Vec<u8>, from: usize, end: usize) -> (r: usize)
    requires
        from <= end,
        end <= buf@.len(),
    ensures
        r as int == spec_skip_ws(buf@, from as int, end as int),
        from <= r <= end,
{
    let mut i: usize = from;
    while i < end && (buf[i] == SP || buf[i] == HTAB)
        invariant
            from <= i,
            i <= end,
            end <= buf@.len(),
            spec_skip_ws(buf@, from as int, end as int) == spec_skip_ws(buf@, i as int, end as int),
        decreases end - i,
    {
        i = i + 1;
    }
    i
}

/// The end of `buf[from .. end)` after trailing spaces and tabs.
fn trim_end(buf: &Vec<u8>, from: usize, end: usize) -> (r: usize)
    requires
        from <= end,
        end <= buf@.len(),
    ensures
        r as int == spec_trim_end(buf@, from as int, end as int),
        from <= r <= end,
{
    let mut e: usize = end;
    while e > from && (buf[e - 1] == SP || buf[e - 1] == HTAB)
        invariant
            from <= e,
            e <= end,
            end <= buf@.len(),
            spec_trim_end(buf@, from as int, end as int) == spec_trim_end(
                buf@,
                from as int,
                e as int,
            ),
        decreases e,
    {
        e = e - 1;
    }
    e
}

/// A copy of `buf[from .. end)`.
pub fn copy_range(buf: &Vec<u8>, from: usize, end: usize) -> (r: Vec<u8>)
    requires
        from <= end,
        end <= buf@.len(),
    ensures
        r@ == buf@.subrange(from as int, end as int),
{
    let mut out: Vec<u8> = Vec::new();
    let mut i: usize = from;
    while i < end
        invariant
            from <= i,
            i <= end,
            end <= buf@.len(),
            out@ == buf@.subrange(from as int, i as int),
        decreases end - i,
    {
        out.push(buf[i]);
        assert(out@ =~= buf@.subrange(from as int, i as int + 1));
        i = i + 1;
    }
    out
}

/// A CRLF standing anywhere at or after `i` guarantees the scan from `i`
/// finds one no later than it.
proof fn lemma_crlf_found_before(s: Seq<u8>, i: int, t: int)
    requires
        0 <= i <= t,
        t + 2 <= s.len(),
        s[t] == CR,
        s[t + 1] == LF,
    ensures
        spec_find_crlf(s, i) matches Some(c) && i <= c <= t,
    decreases t - i,
{
    if s[i] == CR && s[i + 1] == LF {
    } else {
        lemma_crlf_found_before(s, i + 1, t);
    }
}

/// The request line `buf[0 .. end)` split into method, path and minor
/// version, exactly as the grammar reads it.
fn parse_request_line(buf: &Vec<u8>, end: usize) -> (r: Option<(Vec<u8>, Vec<u8>, u8)>)
    requires
        end <= buf@.len(),
    ensures
        r is None <==> spec_parse_request_line(buf@, end as int) is None,
        r matches Some(parts) ==> spec_parse_request_line(buf@, end as int) == Some(
            (parts.0@, parts.1@, parts.2),
        ),
{
    let sp1 = match find_byte(buf, 0, end, SP) {
        None => { return None },
        Some(c) => c,
    };
    if sp1 == 0 {
        return None;
    }
    let sp2 = match find_byte(buf, sp1 + 1, end, SP) {
        None => { return None },
        Some(c) => c,
    };
    if sp2 == sp1 + 1 {
        return None;
    }
    if end - sp2 - 1 != 8 {
        assert(buf@.subrange(sp2 as int + 1, end as int).len() != 8);
        return None;
    }
    let ghost ver = buf@.subrange(sp2 as int + 1, end as int);
    assert(forall|k: int| 0 <= k < 8 ==> ver[k] == buf@[sp2 as int + 1 + k]);
    if !(buf[sp2 + 1] == 72 && buf[sp2 + 2] == 84 && buf[sp2 + 3] == 84 && buf[sp2 + 4] == 80
        && buf[sp2 + 5] == 47 && buf[sp2 + 6] == 49 && buf[sp2 + 7] == 46) {
        return None;
    }
    let minor_byte = buf[sp2 + 8];
    if !(minor_byte == 48 || minor_byte == 49) {
        return None;
    }
    let method = copy_range(buf, 0, sp1);
    let path = copy_range(buf, sp1 + 1, sp2);
    Some((method, path, minor_byte - 48))
}

/// One header line `buf[from .. end)` as a name and a trimmed value,
/// exactly as the grammar reads it.
fn parse_header_line(buf: &Vec<u8>, from: usize, end: usize) -> (r: Option<HeaderField>)
    requires
        from <= end,
        end <= buf@.len(),
    ensures
        r is None <==> spec_parse_header_line(buf@, from as int, end as int) is None,
        r matches Some(f) ==> spec_parse_header_line(buf@, from as int, end as int) == Some(f@),
{
    let colon = match find_byte(buf, from, end, COLON) {
        None => { return None },
        Some(c) => c,
    };
    if colon == from {
        return None;
    }
    match find_byte(buf, from, colon, SP) {
        Some(_) => { return None },
        None => {},
    }
    let vstart = skip_ws(buf, colon + 1, end);
    let vend = trim_end(buf, vstart, end);
    let name = copy_range(buf, from, colon);
    let value = copy_range(buf, vstart, vend);
    Some(HeaderField { name, value })
}

/// `rest` appended to the already-collected fields, when it exists.
spec fn glue(acc: Seq<(Seq<u8>, Seq<u8>)>, rest: Option<Seq<(Seq<u8>, Seq<u8>)>>) -> Option<
    Seq<(Seq<u8>, Seq<u8>)>,
> {
    match rest {
        None => None,
        Some(r) => Some(acc + r),
    }
}

/// The header lines of `buf[start .. t + 2)`, exactly as the grammar
/// reads them.
fn parse_headers(buf: &Vec<u8>, start: usize, t: usize) -> (r: Option<Vec<HeaderField>>)
    requires
        start <= t + 2,
        t + 4 <= buf@.len(),
    ensures
        r is None <==> spec_parse_headers(buf@, start as int, t as int) is None,
        r matches Some(hs) ==> spec_parse_headers(buf@, start as int, t as int) == Some(
            fields_view(hs@),
        ),
{
    let blen = buf.len();
    assert(t + 4 <= blen);
    let mut acc: Vec<HeaderField> = Vec::new();
    let mut i: usize = start;
    while i < t + 2
        invariant
            start <= i <= t + 2,
            t + 4 <= blen,
            blen == buf@.len(),
            spec_parse_headers(buf@, start as int, t as int) == glue(
                fields_view(acc@),
                spec_parse_headers(buf@, i as int, t as int),
            ),
        decreases t + 2 - i,
    {
        let c = match find_crlf(buf, i) {
            None => { return None },
            Some(c) => c,
        };
        if c > t {
            return None;
        }
        let field = match parse_header_line(buf, i, c) {
            None => { return None },
            Some(f) => f,
        };
        let ghost fv0 = fields_view(acc@);
        let ghost fval = field@;
        acc.push(field);
        proof {
            assert(fields_view(acc@) =~= fv0.push(fval));
            match spec_parse_headers(buf@, c as int + 2, t as int) {
                Some(rest) => {
                    assert(fv0.push(fval) + rest =~= fv0 + (seq![fval] + rest));
                },
                None => {},
            }
        }
        i = c + 2;
    }
    proof {
        assert(fields_view(acc@) + Seq::<(Seq<u8>, Seq<u8>)>::empty() =~= fields_view(acc@));
    }
    Some(acc)
}

/// Extending a digit string never lowers its decimal value.
proof fn lemma_dec_value_mono(v: Seq<u8>, i: int, j: int)
    requires
        forall|k: int| 0 <= k < v.len() ==> 48 <= #[trigger] v[k] <= 57,
        0 <= i <= j <= v.len(),
    ensures
        dec_value(v.subrange(0, i)) <= dec_value(v.subrange(0, j)),
    decreases j - i,
{
    if i < j {
        lemma_dec_value_mono(v, i, j - 1);
        let pre = v.subrange(0, j - 1);
        let cur = v.subrange(0, j);
        assert(cur.drop_last() =~= pre);
        assert(forall|k: int| 0 <= k < pre.len() ==> 48 <= #[trigger] pre[k] <= 57);
        lemma_dec_value_nonneg(pre);
        assert(dec_value(cur) == dec_value(pre) * 10 + (cur.last() - 48));
    }
}

/// Parse a non-negative decimal integer, exactly as `dec_value` reads
/// it: the result exists if and only if the bytes are one or more
/// digits whose value fits the machine word.
pub fn parse_decimal(v: &Vec<u8>) -> (r: Option<usize>)
    ensures
        r is Some <==> (is_digits(v@) && dec_value(v@) <= usize::MAX),
        r matches Some(n) ==> n as int == dec_value(v@),
{
    let len = v.len();
    if len == 0 {
        return None;
    }
    let mut acc: usize = 0;
    let mut i: usize = 0;
    while i < len
        invariant
            i <= len,
            len == v@.len(),
            forall|k: int| 0 <= k < i ==> 48 <= #[trigger] v@[k] <= 57,
            acc as int == dec_value(v@.subrange(0, i as int)),
        decreases len - i,
    {
        let b = v[i];
        if b < 48 || b > 57 {
            return None;
        }
        let digit = (b - 48) as usize;
        let ghost pre = v@.subrange(0, i as int);
        let ghost cur = v@.subrange(0, i as int + 1);
        proof {
            assert(cur.drop_last() =~= pre);
            assert(dec_value(cur) == dec_value(pre) * 10 + (v@[i as int] - 48));
        }
        let shifted = match acc.checked_mul(10) {
            Some(x) => x,
            None => {
                proof {
                    if is_digits(v@) {
                        lemma_dec_value_mono(v@, i as int + 1, v@.len() as int);
                        assert(v@.subrange(0, v@.len() as int) =~= v@);
                    }
                }
                return None;
            },
        };
        let next = match shifted.checked_add(digit) {
            Some(x) => x,
            None => {
                proof {
                    if is_digits(v@) {
                        lemma_dec_value_mono(v@, i as int + 1, v@.len() as int);
                        assert(v@.subrange(0, v@.len() as int) =~= v@);
                    }
                }
                return None;
            },
        };
        acc = next;
        i = i + 1;
    }
    assert(v@.subrange(0, v@.len() as int) =~= v@);
    Some(acc)
}

/// Case-fold one ASCII byte to lower case.
fn lower_byte(b: u8) -> (r: u8)
    ensures
        r == ascii_lower(b),
{
    if b >= 65 && b <= 90 {
        b + 32
    } else {
        b
    }
}

/// The lower-case header name `content-length`, as bytes.
fn content_length_bytes() -> (r: Vec<u8>)
    ensures
        r@ == content_length_name(),
{
    let mut v: Vec<u8> = Vec::new();
    v.push(99);
    v.push(111);
    v.push(110);
    v.push(116);
    v.push(101);
    v.push(110);
    v.push(116);
    v.push(45);
    v.push(108);
    v.push(101);
    v.push(110);
    v.push(103);
    v.push(116);
    v.push(104);
    assert(v@ =~= content_length_name());
    v
}

/// Whether `name` reads `content-length` in any ASCII case.
fn is_content_length_name(name: &Vec<u8>) -> (r: bool)
    ensures
        r <==> eq_ignore_ascii_case(name@, content_length_name()),
{
    let expected = content_length_bytes();
    if name.len() != expected.len() {
        return false;
    }
    let mut i: usize = 0;
    while i < name.len()
        invariant
            i <= name@.len(),
            name@.len() == expected@.len(),
            expected@ == content_length_name(),
            forall|k: int|
                0 <= k < i ==> ascii_lower(name@[k]) == ascii_lower(#[trigger] expected@[k]),
        decreases name@.len() - i,
    {
        if lower_byte(name[i]) != lower_byte(expected[i]) {
            return false;
        }
        i = i + 1;
    }
    true
}

/// The declared body length of a parsed head: the first
/// `Content-Length` header (case-insensitive) whose value parses as a
/// machine-representable non-negative decimal; anything else means no
/// declared length, and a zero-length body.
pub fn content_length(head: &RequestHead) -> (r: Option<usize>)
    ensures
        r is None <==> spec_content_length(head@.headers) is None,
        r matches Some(n) ==> spec_content_length(head@.headers) == Some(n as int),
{
    let mut j: usize = 0;
    assert(head@.headers.skip(0) =~= head@.headers);
    while j < head.headers.len()
        invariant
            j <= head.headers@.len(),
            spec_find_content_length(head@.headers) == spec_find_content_length(
                head@.headers.skip(j as int),
            ),
            forall|k: int|
                0 <= k < head.headers@.len() ==> #[trigger] head@.headers[k]
                    == head.headers@[k]@,
        decreases head.headers@.len() - j,
    {
        proof {
            assert(head@.headers.skip(j as int).drop_first() =~= head@.headers.skip(j as int + 1));
        }
        if is_content_length_name(&head.headers[j].name) {
            return parse_decimal(&head.headers[j].value);
        }
        j = j + 1;
    }
    assert(head@.headers.skip(head.headers@.len() as int).len() == 0);
    None
}

/// Attempt to parse the buffered bytes as one HTTP/1.1 request head.
///
/// The outcome is `Partial` exactly while the buffer holds no complete
/// head yet (no empty line has arrived), `Malformed` exactly when the
/// complete head breaks the grammar or exceeds [`MAX_HEADERS`], and
/// otherwise the parsed head, whose body offset is the byte just past
/// the empty line.
pub fn parse_request(buf: &Vec<u8>) -> (r: ParseStatus)
    ensures
        r is Partial <==> spec_parse_head(buf@) is Partial,
        r is Malformed <==> spec_parse_head(buf@) is Malformed,
        r matches ParseStatus::Complete(h) ==> spec_parse_head(buf@) == SpecParse::Complete(h@)
            && h.body_offset <= buf@.len(),
{
    let t = match find_terminator(buf, 0) {
        None => { return ParseStatus::Partial },
        Some(t) => t,
    };
    let blen = buf.len();
    assert(t + 4 <= blen);
    proof {
        lemma_crlf_found_before(buf@, 0, t as int);
    }
    let c0 = match find_crlf(buf, 0) {
        None => { return ParseStatus::Malformed },
        Some(c) => c,
    };
    let line = match parse_request_line(buf, c0) {
        None => { return ParseStatus::Malformed },
        Some(l) => l,
    };
    let headers = match parse_headers(buf, c0 + 2, t) {
        None => { return ParseStatus::Malformed },
        Some(hs) => hs,
    };
    if headers.len() > MAX_HEADERS {
        return ParseStatus::Malformed;
    }
    ParseStatus::Complete(
        RequestHead {
            method: line.0,
            path: line.1,
            minor_version: line.2,
            headers,
            body_offset: t + 4,
        },
    )
}

} // verus!
