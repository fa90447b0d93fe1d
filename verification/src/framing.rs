//! The request-framing state machine: one growable buffer turned into
//! one complete request (head + body).
//!
//! The machine owns only the buffer. The surrounding loop asks it what
//! to do next ([`FramingMachine::advance`]): read more bytes and feed
//! them in, fail, or hand the framed request off. Reads are demanded
//! only while the buffered bytes are not yet one complete request, so
//! the loop issues exactly the reads needed and not one more.
use vstd::prelude::*;

use crate::errors::ViceError;
use crate::http::spec_content_length;
use crate::http::spec_parse_head;
use crate::http::HeadView;
use crate::http::RequestHead;
use crate::http::SpecParse;
use crate::parser::content_length;
use crate::parser::copy_range;
use crate::parser::parse_request;
use crate::parser::ParseStatus;

verus! {

/// What buffered bytes `s` amount to, as one framing decision.
pub ghost enum SpecFraming {
    /// the head is not complete yet: more bytes are needed
    NeedHead,
    /// the head is complete, but the declared body is not all here yet
    NeedBody,
    /// the complete head breaks the grammar
    Bad,
    /// one complete request: the head, and exactly the declared body
    Done(HeadView, Seq<u8>),
}

/// The declared body length of a head: the machine-representable value
/// of the first `Content-Length` header, and zero when there is none.
pub open spec fn spec_body_len(h: HeadView) -> int {
    match spec_content_length(h.headers) {
        None => 0,
        Some(n) => n,
    }
}

/// The framing decision over the buffered bytes `s`: while the head is
/// incomplete, read; once complete, either reject it, collect the
/// declared body, or — with the body already buffered — finish with
/// exactly `spec_body_len` bytes after the head, no more, no fewer.
pub open spec fn spec_framing(s: Seq<u8>) -> SpecFraming {
    match spec_parse_head(s) {
        SpecParse::Partial => SpecFraming::NeedHead,
        SpecParse::Malformed => SpecFraming::Bad,
        SpecParse::Complete(h) => if s.len() < h.body_offset + spec_body_len(h) {
            SpecFraming::NeedBody
        } else {
            SpecFraming::Done(h, s.subrange(h.body_offset, h.body_offset + spec_body_len(h)))
        },
    }
}

/// A request without a `Content-Length` header is complete the moment
/// its head is: framing finishes with zero body bytes and demands no
/// further read.
pub proof fn lemma_header_only_request_completes(s: Seq<u8>)
    requires
        spec_parse_head(s) is Complete,
        spec_content_length(spec_parse_head(s)->Complete_0.headers) is None,
    ensures
        spec_framing(s) matches SpecFraming::Done(h, body) && h == spec_parse_head(s)->Complete_0
            && body.len() == 0,
{
    crate::http::lemma_body_offset_in_bounds(s);
}

/// A framed request is assembled exactly once: when the buffered bytes
/// already amount to one complete request, whatever bytes arrive after
/// them change neither the head nor the body.
pub proof fn lemma_framing_stable(s: Seq<u8>, e: Seq<u8>)
    requires
        spec_framing(s) is Done,
    ensures
        spec_framing(s + e) == spec_framing(s),
{
    crate::http::lemma_parse_head_extend(s, e);
    crate::http::lemma_body_offset_in_bounds(s);
    let h = spec_parse_head(s)->Complete_0;
    match spec_content_length(h.headers) {
        None => {},
        Some(n) => {
            match crate::http::spec_find_content_length(h.headers) {
                None => {},
                Some(v) => {
                    if crate::http::is_digits(v) {
                        crate::http::lemma_dec_value_nonneg(v);
                    }
                },
            }
        },
    }
    assert(spec_body_len(h) >= 0);
    assert((s + e).subrange(h.body_offset, h.body_offset + spec_body_len(h)) =~= s.subrange(
        h.body_offset,
        h.body_offset + spec_body_len(h),
    ));
}

/// What the framing loop must do next.
pub enum FramingStep {
    /// issue one more read on the handle and feed the bytes back in
    NeedRead,
    /// one complete request, ready for hand-off
    Complete(RequestHead, Vec<u8>),
    /// framing failed; the request is aborted
    Failed(ViceError),
}

/// The framing machine: the one growable buffer the loop maintains,
/// initially empty.
pub struct FramingMachine {
    buffer: Vec<u8>,
}

impl FramingMachine {
    /// The bytes buffered so far.
    pub closed spec fn bytes(&self) -> Seq<u8> {
        self.buffer@
    }

    /// A fresh machine holds nothing.
    pub fn new() -> (r: FramingMachine)
        ensures
            r.bytes() == Seq::<u8>::empty(),
    {
        FramingMachine { buffer: Vec::new() }
    }

    /// One read delivered `chunk`: append it, keeping everything already
    /// buffered as an exact prefix.
    pub fn feed(&mut self, chunk: &Vec<u8>)
        requires
            old(self).bytes().len() + chunk@.len() <= usize::MAX,
        ensures
            final(self).bytes() == old(self).bytes() + chunk@,
    {
        let mut i: usize = 0;
        let ghost orig = self.buffer@;
        while i < chunk.len()
            invariant
                i <= chunk@.len(),
                self.buffer@ == orig + chunk@.subrange(0, i as int),
                orig.len() + chunk@.len() <= usize::MAX,
            decreases chunk@.len() - i,
        {
            self.buffer.push(chunk[i]);
            assert(self.buffer@ =~= orig + chunk@.subrange(0, i as int + 1));
            i = i + 1;
        }
        assert(chunk@.subrange(0, chunk@.len() as int) =~= chunk@);
    }

    /// The framing decision over the buffered bytes: demand a read
    /// exactly while they are not yet one complete request, reject a
    /// malformed head, and otherwise hand back the head with exactly the
    /// declared body bytes.
    pub fn advance(&self) -> (r: FramingStep)
        ensures
            spec_framing(self.bytes()) is NeedHead ==> r is NeedRead,
            spec_framing(self.bytes()) is NeedBody ==> r is NeedRead,
            spec_framing(self.bytes()) is Bad ==> (r matches FramingStep::Failed(e) && e
                == ViceError::Framing),
            spec_framing(self.bytes()) matches SpecFraming::Done(h, b) ==> (r matches
                FramingStep::Complete(head, body) && head@ == h && body@ == b),
    {
        match parse_request(&self.buffer) {
            ParseStatus::Partial => FramingStep::NeedRead,
            ParseStatus::Malformed => FramingStep::Failed(ViceError::Framing),
            ParseStatus::Complete(head) => {
                let declared = match content_length(&head) {
                    None => 0,
                    Some(n) => n,
                };
                if declared > self.buffer.len() - head.body_offset {
                    FramingStep::NeedRead
                } else {
                    let body = copy_range(
                        &self.buffer,
                        head.body_offset,
                        head.body_offset + declared,
                    );
                    FramingStep::Complete(head, body)
                }
            },
        }
    }

    /// The transport closed (a read delivered nothing). A close while
    /// the head is incomplete is a transport failure; one while the
    /// declared body is outstanding leaves the request incomplete; a
    /// close after a complete request changes nothing.
    pub fn on_close(&self) -> (r: FramingStep)
        ensures
            spec_framing(self.bytes()) is NeedHead ==> (r matches FramingStep::Failed(e) && e
                == ViceError::TransportIo),
            spec_framing(self.bytes()) is NeedBody ==> (r matches FramingStep::Failed(e) && e
                == ViceError::IncompleteBody),
            spec_framing(self.bytes()) is Bad ==> (r matches FramingStep::Failed(e) && e
                == ViceError::Framing),
            spec_framing(self.bytes()) matches SpecFraming::Done(h, b) ==> (r matches
                FramingStep::Complete(head, body) && head@ == h && body@ == b),
    {
        match parse_request(&self.buffer) {
            ParseStatus::Partial => FramingStep::Failed(ViceError::TransportIo),
            ParseStatus::Malformed => FramingStep::Failed(ViceError::Framing),
            ParseStatus::Complete(head) => {
                let declared = match content_length(&head) {
                    None => 0,
                    Some(n) => n,
                };
                if declared > self.buffer.len() - head.body_offset {
                    FramingStep::Failed(ViceError::IncompleteBody)
                } else {
                    let body = copy_range(
                        &self.buffer,
                        head.body_offset,
                        head.body_offset + declared,
                    );
                    FramingStep::Complete(head, body)
                }
            },
        }
    }
}

} // verus!
