//! The error taxonomy of the connection-serving layer.
use vstd::prelude::*;

verus! {

/// Every failure this layer can report.
///
/// `TransportIo` and `ActorUnavailable` are unified by the completion
/// adapter and surface uniformly to callers of a handle operation;
/// `Framing` and `IncompleteBody` are detected by the framing machine and
/// terminate only the request being framed.
#[derive(Clone, Copy, PartialEq, Eq, Structural, Debug)]
pub enum ViceError {
    /// the underlying read or write on the connection failed
    TransportIo,
    /// the actor's request queue is full or closed; no more work is accepted
    ActorUnavailable,
    /// the request head is malformed, or it carries too many headers
    Framing,
    /// the connection closed before the declared content length arrived
    IncompleteBody,
}

impl ViceError {
    /// A human-readable cause, in place of a `Display` implementation.
    pub fn describe(&self) -> (r: &'static str)
        ensures
            self is TransportIo ==> r@ == "transport i/o failure"@,
            self is ActorUnavailable ==> r@ == "transport actor unavailable"@,
            self is Framing ==> r@ == "malformed request head"@,
            self is IncompleteBody ==> r@ == "connection closed before the declared body length"@,
    {
        match self {
            ViceError::TransportIo => "transport i/o failure",
            ViceError::ActorUnavailable => "transport actor unavailable",
            ViceError::Framing => "malformed request head",
            ViceError::IncompleteBody => "connection closed before the declared body length",
        }
    }
}

} // verus!
