//! A connection-serving layer for an HTTP server: a transport actor that
//! exclusively owns one connection and serializes byte traffic on it, a
//! cloneable handle over a bounded request queue, a completion adapter,
//! non-allocating future combinators, and an HTTP/1.1 request-framing
//! state machine.
use vstd::prelude::*;

pub mod actor;
pub mod adapter;
pub mod combinators;
pub mod errors;
pub mod framing;
pub mod http;
pub mod parser;
pub mod router;

verus! {

} // verus!
