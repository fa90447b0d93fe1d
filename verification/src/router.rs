//! The route builder: request-processing capabilities composed from
//! branches, each guarded by a matcher, over one fallback.
//!
//! A service receives a framed request (head and body bytes) and
//! produces the byte sequence to write back. The router delegates to
//! the innermost branch whose matcher accepts the request, and
//! otherwise to the fallback.
use vstd::prelude::*;

use crate::http::HeadView;
use crate::http::RequestHead;

verus! {

/// A request-processing capability: from one framed request to the
/// bytes of its response.
pub trait Service {
    /// The response this service gives to a request, as a function of
    /// the request alone.
    spec fn response_of(&self, head: HeadView, body: Seq<u8>) -> Seq<u8>;

    /// Process one framed request; the response is exactly what
    /// `response_of` says.
    fn call(&self, head: &RequestHead, body: &Vec<u8>) -> (r: Vec<u8>)
        ensures
            r@ == self.response_of(head@, body@),
    ;
}

/// The bytes of the default fallback response: a `404 Not Found` with an
/// empty body.
pub open spec fn not_found_response() -> Seq<u8> {
    seq![
        72u8, 84u8, 84u8, 80u8, 47u8, 49u8, 46u8, 49u8, 32u8, 52u8, 48u8, 52u8, 32u8, 78u8,
        111u8, 116u8, 32u8, 70u8, 111u8, 117u8, 110u8, 100u8, 13u8, 10u8, 67u8, 111u8, 110u8,
        116u8, 101u8, 110u8, 116u8, 45u8, 76u8, 101u8, 110u8, 103u8, 116u8, 104u8, 58u8, 32u8,
        48u8, 13u8, 10u8, 13u8, 10u8,
    ]
}

/// The default fallback: it answers every request with `404 Not Found`.
#[derive(Clone, Copy, PartialEq, Eq, Structural)]
pub struct NotFound;

impl Service for NotFound {
    open spec fn response_of(&self, head: HeadView, body: Seq<u8>) -> Seq<u8> {
        not_found_response()
    }

    fn call(&self, head: &RequestHead, body: &Vec<u8>) -> (r: Vec<u8>) {
        let mut v: Vec<u8> = Vec::new();
        v.push(72);
        v.push(84);
        v.push(84);
        v.push(80);
        v.push(47);
        v.push(49);
        v.push(46);
        v.push(49);
        v.push(32);
        v.push(52);
        v.push(48);
        v.push(52);
        v.push(32);
        v.push(78);
        v.push(111);
        v.push(116);
        v.push(32);
        v.push(70);
        v.push(111);
        v.push(117);
        v.push(110);
        v.push(100);
        v.push(13);
        v.push(10);
        v.push(67);
        v.push(111);
        v.push(110);
        v.push(116);
        v.push(101);
        v.push(110);
        v.push(116);
        v.push(45);
        v.push(76);
        v.push(101);
        v.push(110);
        v.push(103);
        v.push(116);
        v.push(104);
        v.push(58);
        v.push(32);
        v.push(48);
        v.push(13);
        v.push(10);
        v.push(13);
        v.push(10);
        assert(v@ =~= not_found_response());
        v
    }
}

/// A service that answers every request with one fixed byte sequence —
/// the simplest request-processing capability a route can delegate to.
#[derive(Clone)]
pub struct FixedResponse {
    pub body: Vec<u8>,
}

impl FixedResponse {
    /// A service answering everything with `body`.
    pub fn new(body: Vec<u8>) -> (r: FixedResponse)
        ensures
            r.body == body,
    {
        FixedResponse { body }
    }
}

impl Service for FixedResponse {
    open spec fn response_of(&self, head: HeadView, body: Seq<u8>) -> Seq<u8> {
        self.body@
    }

    fn call(&self, head: &RequestHead, body: &Vec<u8>) -> (r: Vec<u8>) {
        let r = crate::parser::copy_range(&self.body, 0, self.body.len());
        assert(r@ =~= self.body@);
        r
    }
}

/// Byte-for-byte equality of two byte vectors.
fn bytes_eq(a: &Vec<u8>, b: &Vec<u8>) -> (r: bool)
    ensures
        r <==> a@ == b@,
{
    if a.len() != b.len() {
        return false;
    }
    let mut i: usize = 0;
    while i < a.len()
        invariant
            i <= a@.len(),
            a@.len() == b@.len(),
            forall|k: int| 0 <= k < i ==> a@[k] == b@[k],
        decreases a@.len() - i,
    {
        if a[i] != b[i] {
            return false;
        }
        i = i + 1;
    }
    assert(a@ =~= b@);
    true
}

/// What a branch matches a request against: the path, the method,
/// either, or both. An absent part matches anything.
#[derive(Clone)]
pub struct RequestMatcher {
    pub path: Option<Vec<u8>>,
    pub method: Option<Vec<u8>>,
}

impl RequestMatcher {
    /// Whether this matcher accepts the request head: each constrained
    /// part must equal the request's, byte for byte.
    pub open spec fn spec_matches(&self, head: HeadView) -> bool {
        &&& (match self.path {
            Some(p) => p@ == head.path,
            None => true,
        })
        &&& (match self.method {
            Some(m) => m@ == head.method,
            None => true,
        })
    }

    /// A matcher over both parts; an absent part matches anything.
    pub fn new(path: Option<Vec<u8>>, method: Option<Vec<u8>>) -> (r: RequestMatcher)
        ensures
            r.path == path,
            r.method == method,
    {
        RequestMatcher { path, method }
    }

    /// A matcher that constrains the path alone.
    pub fn for_path(path: Vec<u8>) -> (r: RequestMatcher)
        ensures
            r.path == Some(path),
            r.method is None,
    {
        RequestMatcher { path: Some(path), method: None }
    }

    /// Decide whether the request head is accepted, exactly as
    /// `spec_matches` says.
    pub fn matches(&self, head: &RequestHead) -> (r: bool)
        ensures
            r == self.spec_matches(head@),
    {
        match &self.path {
            Some(p) => {
                if !bytes_eq(p, &head.path) {
                    return false;
                }
            },
            None => {},
        }
        match &self.method {
            Some(m) => {
                if !bytes_eq(m, &head.method) {
                    return false;
                }
            },
            None => {},
        }
        true
    }
}

/// A service that matches the request and delegates to either the
/// guarded service or the fallback. Built by [`Router::route`].
#[derive(Clone)]
pub struct Branch<S, F> {
    pub matcher: RequestMatcher,
    pub inner: S,
    pub fallback: F,
}

impl<S: Service, F: Service> Service for Branch<S, F> {
    open spec fn response_of(&self, head: HeadView, body: Seq<u8>) -> Seq<u8> {
        if self.matcher.spec_matches(head) {
            self.inner.response_of(head, body)
        } else {
            self.fallback.response_of(head, body)
        }
    }

    fn call(&self, head: &RequestHead, body: &Vec<u8>) -> (r: Vec<u8>) {
        if self.matcher.matches(head) {
            self.inner.call(head, body)
        } else {
            self.fallback.call(head, body)
        }
    }
}

/// The route builder: a stack of branches over one fallback.
#[derive(Clone)]
pub struct Router<S> {
    pub inner: S,
}

impl Router<NotFound> {
    /// A router that answers everything with the default fallback.
    pub fn new() -> (r: Router<NotFound>)
        ensures
            r.inner == NotFound,
    {
        Router { inner: NotFound }
    }
}

impl<S> Router<S> {
    /// A router with a custom fallback.
    pub fn new_with_fallback(fallback: S) -> (r: Router<S>)
        ensures
            r.inner == fallback,
    {
        Router { inner: fallback }
    }

    /// Assign a new route: requests the matcher accepts go to `route`,
    /// the rest to everything assigned before.
    pub fn route<R>(self, matcher: RequestMatcher, route: R) -> (r: Router<Branch<R, S>>)
        ensures
            r.inner.matcher == matcher,
            r.inner.inner == route,
            r.inner.fallback == self.inner,
    {
        Router { inner: Branch { matcher, inner: route, fallback: self.inner } }
    }

    /// Assign a new route by path, with the route's service obligation
    /// checked at this call rather than where the router is used.
    pub fn route_checked<R: Service>(self, path: Vec<u8>, route: R) -> (r: Router<Branch<R, S>>)
        ensures
            r.inner.matcher.path == Some(path),
            r.inner.matcher.method is None,
            r.inner.inner == route,
            r.inner.fallback == self.inner,
    {
        self.route(RequestMatcher::for_path(path), route)
    }
}

impl<S: Service> Service for Router<S> {
    open spec fn response_of(&self, head: HeadView, body: Seq<u8>) -> Seq<u8> {
        self.inner.response_of(head, body)
    }

    fn call(&self, head: &RequestHead, body: &Vec<u8>) -> (r: Vec<u8>) {
        self.inner.call(head, body)
    }
}

impl Default for Router<NotFound> {
    /// The default router is the bare fallback router.
    fn default() -> (r: Self)
        ensures
            r.inner == NotFound,
    {
        Router::new()
    }
}

} // verus!
