//! The service-wrapper shapes of the request pipeline. The transport
//! impls that drive them (the tower layers and the tracing layer) live
//! with the server wiring, outside the verified core.

use vstd::prelude::*;

verus! {

/// The layer that stamps each inbound request with a fresh request id.
#[derive(Clone, Default)]
pub struct RequestIdInterceptorLayer;

/// A service wrapped so each request carries a request id.
#[derive(Clone)]
pub struct RequestIdInterceptor<S> {
    pub inner: S,
}

/// A service wrapped so each request runs inside a span named by its
/// request id.
#[derive(Clone)]
pub struct RequestSpan<S> {
    pub inner: S,
}

impl<S> RequestSpan<S> {
    /// Wraps a service.
    pub fn new(inner: S) -> (r: RequestSpan<S>)
        ensures
            r.inner == inner,
    {
        RequestSpan { inner }
    }
}

/// The log layer that injects the request id into every event.
#[derive(Debug, Clone)]
pub struct RequestIdLayer;

} // verus!
