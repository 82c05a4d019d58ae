//! The client hook: the caller's context goes into each outgoing request.
use vstd::prelude::*;
use crate::carrier::Carrier;
use crate::context::TraceContext;
use crate::propagator::{inject_spec, TraceContextPropagator};

verus! {

/// Runs once per outgoing call, before it is sent.
#[derive(Clone, Copy, Debug, Default)]
pub struct TracingInterceptor {
    pub propagator: TraceContextPropagator,
}

impl TracingInterceptor {
    pub fn new(propagator: TraceContextPropagator) -> (r: TracingInterceptor)
        ensures
            r.propagator == propagator,
    {
        TracingInterceptor { propagator }
    }

    /// Writes `ambient`, the caller's current context, into the outgoing
    /// metadata; an absent (not valid) context leaves it as it was.
    pub fn call(&self, ambient: &TraceContext, metadata: &mut Carrier)
        ensures
            final(metadata)@ == inject_spec(old(metadata)@, ambient@),
    {
        self.propagator.inject_context(ambient, metadata);
    }
}

} // verus!
