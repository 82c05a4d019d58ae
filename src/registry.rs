//! The slot that holds the process's propagator. The process-wide instance
//! lives with the program; the rules of the slot are here: the last install
//! wins, and with nothing installed writing and reading a context do nothing.
use vstd::prelude::*;
use crate::carrier::Carrier;
use crate::context::{all_zero, TraceContext};
use crate::span::Span;
use crate::propagator::{extract_spec, inject_spec, TraceContextPropagator};

verus! {

pub struct PropagatorRegistry {
    pub installed: Option<TraceContextPropagator>,
}

impl PropagatorRegistry {
    /// A registry with nothing installed.
    pub fn new() -> (r: PropagatorRegistry)
        ensures
            r.installed is None,
    {
        PropagatorRegistry { installed: None }
    }

    /// Installs `propagator`, replacing any earlier one.
    pub fn set_global_propagator(&mut self, propagator: TraceContextPropagator)
        ensures
            final(self).installed == Some(propagator),
    {
        self.installed = Some(propagator);
    }

    /// Writes `ctx` through the installed propagator; with none installed
    /// the carrier is left as it was.
    pub fn inject_context(&self, ctx: &TraceContext, carrier: &mut Carrier)
        ensures
            final(carrier)@ == (if self.installed is Some {
                inject_spec(old(carrier)@, ctx@)
            } else {
                old(carrier)@
            }),
    {
        match &self.installed {
            Some(p) => p.inject_context(ctx, carrier),
            None => {},
        }
    }

    /// Reads a context through the installed propagator; with none
    /// installed there is none.
    pub fn extract(&self, carrier: &Carrier) -> (r: Option<TraceContext>)
        ensures
            match r {
                Some(c) => self.installed is Some && extract_spec(carrier@) == Some(c@),
                None => self.installed is None || extract_spec(carrier@) is None,
            },
    {
        match &self.installed {
            Some(p) => p.extract(carrier),
            None => None,
        }
    }

    /// The server hook through the installed propagator: a child of the
    /// metadata's context, or a new root where there is none or nothing is
    /// installed. Ids are drawn at random.
    pub fn start_server_span(&self, metadata: &Carrier, name: &str) -> (r: Span)
        ensures
            r@.name == name@,
            !r@.ended,
            r@.span_id.len() == 8,
            !all_zero(r@.span_id),
            match (self.installed, extract_spec(metadata@)) {
                (Some(_), Some(p)) => r@.trace_id == p.trace_id && r@.parent_span_id == Some(
                    p.span_id,
                ) && r@.trace_flags == p.trace_flags && r@.span_id != p.span_id,
                _ => r@.parent_span_id is None && r@.trace_id.len() == 16 && !all_zero(
                    r@.trace_id,
                ),
            },
    {
        match &self.installed {
            Some(p) => Span::start_server_span(p, metadata, name),
            None => {
                let nothing = Carrier::new();
                proof {
                    crate::propagator::lemma_absent(nothing@);
                }
                Span::start_server_span(&TraceContextPropagator::new(), &nothing, name)
            },
        }
    }
}

} // verus!
