//! The greeting service's handler, run under a span linked to its caller.
use vstd::prelude::*;
use crate::carrier::{lookup, Carrier, Entries};
use crate::context::{all_zero, is_valid, ContextView};
use crate::propagator::{extract_spec, header_name, inject_spec, TraceContextPropagator};
use crate::span::{
    lemma_child_linkage, lemma_root_without_header, server_span_spec, Span, SpanView,
};
use crate::text::push_char;

verus! {

/// `Hello <name>!`
pub open spec fn hello_message(name: Seq<char>) -> Seq<char> {
    seq!['H', 'e', 'l', 'l', 'o', ' '] + name + seq!['!']
}

/// The name the handler's span carries.
pub open spec fn handler_span_name() -> Seq<char> {
    seq!['s', 'a', 'y', '_', 'h', 'e', 'l', 'l', 'o']
}

/// The span a greeting leaves behind for metadata `e` and the given id
/// draws: the server hook's span, ended.
pub open spec fn handled_span(e: Entries, drawn_trace_id: Seq<u8>, drawn_span_id: Seq<u8>) -> SpanView {
    SpanView { ended: true, ..server_span_spec(e, handler_span_name(), drawn_trace_id, drawn_span_id) }
}

/// Child linkage across a whole call: a greeting whose metadata carries the
/// client's valid context `c` ends a span in `c`'s trace, under `c`'s span,
/// with `c`'s flags and a span id of its own.
pub proof fn lemma_greeting_child_linkage(
    e: Entries,
    c: ContextView,
    drawn_trace_id: Seq<u8>,
    drawn_span_id: Seq<u8>,
)
    requires
        is_valid(c),
    ensures
        handled_span(inject_spec(e, c), drawn_trace_id, drawn_span_id).trace_id == c.trace_id,
        handled_span(inject_spec(e, c), drawn_trace_id, drawn_span_id).parent_span_id == Some(
            c.span_id,
        ),
        handled_span(inject_spec(e, c), drawn_trace_id, drawn_span_id).trace_flags
            == c.trace_flags,
        handled_span(inject_spec(e, c), drawn_trace_id, drawn_span_id).span_id != c.span_id,
        handled_span(inject_spec(e, c), drawn_trace_id, drawn_span_id).ended,
{
    lemma_child_linkage(e, c, handler_span_name(), drawn_trace_id, drawn_span_id);
}

/// A greeting whose metadata has no header ends a root span: no parent, and
/// the freshly drawn trace id, so not another trace's id `t` where the draw
/// differs from it.
pub proof fn lemma_greeting_root(
    e: Entries,
    drawn_trace_id: Seq<u8>,
    drawn_span_id: Seq<u8>,
    t: Seq<u8>,
)
    requires
        lookup(e, header_name()).len() == 0,
        drawn_trace_id.len() == 16,
        !all_zero(drawn_trace_id),
        drawn_trace_id != t,
    ensures
        handled_span(e, drawn_trace_id, drawn_span_id).parent_span_id is None,
        handled_span(e, drawn_trace_id, drawn_span_id).trace_id == drawn_trace_id,
        handled_span(e, drawn_trace_id, drawn_span_id).trace_id != t,
        !all_zero(handled_span(e, drawn_trace_id, drawn_span_id).trace_id),
{
    lemma_root_without_header(e, handler_span_name(), drawn_trace_id, drawn_span_id, t);
}

pub struct HelloReply {
    pub message: String,
}

#[derive(Debug, Default)]
pub struct MyGreeter {}

pub fn hello_text(name: &str) -> (r: String)
    ensures
        r@ == hello_message(name@),
{
    let greeting = "Hello ";
    proof {
        reveal_strlit("Hello ");
    }
    let mut out = greeting.to_owned();
    out.append(name);
    push_char(&mut out, '!');
    assert(out@ =~= hello_message(name@));
    out
}

fn handler_name() -> (r: &'static str)
    ensures
        r@ == handler_span_name(),
{
    let n = "say_hello";
    proof {
        reveal_strlit("say_hello");
        assert(n@ =~= handler_span_name());
    }
    n
}

impl MyGreeter {
    pub fn new() -> (r: MyGreeter) {
        MyGreeter {  }
    }

    /// Handles one greeting with the given id draws: starts the
    /// `say_hello` span from the request metadata, builds the reply, and
    /// ends the span.
    pub fn say_hello_with_ids(
        &self,
        propagator: &TraceContextPropagator,
        metadata: &Carrier,
        name: &str,
        drawn_trace_id: Vec<u8>,
        drawn_span_id: Vec<u8>,
    ) -> (r: (HelloReply, Span))
        ensures
            r.0.message@ == hello_message(name@),
            r.1@ == handled_span(metadata@, drawn_trace_id@, drawn_span_id@),
    {
        let mut span = Span::start_from_metadata(
            propagator,
            metadata,
            handler_name(),
            drawn_trace_id,
            drawn_span_id,
        );
        let message = hello_text(name);
        span.end();
        (HelloReply { message }, span)
    }

    /// Handles one greeting: the span is a child of the caller's context
    /// where the metadata holds one, else a new root; it is ended once the
    /// reply is built.
    pub fn say_hello(&self, propagator: &TraceContextPropagator, metadata: &Carrier, name: &str) -> (r: (
        HelloReply,
        Span,
    ))
        ensures
            r.0.message@ == hello_message(name@),
            r.1@.ended,
            r.1@.name == handler_span_name(),
            !all_zero(r.1@.span_id),
            match extract_spec(metadata@) {
                Some(p) => r.1@.trace_id == p.trace_id && r.1@.parent_span_id == Some(p.span_id)
                    && r.1@.trace_flags == p.trace_flags && r.1@.span_id != p.span_id,
                None => r.1@.parent_span_id is None && !all_zero(r.1@.trace_id),
            },
    {
        let mut span = Span::start_server_span(propagator, metadata, handler_name());
        let message = hello_text(name);
        span.end();
        (HelloReply { message }, span)
    }
}

} // verus!
