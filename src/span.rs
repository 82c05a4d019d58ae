//! Spans started by the server hook, linked to the caller's context.
use vstd::prelude::*;
use opentelemetry_sdk::trace::{IdGenerator, RandomIdGenerator};
use crate::carrier::{lookup, Carrier, Entries};
use crate::context::{all_zero, is_all_zero, is_valid, ContextView, TraceContext};
use crate::propagator::{
    extract_spec, header_name, inject_spec, lemma_round_trip, TraceContextPropagator,
};

verus! {

/// The mathematical value of a `Span`.
pub ghost struct SpanView {
    pub trace_id: Seq<u8>,
    pub span_id: Seq<u8>,
    pub parent_span_id: Option<Seq<u8>>,
    pub trace_flags: u8,
    pub name: Seq<char>,
    pub ended: bool,
}

/// One unit of work. Its parent is fixed when it starts; once ended it
/// does not change.
#[derive(Debug)]
pub struct Span {
    trace_id: Vec<u8>,
    span_id: Vec<u8>,
    parent_span_id: Option<Vec<u8>>,
    trace_flags: u8,
    name: String,
    ended: bool,
}

impl View for Span {
    type V = SpanView;

    closed spec fn view(&self) -> SpanView {
        SpanView {
            trace_id: self.trace_id@,
            span_id: self.span_id@,
            parent_span_id: match self.parent_span_id {
                Some(p) => Some(p@),
                None => None,
            },
            trace_flags: self.trace_flags,
            name: self.name@,
            ended: self.ended,
        }
    }
}

/// An id of `n` bytes that is zero but for its last byte.
pub open spec fn fallback_id(n: nat, last: u8) -> Seq<u8> {
    Seq::new(n, |i: int| if i == n - 1 { last } else { 0u8 })
}

/// The span id a new span takes from a drawn value: the draw itself where it
/// has 8 bytes, is not all zero and differs from `avoid` (the parent's span
/// id); otherwise a fixed id that meets the same demands.
pub open spec fn pick_span_id(drawn: Seq<u8>, avoid: Seq<u8>) -> Seq<u8> {
    if drawn.len() == 8 && !all_zero(drawn) && drawn != avoid {
        drawn
    } else if fallback_id(8, 1) != avoid {
        fallback_id(8, 1)
    } else {
        fallback_id(8, 2)
    }
}

/// The trace id a new root span takes from a drawn value.
pub open spec fn pick_trace_id(drawn: Seq<u8>) -> Seq<u8> {
    if drawn.len() == 16 && !all_zero(drawn) {
        drawn
    } else {
        fallback_id(16, 1)
    }
}

/// The span that the server hook starts for a call whose metadata is `e`:
/// a child of the context the metadata holds, or else a new sampled root.
pub open spec fn server_span_spec(
    e: Entries,
    name: Seq<char>,
    drawn_trace_id: Seq<u8>,
    drawn_span_id: Seq<u8>,
) -> SpanView {
    match extract_spec(e) {
        Some(p) => SpanView {
            trace_id: p.trace_id,
            span_id: pick_span_id(drawn_span_id, p.span_id),
            parent_span_id: Some(p.span_id),
            trace_flags: p.trace_flags,
            name,
            ended: false,
        },
        None => SpanView {
            trace_id: pick_trace_id(drawn_trace_id),
            span_id: pick_span_id(drawn_span_id, Seq::empty()),
            parent_span_id: None,
            trace_flags: 1,
            name,
            ended: false,
        },
    }
}

/// The picked span id has 8 bytes, is not all zero and is not `avoid`.
pub proof fn lemma_pick_span_id(drawn: Seq<u8>, avoid: Seq<u8>)
    ensures
        pick_span_id(drawn, avoid).len() == 8,
        !all_zero(pick_span_id(drawn, avoid)),
        pick_span_id(drawn, avoid) != avoid,
{
    assert(fallback_id(8, 1)[7] != 0);
    assert(fallback_id(8, 2)[7] != 0);
    if fallback_id(8, 1) == avoid {
        assert(fallback_id(8, 2)[7] != fallback_id(8, 1)[7]);
    }
}

/// The picked trace id has 16 bytes and is not all zero.
pub proof fn lemma_pick_trace_id(drawn: Seq<u8>)
    ensures
        pick_trace_id(drawn).len() == 16,
        !all_zero(pick_trace_id(drawn)),
{
    assert(fallback_id(16, 1)[15] != 0);
}

/// Child linkage: a server span started from metadata into which a valid
/// context `c` was written continues `c`'s trace under `c`'s span, with a
/// span id of its own.
pub proof fn lemma_child_linkage(
    e: Entries,
    c: ContextView,
    name: Seq<char>,
    drawn_trace_id: Seq<u8>,
    drawn_span_id: Seq<u8>,
)
    requires
        is_valid(c),
    ensures
        server_span_spec(inject_spec(e, c), name, drawn_trace_id, drawn_span_id).trace_id
            == c.trace_id,
        server_span_spec(inject_spec(e, c), name, drawn_trace_id, drawn_span_id).parent_span_id
            == Some(c.span_id),
        server_span_spec(inject_spec(e, c), name, drawn_trace_id, drawn_span_id).trace_flags
            == c.trace_flags,
        server_span_spec(inject_spec(e, c), name, drawn_trace_id, drawn_span_id).span_id
            != c.span_id,
        !all_zero(
            server_span_spec(inject_spec(e, c), name, drawn_trace_id, drawn_span_id).span_id,
        ),
{
    lemma_round_trip(e, c);
    lemma_pick_span_id(drawn_span_id, c.span_id);
}

/// A server span started from metadata without the header is a root: no
/// parent, and the freshly drawn trace id, so another trace's id `t` where
/// the draw differs from it.
pub proof fn lemma_root_without_header(
    e: Entries,
    name: Seq<char>,
    drawn_trace_id: Seq<u8>,
    drawn_span_id: Seq<u8>,
    t: Seq<u8>,
)
    requires
        lookup(e, header_name()).len() == 0,
        drawn_trace_id.len() == 16,
        !all_zero(drawn_trace_id),
        drawn_trace_id != t,
    ensures
        server_span_spec(e, name, drawn_trace_id, drawn_span_id).parent_span_id is None,
        server_span_spec(e, name, drawn_trace_id, drawn_span_id).trace_id == drawn_trace_id,
        server_span_spec(e, name, drawn_trace_id, drawn_span_id).trace_id != t,
{
}

/// Relies on opentelemetry_sdk's `RandomIdGenerator::new_trace_id`: a
/// random trace id, as its 16 bytes.
#[verifier::external_body]
fn random_trace_id() -> (r: Vec<u8>)
    ensures
        r@.len() == 16,
{
    RandomIdGenerator::default().new_trace_id().to_bytes().to_vec()
}

/// Relies on opentelemetry_sdk's `RandomIdGenerator::new_span_id`: a
/// random span id, as its 8 bytes.
#[verifier::external_body]
fn random_span_id() -> (r: Vec<u8>)
    ensures
        r@.len() == 8,
{
    RandomIdGenerator::default().new_span_id().to_bytes().to_vec()
}

fn bytes_equal(a: &Vec<u8>, b: &Vec<u8>) -> (r: bool)
    ensures
        r == (a@ == b@),
{
    if a.len() != b.len() {
        return false;
    }
    let mut i: usize = 0;
    while i < a.len()
        invariant
            a@.len() == b@.len(),
            i <= a@.len(),
            forall|k: int| 0 <= k < i ==> a@[k] == b@[k],
        decreases a@.len() - i,
    {
        if a[i] != b[i] {
            return false;
        }
        i = i + 1;
    }
    assert(a@ =~= b@);
    true
}

fn copy_bytes(a: &Vec<u8>) -> (r: Vec<u8>)
    ensures
        r@ == a@,
{
    let mut out: Vec<u8> = Vec::new();
    let mut i: usize = 0;
    while i < a.len()
        invariant
            i <= a@.len(),
            out@ =~= a@.subrange(0, i as int),
        decreases a@.len() - i,
    {
        out.push(a[i]);
        i = i + 1;
    }
    assert(a@.subrange(0, a@.len() as int) =~= a@);
    out
}

fn fallback(n: usize, last: u8) -> (r: Vec<u8>)
    requires
        n > 0,
    ensures
        r@ == fallback_id(n as nat, last),
{
    let mut out: Vec<u8> = Vec::new();
    let mut i: usize = 0;
    while i < n
        invariant
            i <= n,
            out@.len() == i,
            forall|k: int| 0 <= k < i ==> out@[k] == fallback_id(n as nat, last)[k],
        decreases n - i,
    {
        if i == n - 1 {
            out.push(last);
        } else {
            out.push(0);
        }
        i = i + 1;
    }
    assert(out@ =~= fallback_id(n as nat, last));
    out
}

/// The span id for a new span (see `pick_span_id`).
pub fn choose_span_id(drawn: Vec<u8>, avoid: &Vec<u8>) -> (r: Vec<u8>)
    ensures
        r@ == pick_span_id(drawn@, avoid@),
{
    if drawn.len() == 8 && !is_all_zero(&drawn) && !bytes_equal(&drawn, avoid) {
        drawn
    } else {
        let one = fallback(8, 1);
        if !bytes_equal(&one, avoid) {
            one
        } else {
            fallback(8, 2)
        }
    }
}

/// The trace id for a new root span (see `pick_trace_id`).
pub fn choose_trace_id(drawn: Vec<u8>) -> (r: Vec<u8>)
    ensures
        r@ == pick_trace_id(drawn@),
{
    if drawn.len() == 16 && !is_all_zero(&drawn) {
        drawn
    } else {
        fallback(16, 1)
    }
}

impl Span {
    /// The server hook: reads the caller's context from `metadata` and
    /// starts a span named `name` as its child, or as a new root where the
    /// metadata holds none. Ids are taken from the draws as
    /// `server_span_spec` says.
    pub fn start_from_metadata(
        propagator: &TraceContextPropagator,
        metadata: &Carrier,
        name: &str,
        drawn_trace_id: Vec<u8>,
        drawn_span_id: Vec<u8>,
    ) -> (r: Span)
        ensures
            r@ == server_span_spec(metadata@, name@, drawn_trace_id@, drawn_span_id@),
    {
        match propagator.extract(metadata) {
            Some(parent) => {
                let span_id = choose_span_id(drawn_span_id, &parent.span_id);
                let parent_span_id = copy_bytes(&parent.span_id);
                Span {
                    trace_id: parent.trace_id,
                    span_id,
                    parent_span_id: Some(parent_span_id),
                    trace_flags: parent.trace_flags,
                    name: name.to_owned(),
                    ended: false,
                }
            },
            None => {
                let no_parent: Vec<u8> = Vec::new();
                let span_id = choose_span_id(drawn_span_id, &no_parent);
                Span {
                    trace_id: choose_trace_id(drawn_trace_id),
                    span_id,
                    parent_span_id: None,
                    trace_flags: 1,
                    name: name.to_owned(),
                    ended: false,
                }
            },
        }
    }

    /// The server hook with freshly drawn random ids: a child of the
    /// metadata's context with a new span id, or a root with new ids.
    pub fn start_server_span(propagator: &TraceContextPropagator, metadata: &Carrier, name: &str) -> (r: Span)
        ensures
            r@.name == name@,
            !r@.ended,
            r@.span_id.len() == 8,
            !all_zero(r@.span_id),
            match extract_spec(metadata@) {
                Some(p) => r@.trace_id == p.trace_id && r@.parent_span_id == Some(p.span_id)
                    && r@.trace_flags == p.trace_flags && r@.span_id != p.span_id,
                None => r@.parent_span_id is None && r@.trace_id.len() == 16 && !all_zero(
                    r@.trace_id,
                ),
            },
    {
        let t = random_trace_id();
        let s = random_span_id();
        let r = Span::start_from_metadata(propagator, metadata, name, t, s);
        proof {
            lemma_pick_trace_id(t@);
            match extract_spec(metadata@) {
                Some(p) => lemma_pick_span_id(s@, p.span_id),
                None => lemma_pick_span_id(s@, Seq::empty()),
            }
        }
        r
    }

    /// Ends the span; nothing else about it changes.
    pub fn end(&mut self)
        requires
            !old(self)@.ended,
        ensures
            final(self)@ == (SpanView { ended: true, ..old(self)@ }),
    {
        self.ended = true;
    }

    /// The context that this span hands on to the calls it makes.
    pub fn context(&self) -> (r: TraceContext)
        ensures
            r@ == (ContextView {
                trace_id: self@.trace_id,
                span_id: self@.span_id,
                trace_flags: self@.trace_flags,
                remote: false,
            }),
    {
        TraceContext {
            trace_id: copy_bytes(&self.trace_id),
            span_id: copy_bytes(&self.span_id),
            trace_flags: self.trace_flags,
            remote: false,
        }
    }

    pub fn trace_id(&self) -> (r: &Vec<u8>)
        ensures
            r@ == self@.trace_id,
    {
        &self.trace_id
    }

    pub fn span_id(&self) -> (r: &Vec<u8>)
        ensures
            r@ == self@.span_id,
    {
        &self.span_id
    }

    pub fn parent_span_id(&self) -> (r: Option<Vec<u8>>)
        ensures
            match r {
                Some(p) => self@.parent_span_id == Some(p@),
                None => self@.parent_span_id is None,
            },
    {
        match &self.parent_span_id {
            Some(p) => Some(copy_bytes(p)),
            None => None,
        }
    }

    pub fn trace_flags(&self) -> (r: u8)
        ensures
            r == self@.trace_flags,
    {
        self.trace_flags
    }

    pub fn name(&self) -> (r: &str)
        ensures
            r@ == self@.name,
    {
        self.name.as_str()
    }

    pub fn is_ended(&self) -> (r: bool)
        ensures
            r == self@.ended,
    {
        self.ended
    }
}

} // verus!
