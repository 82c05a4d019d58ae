//! Writing a trace context into a carrier and reading it back.
use vstd::prelude::*;
use crate::carrier::{
    lookup, set_spec, valid_key, valid_value, values_of, without_key, Carrier, Entries,
};
use crate::context::{
    as_remote, bytes_from, fits_at, is_traceparent_shape, is_valid, lemma_hex_of_injective,
    lemma_parse_traceparent, parse_spec, parse_traceparent, traceparent_of, ContextView,
    TraceContext, format_traceparent,
};
use crate::hex::{hex_of, is_hex_digit};
use crate::text::lower;

verus! {

/// The one carrier key that holds the encoded context.
pub open spec fn header_name() -> Seq<char> {
    seq!['t', 'r', 'a', 'c', 'e', 'p', 'a', 'r', 'e', 'n', 't']
}

pub fn traceparent_header() -> (r: &'static str)
    ensures
        r@ == header_name(),
{
    let h = "traceparent";
    proof {
        reveal_strlit("traceparent");
        assert(h@ =~= header_name());
    }
    h
}

/// The first value in `vs` that reads as a context.
pub open spec fn first_parsed(vs: Seq<Seq<char>>) -> Option<ContextView>
    decreases vs.len(),
{
    if vs.len() == 0 {
        None
    } else {
        match parse_spec(vs[0]) {
            Some(c) => Some(c),
            None => first_parsed(vs.drop_first()),
        }
    }
}

/// The context that a carrier holds: the first well-formed value under the
/// header; none where there is no header or no value reads.
pub open spec fn extract_spec(e: Entries) -> Option<ContextView> {
    first_parsed(lookup(e, header_name()))
}

/// The carrier after a context is written into it: a valid context replaces
/// whatever the header held, any other leaves the carrier as it was.
pub open spec fn inject_spec(e: Entries, c: ContextView) -> Entries {
    if is_valid(c) {
        set_spec(e, header_name(), traceparent_of(c))
    } else {
        e
    }
}

/// The codec between trace contexts and carriers.
#[derive(Clone, Copy, Debug, Default)]
pub struct TraceContextPropagator {}

impl TraceContextPropagator {
    pub fn new() -> (r: TraceContextPropagator) {
        TraceContextPropagator {  }
    }

    /// Writes `ctx` under the header; a context that is not valid writes nothing.
    pub fn inject_context(&self, ctx: &TraceContext, carrier: &mut Carrier)
        ensures
            final(carrier)@ == inject_spec(old(carrier)@, ctx@),
    {
        if ctx.is_valid() {
            let value = format_traceparent(ctx);
            carrier.set(traceparent_header(), value.as_str());
        }
    }

    /// Reads the context that `carrier` holds (see `extract_spec`); any
    /// malformed value is passed over, never reported.
    pub fn extract(&self, carrier: &Carrier) -> (r: Option<TraceContext>)
        ensures
            match r {
                Some(c) => extract_spec(carrier@) == Some(c@),
                None => extract_spec(carrier@) is None,
            },
    {
        let vs = carrier.get_all(traceparent_header());
        let ghost sv = lookup(carrier@, header_name());
        proof {
            assert forall|j: int| 0 <= j < sv.len() implies sv[j] == #[trigger] vs@[j]@ by {
                assert(crate::carrier::strings_view(vs@)[j] == vs@[j]@);
            }
            assert(sv.subrange(0, sv.len() as int) =~= sv);
        }
        let mut i: usize = 0;
        while i < vs.len()
            invariant
                i <= vs@.len(),
                sv == lookup(carrier@, header_name()),
                sv.len() == vs@.len(),
                forall|j: int| 0 <= j < sv.len() ==> sv[j] == #[trigger] vs@[j]@,
                first_parsed(sv) == first_parsed(sv.subrange(i as int, sv.len() as int)),
            decreases vs@.len() - i,
        {
            let ghost rest = sv.subrange(i as int, sv.len() as int);
            assert(rest.drop_first() =~= sv.subrange(i + 1, sv.len() as int));
            assert(rest[0] == vs@[i as int]@);
            match parse_traceparent(vs[i].as_str()) {
                Some(c) => {
                    assert(first_parsed(rest) == Some(c@));
                    return Some(c);
                },
                None => {},
            }
            i = i + 1;
        }
        None
    }
}

proof fn lemma_header_lower()
    ensures
        lower(header_name()) == header_name(),
        valid_key(header_name()),
{
    assert(lower(header_name()) =~= header_name());
}

proof fn lemma_values_without_key(e: Entries, k: Seq<char>)
    ensures
        values_of(without_key(e, k), k) == Seq::<Seq<char>>::empty(),
    decreases e.len(),
{
    if e.len() > 0 {
        lemma_values_without_key(e.drop_last(), k);
        if e.last().0 != k {
            let w = without_key(e.drop_last(), k).push(e.last());
            assert(w.drop_last() =~= without_key(e.drop_last(), k));
        }
    }
}

/// The header value of a valid context can be held by any carrier.
proof fn lemma_traceparent_value(c: ContextView)
    requires
        is_valid(c),
    ensures
        valid_value(traceparent_of(c)),
{
    let s = traceparent_of(c);
    lemma_parse_traceparent(c);
    assert(is_traceparent_shape(s));
    assert forall|i: int| 0 <= i < s.len() implies (' ' <= #[trigger] s[i] && s[i] <= '~') || s[i]
        == '\t' by {
        assert(fits_at(s, i));
    }
}

/// After a valid context is written, the header holds exactly its text.
pub proof fn lemma_inject_header(e: Entries, c: ContextView)
    requires
        is_valid(c),
    ensures
        lookup(inject_spec(e, c), header_name()) == seq![traceparent_of(c)],
{
    lemma_header_lower();
    lemma_traceparent_value(c);
    let k = header_name();
    let w = without_key(e, k).push((k, traceparent_of(c)));
    lemma_values_without_key(e, k);
    assert(w.drop_last() =~= without_key(e, k));
    assert(values_of(w, k) =~= seq![traceparent_of(c)]);
}

/// Round trip: reading back what a valid context wrote gives its trace id,
/// span id and flags, marked remote. Entries of other keys do not matter.
pub proof fn lemma_round_trip(e: Entries, c: ContextView)
    requires
        is_valid(c),
    ensures
        extract_spec(inject_spec(e, c)) == Some(as_remote(c)),
{
    lemma_inject_header(e, c);
    lemma_parse_traceparent(c);
}

/// A carrier without the header holds no context.
pub proof fn lemma_absent(e: Entries)
    requires
        lookup(e, header_name()).len() == 0,
    ensures
        extract_spec(e) is None,
{
}

/// A lone header value of the wrong length, with a character that is not a
/// lower-case hex digit where one belongs, or with an all-zero trace id,
/// gives no context.
pub proof fn lemma_malformed_absent(e: Entries, v: Seq<char>)
    requires
        lookup(e, header_name()) == seq![v],
        v.len() != 55 || (exists|i: int|
            0 <= i < v.len() && i != 2 && i != 35 && i != 52 && !is_hex_digit(#[trigger] v[i]))
            || (forall|i: int| 3 <= i < 35 ==> #[trigger] v[i] == '0'),
    ensures
        extract_spec(e) is None,
{
    assert(seq![v].drop_first() =~= Seq::<Seq<char>>::empty());
    reveal_with_fuel(first_parsed, 2);
    if is_traceparent_shape(v) {
        if exists|i: int|
            0 <= i < v.len() && i != 2 && i != 35 && i != 52 && !is_hex_digit(#[trigger] v[i]) {
            let i = choose|i: int|
                0 <= i < v.len() && i != 2 && i != 35 && i != 52 && !is_hex_digit(
                    #[trigger] v[i],
                );
            assert(fits_at(v, i));
        } else {
            let t = bytes_from(v, 3, 16);
            assert forall|k: int| 0 <= k < 16 implies t[k] == 0 by {
                assert(v[3 + 2 * k] == '0');
                assert(v[3 + 2 * k + 1] == '0');
            }
            assert(crate::context::all_zero(t));
        }
    }
}

/// Of two header values, one malformed and one well-formed, the well-formed
/// one is read, in either order.
pub proof fn lemma_well_formed_wins(e: Entries, v1: Seq<char>, v2: Seq<char>)
    requires
        lookup(e, header_name()) == seq![v1, v2],
        parse_spec(v1) is None <==> parse_spec(v2) is Some,
    ensures
        extract_spec(e) == (if parse_spec(v1) is Some {
            parse_spec(v1)
        } else {
            parse_spec(v2)
        }),
{
    assert(seq![v1, v2].drop_first() =~= seq![v2]);
    assert(seq![v2].drop_first() =~= Seq::<Seq<char>>::empty());
    reveal_with_fuel(first_parsed, 3);
}

/// Two calls that write distinct contexts into their own carriers: each
/// carrier's header holds only its own context's text, each reads back as
/// its own context, and the two texts carry different ids.
pub proof fn lemma_isolation(e1: Entries, e2: Entries, a: ContextView, b: ContextView)
    requires
        is_valid(a),
        is_valid(b),
        a.span_id != b.span_id,
    ensures
        lookup(inject_spec(e1, a), header_name()) == seq![traceparent_of(a)],
        lookup(inject_spec(e2, b), header_name()) == seq![traceparent_of(b)],
        extract_spec(inject_spec(e1, a)) == Some(as_remote(a)),
        extract_spec(inject_spec(e2, b)) == Some(as_remote(b)),
        traceparent_of(a).subrange(36, 52) == hex_of(a.span_id),
        traceparent_of(b).subrange(36, 52) == hex_of(b.span_id),
        hex_of(a.span_id) != hex_of(b.span_id),
        a.trace_id != b.trace_id ==> hex_of(a.trace_id) != hex_of(b.trace_id),
{
    lemma_inject_header(e1, a);
    lemma_inject_header(e2, b);
    lemma_round_trip(e1, a);
    lemma_round_trip(e2, b);
    crate::hex::lemma_hex_of(a.trace_id);
    crate::hex::lemma_hex_of(a.span_id);
    crate::hex::lemma_hex_of(b.trace_id);
    crate::hex::lemma_hex_of(b.span_id);
    assert(traceparent_of(a).subrange(36, 52) =~= hex_of(a.span_id));
    assert(traceparent_of(b).subrange(36, 52) =~= hex_of(b.span_id));
    lemma_hex_of_injective(a.span_id, b.span_id);
    if a.trace_id != b.trace_id {
        lemma_hex_of_injective(a.trace_id, b.trace_id);
    }
}

} // verus!
