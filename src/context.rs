//! The trace context and its `traceparent` text form
//! (`vv-<32 hex trace id>-<16 hex span id>-<2 hex flags>`).
use vstd::prelude::*;
use crate::hex::{
    byte_at, byte_hex, digit_value_exec, hex_of, is_hex_digit, is_hex_digit_exec,
    lemma_hex_of, lemma_hex_of_reads_back, push_byte_hex, push_hex,
};
use crate::text::push_char;

verus! {

/// The identity of a span as it travels between processes.
#[derive(Clone, Debug, PartialEq, Eq)]
pub struct TraceContext {
    /// 16 bytes; all zero means "no trace".
    pub trace_id: Vec<u8>,
    /// 8 bytes.
    pub span_id: Vec<u8>,
    pub trace_flags: u8,
    /// Set on a context read from an incoming carrier.
    pub remote: bool,
}

/// The mathematical value of a `TraceContext`.
pub ghost struct ContextView {
    pub trace_id: Seq<u8>,
    pub span_id: Seq<u8>,
    pub trace_flags: u8,
    pub remote: bool,
}

impl View for TraceContext {
    type V = ContextView;

    open spec fn view(&self) -> ContextView {
        ContextView {
            trace_id: self.trace_id@,
            span_id: self.span_id@,
            trace_flags: self.trace_flags,
            remote: self.remote,
        }
    }
}

pub open spec fn all_zero(b: Seq<u8>) -> bool {
    forall|i: int| 0 <= i < b.len() ==> b[i] == 0
}

/// A context that stands for a live span: ids of the right sizes, neither all zero.
pub open spec fn is_valid(c: ContextView) -> bool {
    c.trace_id.len() == 16 && c.span_id.len() == 8 && !all_zero(c.trace_id) && !all_zero(
        c.span_id,
    )
}

/// The `traceparent` text of a context, version `00`.
pub open spec fn traceparent_of(c: ContextView) -> Seq<char> {
    seq!['0', '0', '-'] + hex_of(c.trace_id) + seq!['-'] + hex_of(c.span_id) + seq!['-']
        + byte_hex(c.trace_flags)
}

/// What position `i` of a version-`00` `traceparent` must hold.
pub open spec fn fits_at(s: Seq<char>, i: int) -> bool {
    if i == 0 || i == 1 {
        s[i] == '0'
    } else if i == 2 || i == 35 || i == 52 {
        s[i] == '-'
    } else {
        is_hex_digit(s[i])
    }
}

/// The shape of a version-`00` `traceparent`: 55 characters, separators and
/// lower-case hex digits in place.
pub open spec fn is_traceparent_shape(s: Seq<char>) -> bool {
    s.len() == 55 && forall|i: int| 0 <= i < 55 ==> fits_at(s, i)
}

/// The `count` bytes spelt in hex from position `start` on.
pub open spec fn bytes_from(s: Seq<char>, start: int, count: nat) -> Seq<u8> {
    Seq::new(count, |k: int| byte_at(s, start + 2 * k))
}

/// The context that a `traceparent` value denotes, if any: a well-shaped
/// value whose trace id and span id are not all zero.
pub open spec fn parse_spec(s: Seq<char>) -> Option<ContextView> {
    if is_traceparent_shape(s) {
        let c = ContextView {
            trace_id: bytes_from(s, 3, 16),
            span_id: bytes_from(s, 36, 8),
            trace_flags: byte_at(s, 53),
            remote: true,
        };
        if is_valid(c) {
            Some(c)
        } else {
            None
        }
    } else {
        None
    }
}

/// `c` as read back on the receiving side.
pub open spec fn as_remote(c: ContextView) -> ContextView {
    ContextView { remote: true, ..c }
}

/// Reading back the `traceparent` of a valid context gives the context
/// itself, marked remote.
pub proof fn lemma_parse_traceparent(c: ContextView)
    requires
        is_valid(c),
    ensures
        parse_spec(traceparent_of(c)) == Some(as_remote(c)),
{
    let s = traceparent_of(c);
    let t = hex_of(c.trace_id);
    let p = hex_of(c.span_id);
    let f = byte_hex(c.trace_flags);
    lemma_hex_of(c.trace_id);
    lemma_hex_of(c.span_id);
    lemma_hex_of_reads_back(c.trace_id);
    lemma_hex_of_reads_back(c.span_id);
    lemma_hex_of(seq![c.trace_flags]);
    lemma_hex_of_reads_back(seq![c.trace_flags]);
    assert(hex_of(seq![c.trace_flags]) =~= f) by {
        assert(seq![c.trace_flags].drop_last() =~= Seq::<u8>::empty());
    }
    assert(s.len() == 55);
    assert forall|i: int| 0 <= i < 55 implies fits_at(s, i) by {
        if 3 <= i < 35 {
            assert(s[i] == t[i - 3]);
        } else if 36 <= i < 52 {
            assert(s[i] == p[i - 36]);
        } else if 53 <= i < 55 {
            assert(s[i] == f[i - 53]);
        }
    }
    assert forall|k: int| 0 <= k < 16 implies byte_at(s, 3 + 2 * k) == #[trigger] c.trace_id[k] by {
        assert(s[3 + 2 * k] == t[2 * k]);
        assert(s[3 + 2 * k + 1] == t[2 * k + 1]);
    }
    assert forall|k: int| 0 <= k < 8 implies byte_at(s, 36 + 2 * k) == #[trigger] c.span_id[k] by {
        assert(s[36 + 2 * k] == p[2 * k]);
        assert(s[36 + 2 * k + 1] == p[2 * k + 1]);
    }
    assert(byte_at(s, 53) == seq![c.trace_flags][0]) by {
        assert(s[53] == f[0]);
        assert(s[54] == f[1]);
    }
    assert(bytes_from(s, 3, 16) =~= c.trace_id);
    assert(bytes_from(s, 36, 8) =~= c.span_id);
}

/// Distinct byte strings of one length have distinct hex texts.
pub proof fn lemma_hex_of_injective(a: Seq<u8>, b: Seq<u8>)
    requires
        a.len() == b.len(),
        a != b,
    ensures
        hex_of(a) != hex_of(b),
{
    lemma_hex_of_reads_back(a);
    lemma_hex_of_reads_back(b);
    if hex_of(a) == hex_of(b) {
        assert forall|i: int| 0 <= i < a.len() implies a[i] == b[i] by {
            assert(byte_at(hex_of(a), 2 * i) == a[i]);
            assert(byte_at(hex_of(b), 2 * i) == b[i]);
        }
        assert(a =~= b);
    }
}

/// Whether every byte of `b` is zero.
pub fn is_all_zero(b: &Vec<u8>) -> (r: bool)
    ensures
        r == all_zero(b@),
{
    let mut i: usize = 0;
    while i < b.len()
        invariant
            i <= b@.len(),
            forall|k: int| 0 <= k < i ==> b@[k] == 0,
        decreases b@.len() - i,
    {
        if b[i] != 0 {
            return false;
        }
        i = i + 1;
    }
    true
}

impl TraceContext {
    /// Whether this context stands for a live span (see `is_valid`).
    pub fn is_valid(&self) -> (r: bool)
        ensures
            r == is_valid(self@),
    {
        self.trace_id.len() == 16 && self.span_id.len() == 8 && !is_all_zero(&self.trace_id)
            && !is_all_zero(&self.span_id)
    }
}

/// The `traceparent` text of `ctx`.
pub fn format_traceparent(ctx: &TraceContext) -> (r: String)
    ensures
        r@ == traceparent_of(ctx@),
{
    let mut out = String::new();
    push_char(&mut out, '0');
    push_char(&mut out, '0');
    push_char(&mut out, '-');
    push_hex(&mut out, &ctx.trace_id);
    push_char(&mut out, '-');
    push_hex(&mut out, &ctx.span_id);
    push_char(&mut out, '-');
    push_byte_hex(&mut out, ctx.trace_flags);
    assert(out@ =~= traceparent_of(ctx@));
    out
}

fn fits_at_exec(s: &str, i: usize) -> (r: bool)
    requires
        i < s@.len(),
    ensures
        r == fits_at(s@, i as int),
{
    let c = s.get_char(i);
    if i == 0 || i == 1 {
        c == '0'
    } else if i == 2 || i == 35 || i == 52 {
        c == '-'
    } else {
        is_hex_digit_exec(c)
    }
}

/// The bytes spelt by `2 * count` hex digits of `s` from `start` on.
fn read_bytes(s: &str, start: usize, count: usize) -> (r: Vec<u8>)
    requires
        start + 2 * count <= s@.len() <= 55,
        forall|i: int| start <= i < start + 2 * count ==> is_hex_digit(#[trigger] s@[i]),
    ensures
        r@ == bytes_from(s@, start as int, count as nat),
{
    let mut out: Vec<u8> = Vec::new();
    let mut k: usize = 0;
    while k < count
        invariant
            k <= count,
            start + 2 * count <= s@.len() <= 55,
            forall|i: int| start <= i < start + 2 * count ==> is_hex_digit(#[trigger] s@[i]),
            out@ =~= bytes_from(s@, start as int, k as nat),
        decreases count - k,
    {
        let hi = digit_value_exec(s.get_char(start + 2 * k));
        let lo = digit_value_exec(s.get_char(start + 2 * k + 1));
        out.push(hi * 16 + lo);
        k = k + 1;
        assert(out@ =~= bytes_from(s@, start as int, k as nat));
    }
    out
}

/// The context that the `traceparent` value `s` denotes, or `None` where
/// `s` is malformed: wrong length, a misplaced separator, a character that
/// is not a lower-case hex digit, a version other than `00`, or an all-zero
/// trace id or span id.
pub fn parse_traceparent(s: &str) -> (r: Option<TraceContext>)
    ensures
        match r {
            Some(c) => parse_spec(s@) == Some(c@),
            None => parse_spec(s@) is None,
        },
{
    let n = s.unicode_len();
    if n != 55 {
        return None;
    }
    let mut i: usize = 0;
    while i < 55
        invariant
            n == s@.len(),
            n == 55,
            i <= 55,
            forall|k: int| 0 <= k < i ==> fits_at(s@, k),
        decreases 55 - i,
    {
        if !fits_at_exec(s, i) {
            return None;
        }
        i = i + 1;
    }
    assert forall|k: int| 3 <= k < 35 implies is_hex_digit(#[trigger] s@[k]) by {
        assert(fits_at(s@, k));
    }
    assert forall|k: int| 36 <= k < 52 implies is_hex_digit(#[trigger] s@[k]) by {
        assert(fits_at(s@, k));
    }
    assert forall|k: int| 53 <= k < 55 implies is_hex_digit(#[trigger] s@[k]) by {
        assert(fits_at(s@, k));
    }
    let trace_id = read_bytes(s, 3, 16);
    let span_id = read_bytes(s, 36, 8);
    let flags = read_bytes(s, 53, 1);
    let ctx = TraceContext { trace_id, span_id, trace_flags: flags[0], remote: true };
    if ctx.is_valid() {
        assert(ctx@ == parse_spec(s@)->0);
        Some(ctx)
    } else {
        None
    }
}

} // verus!
