use std::collections::HashMap;

use opentelemetry::propagation::TextMapPropagator;
use opentelemetry::trace::{SpanContext, SpanId, TraceContextExt, TraceFlags, TraceId, TraceState};
use opentelemetry::Context;
use trace_propagation::carrier::Carrier;
use trace_propagation::context::{format_traceparent, TraceContext};
use trace_propagation::propagator::TraceContextPropagator;

fn sample(flags: u8) -> TraceContext {
    TraceContext {
        trace_id: vec![0x4b, 0xf9, 0x2f, 0x35, 0x77, 0xb3, 0x4d, 0xa6, 0xa3, 0xce, 0x92, 0x9d, 0x0e, 0x0e, 0x47, 0x36],
        span_id: vec![0x00, 0xf0, 0x67, 0xaa, 0x0b, 0xa9, 0x02, 0xb7],
        trace_flags: flags,
        remote: false,
    }
}

#[test]
fn text_matches_opentelemetry_inject() {
    for flags in [0u8, 1u8] {
        let ctx = sample(flags);
        let mut trace_id = [0u8; 16];
        trace_id.copy_from_slice(&ctx.trace_id);
        let mut span_id = [0u8; 8];
        span_id.copy_from_slice(&ctx.span_id);
        let sc = SpanContext::new(
            TraceId::from_bytes(trace_id),
            SpanId::from_bytes(span_id),
            TraceFlags::new(flags),
            false,
            TraceState::default(),
        );
        let cx = Context::new().with_remote_span_context(sc);
        let mut headers: HashMap<String, String> = HashMap::new();
        opentelemetry_sdk::propagation::TraceContextPropagator::new().inject_context(&cx, &mut headers);
        assert_eq!(headers.get("traceparent"), Some(&format_traceparent(&ctx)));
    }
}

#[test]
fn opentelemetry_reads_what_the_library_writes() {
    let ctx = sample(1);
    let mut carrier = Carrier::new();
    TraceContextPropagator::new().inject_context(&ctx, &mut carrier);
    let mut headers: HashMap<String, String> = HashMap::new();
    headers.insert("traceparent".to_string(), carrier.get("traceparent").unwrap());
    let cx = opentelemetry_sdk::propagation::TraceContextPropagator::new().extract(&headers);
    let span = cx.span();
    let sc = span.span_context();
    assert!(sc.is_valid());
    assert!(sc.is_remote());
    assert_eq!(sc.trace_id().to_bytes().to_vec(), ctx.trace_id);
    assert_eq!(sc.span_id().to_bytes().to_vec(), ctx.span_id);
    assert!(sc.is_sampled());
}
