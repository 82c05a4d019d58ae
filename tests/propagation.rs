use trace_propagation::carrier::Carrier;
use trace_propagation::context::{format_traceparent, parse_traceparent, TraceContext};
use trace_propagation::greeter::{hello_text, MyGreeter};
use trace_propagation::propagator::{traceparent_header, TraceContextPropagator};
use trace_propagation::span::{choose_span_id, choose_trace_id, Span};
use trace_propagation::text::to_lower;
use trace_propagation::{PropagatorRegistry, TracingInterceptor};

const EXAMPLE: &str = "00-11111111111111111111111111111111-aaaaaaaaaaaaaaaa-01";

fn example_context() -> TraceContext {
    TraceContext { trace_id: vec![0x11; 16], span_id: vec![0xaa; 8], trace_flags: 0x01, remote: false }
}

fn context(trace: u8, span: u8, flags: u8) -> TraceContext {
    TraceContext { trace_id: vec![trace; 16], span_id: vec![span; 8], trace_flags: flags, remote: false }
}

#[test]
fn example_scenario_end_to_end() {
    let propagator = TraceContextPropagator::new();
    let interceptor = TracingInterceptor::new(propagator);
    let mut metadata = Carrier::new();
    interceptor.call(&example_context(), &mut metadata);
    assert_eq!(metadata.get("traceparent"), Some(EXAMPLE.to_string()));

    let decoded = propagator.extract(&metadata).unwrap();
    assert_eq!(decoded.trace_id, vec![0x11; 16]);
    assert_eq!(decoded.span_id, vec![0xaa; 8]);
    assert_eq!(decoded.trace_flags, 1);
    assert!(decoded.remote);

    let (reply, span) = MyGreeter::new().say_hello(&propagator, &metadata, "Tonic");
    assert_eq!(reply.message, "Hello Tonic!");
    assert_eq!(span.trace_id(), &vec![0x11; 16]);
    assert_eq!(span.parent_span_id(), Some(vec![0xaa; 8]));
    assert_ne!(span.span_id(), &vec![0xaa; 8]);
    assert_eq!(span.span_id().len(), 8);
    assert!(span.is_ended());
    assert_eq!(span.name(), "say_hello");
}

#[test]
fn format_gives_w3c_text() {
    assert_eq!(format_traceparent(&example_context()), EXAMPLE);
    let ctx = TraceContext {
        trace_id: vec![0, 1, 2, 3, 4, 5, 6, 7, 8, 9, 10, 11, 12, 13, 14, 0xff],
        span_id: vec![0xde, 0xad, 0xbe, 0xef, 0, 0x10, 0x20, 0x7f],
        trace_flags: 0x80,
        remote: false,
    };
    assert_eq!(
        format_traceparent(&ctx),
        "00-000102030405060708090a0b0c0d0eff-deadbeef0010207f-80"
    );
}

#[test]
fn round_trip_keeps_ids_and_flags() {
    let propagator = TraceContextPropagator::new();
    for (t, s, f) in [(1u8, 2u8, 0u8), (0xff, 0x01, 0x01), (0x5a, 0xc3, 0xff)] {
        let ctx = context(t, s, f);
        let mut metadata = Carrier::new();
        metadata.set("content-type", "application/grpc");
        propagator.inject_context(&ctx, &mut metadata);
        let back = propagator.extract(&metadata).unwrap();
        assert_eq!(back.trace_id, ctx.trace_id);
        assert_eq!(back.span_id, ctx.span_id);
        assert_eq!(back.trace_flags, f);
        assert!(back.remote);
    }
}

#[test]
fn inject_replaces_earlier_header_values() {
    let propagator = TraceContextPropagator::new();
    let mut metadata = Carrier::new();
    metadata.append("traceparent", "garbage");
    metadata.append("TraceParent", "00-22222222222222222222222222222222-bbbbbbbbbbbbbbbb-00");
    propagator.inject_context(&example_context(), &mut metadata);
    assert_eq!(metadata.get_all("traceparent"), vec![EXAMPLE.to_string()]);
}

#[test]
fn invalid_context_writes_nothing() {
    let propagator = TraceContextPropagator::new();
    let mut metadata = Carrier::new();
    propagator.inject_context(&context(0, 0xaa, 1), &mut metadata);
    propagator.inject_context(&context(0x11, 0, 1), &mut metadata);
    let short = TraceContext { trace_id: vec![1; 15], span_id: vec![1; 8], trace_flags: 0, remote: false };
    propagator.inject_context(&short, &mut metadata);
    assert!(metadata.keys().is_empty());
}

#[test]
fn absent_header_gives_no_context() {
    let propagator = TraceContextPropagator::new();
    let mut metadata = Carrier::new();
    assert!(propagator.extract(&metadata).is_none());
    metadata.set("tracestate", "vendor=1");
    metadata.set("baggage", "k=v");
    assert!(propagator.extract(&metadata).is_none());
}

#[test]
fn malformed_values_give_no_context() {
    let bad = [
        "",
        "00-11111111111111111111111111111111-aaaaaaaaaaaaaaaa-0",
        "00-11111111111111111111111111111111-aaaaaaaaaaaaaaaa-011",
        "00-1111111111111111111111111111111g-aaaaaaaaaaaaaaaa-01",
        "00-11111111111111111111111111111111-aaaaaaaaaaaaaaaz-01",
        "00-00000000000000000000000000000000-aaaaaaaaaaaaaaaa-01",
        "00-11111111111111111111111111111111-0000000000000000-01",
        "01-11111111111111111111111111111111-aaaaaaaaaaaaaaaa-01",
        "ff-11111111111111111111111111111111-aaaaaaaaaaaaaaaa-01",
        "00-11111111111111111111111111111111-AAAAAAAAAAAAAAAA-01",
        "00_11111111111111111111111111111111-aaaaaaaaaaaaaaaa-01",
    ];
    let propagator = TraceContextPropagator::new();
    for value in bad {
        assert!(parse_traceparent(value).is_none(), "{}", value);
        let mut metadata = Carrier::new();
        metadata.set("traceparent", value);
        assert!(propagator.extract(&metadata).is_none(), "{}", value);
    }
}

#[test]
fn parse_reads_the_example() {
    let ctx = parse_traceparent(EXAMPLE).unwrap();
    assert_eq!(ctx.trace_id, vec![0x11; 16]);
    assert_eq!(ctx.span_id, vec![0xaa; 8]);
    assert_eq!(ctx.trace_flags, 1);
    assert!(ctx.remote);
    let other = parse_traceparent("00-0af7651916cd43dd8448eb211c80319c-b7ad6b7169203331-01").unwrap();
    assert_eq!(
        other.trace_id,
        vec![0x0a, 0xf7, 0x65, 0x19, 0x16, 0xcd, 0x43, 0xdd, 0x84, 0x48, 0xeb, 0x21, 0x1c, 0x80, 0x31, 0x9c]
    );
    assert_eq!(other.span_id, vec![0xb7, 0xad, 0x6b, 0x71, 0x69, 0x20, 0x33, 0x31]);
}

#[test]
fn well_formed_value_wins_in_either_order() {
    let propagator = TraceContextPropagator::new();
    let good = "00-33333333333333333333333333333333-cccccccccccccccc-01";
    for (first, second) in [("00-zz-bad", good), (good, "00-zz-bad")] {
        let mut metadata = Carrier::new();
        metadata.append("traceparent", first);
        metadata.append("traceparent", second);
        let ctx = propagator.extract(&metadata).unwrap();
        assert_eq!(ctx.trace_id, vec![0x33; 16]);
        assert_eq!(ctx.span_id, vec![0xcc; 8]);
    }
}

#[test]
fn first_of_two_well_formed_values_is_read() {
    let propagator = TraceContextPropagator::new();
    let mut metadata = Carrier::new();
    metadata.append("traceparent", EXAMPLE);
    metadata.append("traceparent", "00-33333333333333333333333333333333-cccccccccccccccc-01");
    assert_eq!(propagator.extract(&metadata).unwrap().trace_id, vec![0x11; 16]);
}

#[test]
fn header_is_matched_in_any_case() {
    let propagator = TraceContextPropagator::new();
    let mut metadata = Carrier::new();
    metadata.set("TRACEPARENT", EXAMPLE);
    assert_eq!(metadata.keys(), vec!["traceparent".to_string()]);
    assert_eq!(propagator.extract(&metadata).unwrap().span_id, vec![0xaa; 8]);
    assert_eq!(traceparent_header(), "traceparent");
}

#[test]
fn concurrent_calls_keep_their_own_context() {
    let propagator = TraceContextPropagator::new();
    let a = context(0x11, 0xaa, 1);
    let b = context(0x22, 0xbb, 0);
    let mut ca = Carrier::new();
    let mut cb = Carrier::new();
    let ia = TracingInterceptor::new(propagator);
    let ib = TracingInterceptor::new(propagator);
    ia.call(&a, &mut ca);
    ib.call(&b, &mut cb);
    let va = ca.get_all("traceparent");
    let vb = cb.get_all("traceparent");
    assert_eq!(va, vec![format_traceparent(&a)]);
    assert_eq!(vb, vec![format_traceparent(&b)]);
    assert!(!va[0].contains("2222") && !va[0].contains("bbbb"));
    assert!(!vb[0].contains("1111") && !vb[0].contains("aaaa"));
}

#[test]
fn server_span_links_to_parent() {
    let propagator = TraceContextPropagator::new();
    let mut metadata = Carrier::new();
    propagator.inject_context(&example_context(), &mut metadata);
    let span = Span::start_from_metadata(&propagator, &metadata, "work", vec![7; 16], vec![5; 8]);
    assert_eq!(span.trace_id(), &vec![0x11; 16]);
    assert_eq!(span.span_id(), &vec![5; 8]);
    assert_eq!(span.parent_span_id(), Some(vec![0xaa; 8]));
    assert_eq!(span.trace_flags(), 1);
    assert!(!span.is_ended());
    let child = span.context();
    assert_eq!(child.trace_id, vec![0x11; 16]);
    assert_eq!(child.span_id, vec![5; 8]);
    assert!(!child.remote);
}

#[test]
fn server_span_without_header_is_a_new_root() {
    let propagator = TraceContextPropagator::new();
    let metadata = Carrier::new();
    let mut span = Span::start_from_metadata(&propagator, &metadata, "work", vec![0x44; 16], vec![9; 8]);
    assert_eq!(span.trace_id(), &vec![0x44; 16]);
    assert_ne!(span.trace_id(), &vec![0x11; 16]);
    assert_eq!(span.parent_span_id(), None);
    assert_eq!(span.trace_flags(), 1);
    span.end();
    assert!(span.is_ended());
    assert_eq!(span.name(), "work");
}

#[test]
fn random_ids_start_usable_spans() {
    let propagator = TraceContextPropagator::new();
    let metadata = Carrier::new();
    let a = Span::start_server_span(&propagator, &metadata, "root");
    let b = Span::start_server_span(&propagator, &metadata, "root");
    assert_eq!(a.trace_id().len(), 16);
    assert_eq!(a.span_id().len(), 8);
    assert!(a.trace_id().iter().any(|x| *x != 0));
    assert!(a.span_id().iter().any(|x| *x != 0));
    assert_eq!(a.parent_span_id(), None);
    assert_ne!(a.trace_id(), b.trace_id());
}

#[test]
fn greeter_with_ids_and_no_header() {
    let propagator = TraceContextPropagator::new();
    let metadata = Carrier::new();
    let (reply, span) =
        MyGreeter::new().say_hello_with_ids(&propagator, &metadata, "Ann", vec![0; 16], vec![0; 8]);
    assert_eq!(reply.message, "Hello Ann!");
    let mut fallback_trace = vec![0u8; 16];
    fallback_trace[15] = 1;
    let mut fallback_span = vec![0u8; 8];
    fallback_span[7] = 1;
    assert_eq!(span.trace_id(), &fallback_trace);
    assert_eq!(span.span_id(), &fallback_span);
    assert!(span.is_ended());
}

#[test]
fn drawn_ids_that_cannot_serve_are_replaced() {
    let mut one = vec![0u8; 8];
    one[7] = 1;
    let mut two = vec![0u8; 8];
    two[7] = 2;
    assert_eq!(choose_span_id(vec![3; 8], &vec![4; 8]), vec![3; 8]);
    assert_eq!(choose_span_id(vec![4; 8], &vec![4; 8]), one);
    assert_eq!(choose_span_id(vec![0; 8], &one), two);
    assert_eq!(choose_span_id(vec![1; 7], &vec![4; 8]), one);
    let mut t = vec![0u8; 16];
    t[15] = 1;
    assert_eq!(choose_trace_id(vec![0; 16]), t);
    assert_eq!(choose_trace_id(vec![9; 16]), vec![9; 16]);
}

#[test]
fn carrier_set_get_and_keys() {
    let mut c = Carrier::new();
    c.set("Content-Type", "application/grpc");
    c.append("x-id", "1");
    c.append("X-ID", "2");
    assert_eq!(c.get("content-type"), Some("application/grpc".to_string()));
    assert_eq!(c.get_all("x-Id"), vec!["1".to_string(), "2".to_string()]);
    assert_eq!(c.get("x-id"), Some("1".to_string()));
    c.set("x-id", "3");
    assert_eq!(c.get_all("x-id"), vec!["3".to_string()]);
    assert_eq!(c.keys(), vec!["content-type".to_string(), "x-id".to_string()]);
    assert_eq!(c.get("missing"), None);
}

#[test]
fn carrier_drops_unwritable_entries() {
    let mut c = Carrier::new();
    c.set("bad key", "v");
    c.set("", "v");
    c.set("ok", "line\nbreak");
    c.append("ok", "bell\u{7}");
    c.set("ok", "caf\u{e9}");
    assert!(c.keys().is_empty());
    c.set("ok", "tab\tand space ~");
    assert_eq!(c.get("ok"), Some("tab\tand space ~".to_string()));
}

#[test]
fn text_helpers() {
    assert_eq!(to_lower("TraceParent-ÄZ"), "traceparent-Äz");
    assert_eq!(hello_text(""), "Hello !");
    assert_eq!(hello_text("Tonic"), "Hello Tonic!");
}

#[test]
fn registry_without_propagator_does_nothing() {
    let mut registry = PropagatorRegistry::new();
    let mut metadata = Carrier::new();
    registry.inject_context(&example_context(), &mut metadata);
    assert!(metadata.keys().is_empty());
    metadata.set("traceparent", EXAMPLE);
    assert!(registry.extract(&metadata).is_none());

    registry.set_global_propagator(TraceContextPropagator::new());
    registry.set_global_propagator(TraceContextPropagator::new());
    assert!(registry.installed.is_some());
    assert_eq!(registry.extract(&metadata).unwrap().span_id, vec![0xaa; 8]);
    let mut fresh = Carrier::new();
    registry.inject_context(&context(0x22, 0xbb, 0), &mut fresh);
    assert_eq!(
        fresh.get("traceparent"),
        Some("00-22222222222222222222222222222222-bbbbbbbbbbbbbbbb-00".to_string())
    );
}

#[test]
fn carrier_key_rule_follows_metadata_encoding() {
    let mut c = Carrier::new();
    c.set("a!b", "v");
    assert_eq!(c.get("a!b"), Some("v".to_string()));
    c.set("x-bin", "v");
    c.set("X-BIN", "v");
    c.append("trace-Bin", "v");
    assert_eq!(c.keys(), vec!["a!b".to_string()]);
    c.set("#$%&'*+-.^_`|~09AZ", "w");
    assert_eq!(c.get("#$%&'*+-.^_`|~09az"), Some("w".to_string()));
    c.set("bin", "b");
    c.set("x-binary", "b");
    assert_eq!(c.get("bin"), Some("b".to_string()));
    assert_eq!(c.get("x-binary"), Some("b".to_string()));
    c.set("a,b", "v");
    c.set("a:b", "v");
    c.set(&"k".repeat(65536), "v");
    assert_eq!(c.keys().len(), 4);
    c.set(&"k".repeat(65535), "v");
    assert_eq!(c.keys().len(), 5);
}

#[test]
fn registry_server_span_links_only_when_installed() {
    let mut metadata = Carrier::new();
    metadata.set("traceparent", "00-11111111111111111111111111111111-aaaaaaaaaaaaaaaa-03");
    let mut registry = PropagatorRegistry::new();
    let root = registry.start_server_span(&metadata, "say_hello");
    assert_eq!(root.parent_span_id(), None);
    assert_ne!(root.trace_id(), &vec![0x11; 16]);
    registry.set_global_propagator(TraceContextPropagator::new());
    let child = registry.start_server_span(&metadata, "say_hello");
    assert_eq!(child.trace_id(), &vec![0x11; 16]);
    assert_eq!(child.parent_span_id(), Some(vec![0xaa; 8]));
    assert_eq!(child.trace_flags(), 3);
    assert_ne!(child.span_id(), &vec![0xaa; 8]);
}

#[test]
fn greeting_keeps_client_flags() {
    let propagator = TraceContextPropagator::new();
    let mut metadata = Carrier::new();
    TracingInterceptor::new(propagator).call(&context(0x5c, 0x6d, 0x80), &mut metadata);
    let (_, span) = MyGreeter::new().say_hello(&propagator, &metadata, "Tonic");
    assert_eq!(span.trace_flags(), 0x80);
    assert_eq!(span.parent_span_id(), Some(vec![0x6d; 8]));
    let (_, span) =
        MyGreeter::new().say_hello_with_ids(&propagator, &metadata, "Tonic", vec![1; 16], vec![2; 8]);
    assert_eq!(span.trace_flags(), 0x80);
    assert_eq!(span.trace_id(), &vec![0x5c; 16]);
    assert_eq!(span.span_id(), &vec![2; 8]);
}
