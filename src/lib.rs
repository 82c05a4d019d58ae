//! Propagation of a distributed trace context across an RPC boundary: a
//! carrier over call metadata, the `traceparent` codec, and the client and
//! server hooks that write and read it.
pub mod carrier;
pub mod client;
pub mod context;
pub mod greeter;
pub mod hex;
pub mod propagator;
pub mod registry;
pub mod span;
pub mod text;

pub use carrier::Carrier;
pub use client::TracingInterceptor;
pub use context::{format_traceparent, parse_traceparent, TraceContext};
pub use greeter::{HelloReply, MyGreeter};
pub use propagator::{traceparent_header, TraceContextPropagator};
pub use registry::PropagatorRegistry;
pub use span::Span;
