//! The core of tracing and metrics decorators for request-handling
//! services, following the OpenTelemetry conventions for HTTP and gRPC.
//!
//! A decorator wraps a service and observes each request: it opens a span
//! or takes up measurements when the request goes on, and finishes them
//! once, when the response is there, when the service fails, or when the
//! request is given up. This crate decides what is recorded at each of these
//! steps, as values: the entries of a span ([`trace`]), the measurements for
//! the instruments ([`metrics`]), and the attributes of a request that both
//! are made of ([`util`]). Doing what was decided, on a span of a tracing
//! backend or on the instruments of a meter, is left to the code around it.

pub mod metrics;
pub mod trace;
pub mod util;
