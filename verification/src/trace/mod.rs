//! What the tracing decorators record: the span of a request, the context
//! that passes through its headers, and the steps that open and close it.

pub mod extractor;
pub mod future;
pub mod grpc;
pub mod http_client;
pub mod http_trace;
pub mod injector;
pub mod layer;
pub mod make_span;
pub mod on_body_chunk;
pub mod on_eos;
pub mod on_failure;
pub mod on_request;
pub mod on_response;
pub mod span;
