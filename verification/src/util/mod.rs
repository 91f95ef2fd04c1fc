//! Helpers shared by the tracing and the metrics decorators.

pub mod attribute;
pub mod bytes;
pub mod header;
pub mod http_attrs;
pub mod text;
