//! What a layer of callbacks records at the end of the body: nothing.

use crate::trace::span::SpanRecord;
use http::header::HeaderMap;
use std::time::Duration;
use vstd::prelude::*;

verus! {

/// Leaves the span as it is.
#[derive(Clone, Copy, Debug)]
pub struct OtelOnEos;

impl OtelOnEos {
    pub fn on_eos(self, _trailers: Option<&HeaderMap>, _latency: Duration, _span: &SpanRecord) {
    }
}

} // verus!
