//! What a layer of callbacks records for a chunk of the body: nothing.

use crate::trace::span::SpanRecord;
use std::time::Duration;
use vstd::prelude::*;

verus! {

/// Leaves the span as it is.
#[derive(Clone, Copy, Debug)]
pub struct OtelOnBodyChunk;

impl OtelOnBodyChunk {
    pub fn on_body_chunk<B>(&mut self, _chunk: &B, _latency: Duration, _span: &SpanRecord) {
    }
}

} // verus!
