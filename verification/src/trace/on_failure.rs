//! What a layer of callbacks records for a failure: nothing.

use crate::trace::span::SpanRecord;
use std::time::Duration;
use vstd::prelude::*;

verus! {

/// Leaves the span as it is.
#[derive(Clone, Copy, Debug)]
pub struct OtelOnFailure;

impl OtelOnFailure {
    pub fn on_failure<FailureClass>(
        &mut self,
        _failure: FailureClass,
        _latency: Duration,
        _span: &SpanRecord,
    ) {
    }
}

} // verus!
