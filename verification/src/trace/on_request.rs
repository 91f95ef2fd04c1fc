//! What a layer of callbacks records when the request arrives: nothing.

use crate::trace::span::SpanRecord;
use crate::util::http_attrs::RequestHead;
use vstd::prelude::*;

verus! {

/// Leaves the span as it was opened.
#[derive(Clone, Copy, Debug)]
pub struct OtelOnRequest;

impl OtelOnRequest {
    pub fn on_request(&mut self, _request: &RequestHead, _span: &SpanRecord) {
    }
}

} // verus!
