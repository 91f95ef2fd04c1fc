//! What a layer of callbacks records when the response is there.

use crate::trace::http_trace::{record_response, response_log};
use crate::trace::span::{SpanKind, SpanRecord};
use crate::util::http_attrs::ResponseHead;
use std::time::Duration;
use vstd::prelude::*;

verus! {

/// Records the response on the span of its request.
#[derive(Clone, Copy, Debug)]
pub struct OtelOnResponse;

impl OtelOnResponse {
    /// Records status and headers of the response, and the error mark if
    /// the status is a server error.
    pub fn on_response(self, response: &ResponseHead, _latency: Duration, span: &mut SpanRecord)
        requires
            !old(span).closed,
        ensures
            final(span).extends(old(span), response_log(SpanKind::Server, *response)),
    {
        record_response(span, SpanKind::Server, response);
    }
}

} // verus!
