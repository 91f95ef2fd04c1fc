//! A layer of callbacks: how it opens spans and what it does at each step of
//! a request.

use crate::trace::make_span::OtelMakeSpan;
use crate::trace::on_body_chunk::OtelOnBodyChunk;
use crate::trace::on_eos::OtelOnEos;
use crate::trace::on_failure::OtelOnFailure;
use crate::trace::on_request::OtelOnRequest;
use crate::trace::on_response::OtelOnResponse;
use vstd::prelude::*;

verus! {

/// The callbacks of a tracing layer, with the classifier `M` that tells its
/// failures.
#[derive(Debug)]
pub struct OtelTraceLayer<M> {
    pub make_classifier: M,
    pub make_span: OtelMakeSpan,
    pub on_request: OtelOnRequest,
    pub on_response: OtelOnResponse,
    pub on_body_chunk: OtelOnBodyChunk,
    pub on_eos: OtelOnEos,
    pub on_failure: OtelOnFailure,
}

impl<M: Clone> Clone for OtelTraceLayer<M> {
    fn clone(&self) -> (layer: Self)
        ensures
            layer.make_span == self.make_span,
    {
        Self {
            make_classifier: self.make_classifier.clone(),
            make_span: self.make_span,
            on_request: self.on_request,
            on_response: self.on_response,
            on_body_chunk: self.on_body_chunk,
            on_eos: self.on_eos,
            on_failure: self.on_failure,
        }
    }
}

impl<M> OtelTraceLayer<M> {
    /// A layer that tells failures with `make_classifier` and opens spans
    /// with `make_span`.
    pub fn new(make_classifier: M, make_span: OtelMakeSpan) -> (layer: Self)
        ensures
            layer.make_classifier == make_classifier,
            layer.make_span == make_span,
    {
        Self {
            make_classifier,
            make_span,
            on_request: OtelOnRequest,
            on_response: OtelOnResponse,
            on_body_chunk: OtelOnBodyChunk,
            on_eos: OtelOnEos,
            on_failure: OtelOnFailure,
        }
    }

    /// The same layer, opening its spans with `make_span`.
    pub fn make_span_with(self, make_span: OtelMakeSpan) -> (layer: Self)
        ensures
            layer.make_span == make_span,
            layer.make_classifier == self.make_classifier,
    {
        Self {
            make_classifier: self.make_classifier,
            make_span,
            on_request: self.on_request,
            on_response: self.on_response,
            on_body_chunk: self.on_body_chunk,
            on_eos: self.on_eos,
            on_failure: self.on_failure,
        }
    }
}

} // verus!
