//! The span that a layer of callbacks opens for a request.

use crate::trace::http_trace::{response_log, response_parts};
use crate::trace::span::{
    declared_in, header_attributes, joined, lemma_header_attributes_declared, lemma_joined_declared,
    optional_field, text_field, EntryView, Propagation, SpanKind, SpanRecord,
};
use crate::util::header::{header_entries, pairs};
use crate::util::http_attrs::{http_method, method_name, RequestHead, ResponseHead};
use crate::util::text::opt_text;
use tracing::Level;
use vstd::prelude::*;

verus! {

/// The parts of what the span of a request holds when it is opened, in
/// order: method and path; the query; and an attribute for each header.
pub open spec fn request_parts(request: RequestHead) -> Seq<Seq<EntryView>> {
    seq![
        seq![
            text_field("http.request.method"@, method_name(request.method@)),
            text_field("url.path"@, request.uri.path@),
        ],
        optional_field("url.query"@, opt_text(request.uri.query)),
        header_attributes("http.request.header."@, pairs(header_entries(*request.headers))),
    ]
}

/// What the span of a request holds when it is opened.
pub open spec fn request_log(request: RequestHead) -> Seq<EntryView> {
    joined(request_parts(request))
}

/// The fields that the span of a request is created with.
pub open spec fn span_fields() -> Seq<Seq<char>> {
    seq![
        "http.request.method"@,
        "http.response.status_code"@,
        "otel.status_code"@,
        "url.path"@,
        "url.query"@,
    ]
}

/// The fields that the span of a request is created with.
pub fn fields() -> (list: Vec<&'static str>)
    ensures
        list@.len() == span_fields().len(),
        forall|i: int| 0 <= i < list@.len() ==> (#[trigger] list@[i])@ == span_fields()[i],
{
    let list: Vec<&'static str> = vec![
        "http.request.method",
        "http.response.status_code",
        "otel.status_code",
        "url.path",
        "url.query",
    ];
    list
}

/// Each of the fields is declared.
proof fn lemma_span_fields()
    ensures
        span_fields().contains("http.request.method"@),
        span_fields().contains("http.response.status_code"@),
        span_fields().contains("otel.status_code"@),
        span_fields().contains("url.path"@),
        span_fields().contains("url.query"@),
{
    assert(span_fields()[0] == "http.request.method"@);
    assert(span_fields()[1] == "http.response.status_code"@);
    assert(span_fields()[2] == "otel.status_code"@);
    assert(span_fields()[3] == "url.path"@);
    assert(span_fields()[4] == "url.query"@);
}

/// Whatever is recorded as a field on the span of a request, when it is
/// opened and when its response is there, is recorded for a field that the
/// span was created with.
pub proof fn lemma_fields_are_declared(request: RequestHead, response: ResponseHead)
    ensures
        declared_in(request_log(request), span_fields()),
        declared_in(response_log(SpanKind::Server, response), span_fields()),
{
    let d = span_fields();
    lemma_span_fields();
    let opened = request_parts(request);
    lemma_header_attributes_declared(
        "http.request.header."@,
        pairs(header_entries(*request.headers)),
        d,
    );
    assert(declared_in(opened[0], d));
    assert(declared_in(opened[1], d));
    assert(declared_in(opened[2], d));
    lemma_joined_declared(opened, d);
    let left = response_parts(SpanKind::Server, response);
    lemma_header_attributes_declared(
        "http.response.header."@,
        pairs(header_entries(*response.headers)),
        d,
    );
    assert(declared_in(left[0], d));
    assert(declared_in(left[1], d));
    assert(declared_in(left[2], d));
    lemma_joined_declared(left, d);
}

/// Opens the span of each request at one level.
#[derive(Clone, Copy, Debug)]
pub struct OtelMakeSpan {
    level: Level,
}

impl OtelMakeSpan {
    pub closed spec fn spec_level(&self) -> Level {
        self.level
    }

    /// Spans are made at the given level.
    pub fn new(level: Level) -> (make_span: Self)
        ensures
            make_span.spec_level() == level,
    {
        Self { level }
    }

    pub fn level(&self) -> (level: Level)
        ensures
            level == self.spec_level(),
    {
        self.level
    }

    /// Opens the span of a request. The span keeps its ambient parent.
    pub fn make_span(&mut self, request: &RequestHead) -> (span: SpanRecord)
        ensures
            *final(self) == *old(self),
            span.name@ == "request"@,
            span.level == old(self).spec_level(),
            span.propagation == Propagation::Ambient,
            span.declared() == span_fields(),
            !span.closed,
            span.log() == request_log(*request),
    {
        let mut span = SpanRecord::new("request", self.level, Propagation::Ambient, fields());
        assert(span.declared() =~= span_fields());
        span.record_text("http.request.method", http_method(request.method));
        span.record_text("url.path", request.uri.path);
        span.record_optional("url.query", request.uri.query);
        span.record_headers("http.request.header.", request.headers);
        proof {
            reveal_with_fuel(joined, 4);
        }
        assert(span.log() =~= request_log(*request));
        span
    }
}

} // verus!
