//! Spans for a service that makes outgoing HTTP requests.

use crate::trace::future::{Protocol, ResponseFuture};
use crate::trace::http_trace::{
    lemma_outcome_mark, record_response as record_client_response,
    response_log as client_response_log, response_parts, uri_full, uri_text,
};
use crate::trace::span::{
    declared_in, error_log, error_mark, failed, header_attributes, joined,
    lemma_header_attributes_declared, lemma_header_attributes_lack, lemma_joined_declared,
    lemma_joined_recorded, lemma_recorded_concat, lemma_recorded_in_none, optional_field, recorded,
    text_field, EntryView, Propagation, SpanKind, SpanRecord,
};
use crate::util::header::{header_entries, pairs};
use crate::util::http_attrs::{
    http_method, method_name, version_name, Outcome, RequestHead, ResponseHead, Version,
};
use crate::util::text::opt_text;
use tracing::Level;
use vstd::prelude::*;

verus! {

/// The parts of what the span of a request holds when the request goes
/// out, in order: method and protocol; the version; the full target; and an
/// attribute for each header.
pub open spec fn request_parts(request: RequestHead) -> Seq<Seq<EntryView>> {
    seq![
        seq![
            text_field("http.request.method"@, method_name(request.method@)),
            text_field("network.protocol.name"@, "http"@),
        ],
        optional_field("network.protocol.version"@, version_name(request.version)),
        seq![text_field("url.full"@, uri_text(request.uri))],
        header_attributes("http.request.header."@, pairs(header_entries(*request.headers))),
    ]
}

/// What the span of a request holds when the request goes out.
pub open spec fn request_log(request: RequestHead) -> Seq<EntryView> {
    joined(request_parts(request))
}

/// What a response leaves on the span: what it leaves on the span of any
/// HTTP client.
pub open spec fn response_log(response: ResponseHead) -> Seq<EntryView> {
    client_response_log(SpanKind::Client, response)
}

/// What the end of the wait leaves on the span.
pub open spec fn outcome_log(outcome: Outcome) -> Seq<EntryView> {
    match outcome {
        Outcome::Response(response) => response_log(response),
        Outcome::Error(message) => error_log(message@),
    }
}

/// The fields that the span of an outgoing request is created with.
pub open spec fn span_fields() -> Seq<Seq<char>> {
    seq![
        "error.message"@,
        "http.request.method"@,
        "http.response.status_code"@,
        "network.protocol.name"@,
        "network.protocol.version"@,
        "otel.status_code"@,
        "url.full"@,
    ]
}

/// The fields that the span of an outgoing request is created with.
pub fn fields() -> (list: Vec<&'static str>)
    ensures
        list@.len() == span_fields().len(),
        forall|i: int| 0 <= i < list@.len() ==> (#[trigger] list@[i])@ == span_fields()[i],
{
    let list: Vec<&'static str> = vec![
        "error.message",
        "http.request.method",
        "http.response.status_code",
        "network.protocol.name",
        "network.protocol.version",
        "otel.status_code",
        "url.full",
    ];
    list
}

/// Each of the fields is declared.
proof fn lemma_span_fields()
    ensures
        span_fields().contains("error.message"@),
        span_fields().contains("http.request.method"@),
        span_fields().contains("http.response.status_code"@),
        span_fields().contains("network.protocol.name"@),
        span_fields().contains("network.protocol.version"@),
        span_fields().contains("otel.status_code"@),
        span_fields().contains("url.full"@),
{
    assert(span_fields()[0] == "error.message"@);
    assert(span_fields()[1] == "http.request.method"@);
    assert(span_fields()[2] == "http.response.status_code"@);
    assert(span_fields()[3] == "network.protocol.name"@);
    assert(span_fields()[4] == "network.protocol.version"@);
    assert(span_fields()[5] == "otel.status_code"@);
    assert(span_fields()[6] == "url.full"@);
}

/// Whatever is recorded as a field on the span of a request, when it goes
/// out and when the wait for its response ends, is recorded for a field
/// that the span was created with.
pub proof fn lemma_fields_are_declared(request: RequestHead, outcome: Outcome)
    ensures
        declared_in(request_log(request), span_fields()),
        declared_in(outcome_log(outcome), span_fields()),
{
    let d = span_fields();
    lemma_span_fields();
    let opened = request_parts(request);
    lemma_header_attributes_declared(
        "http.request.header."@,
        pairs(header_entries(*request.headers)),
        d,
    );
    assert(declared_in(opened[0], d));
    assert(declared_in(opened[1], d));
    assert(declared_in(opened[2], d));
    assert(declared_in(opened[3], d));
    lemma_joined_declared(opened, d);
    if let Outcome::Response(response) = outcome {
        let left = response_parts(SpanKind::Client, response);
        lemma_header_attributes_declared(
            "http.response.header."@,
            pairs(header_entries(*response.headers)),
            d,
        );
        assert(declared_in(left[0], d));
        assert(declared_in(left[1], d));
        assert(declared_in(left[2], d));
        lemma_joined_declared(left, d);
    }
}

/// A span ends up marked as an error exactly if the wait for the response
/// ended in a failure: with an error, or with a response of a client-error
/// or server-error status.
pub proof fn lemma_error_mark(request: RequestHead, outcome: Outcome)
    ensures
        recorded(request_log(request) + outcome_log(outcome), "otel.status_code"@) == (if failed(
            SpanKind::Client,
            outcome,
        ) {
            error_mark()
        } else {
            None
        }),
{
    let key = "otel.status_code"@;
    reveal_strlit("otel.status_code");
    reveal_strlit("http.request.method");
    reveal_strlit("network.protocol.name");
    reveal_strlit("network.protocol.version");
    reveal_strlit("url.full");
    reveal_strlit("http.request.header.");
    assert(key.len() == 16);
    assert("http.request.method"@.len() == 19);
    assert("network.protocol.name"@.len() == 21);
    assert("network.protocol.version"@.len() == 24);
    assert("url.full"@.len() == 8);
    assert("http.request.header."@.len() == 20);
    let opened = request_parts(request);
    lemma_recorded_concat(request_log(request), outcome_log(outcome), key);
    lemma_joined_recorded(opened, key);
    lemma_header_attributes_lack(
        "http.request.header."@,
        pairs(header_entries(*request.headers)),
        key,
    );
    reveal_with_fuel(recorded, 3);
    assert(recorded(opened[0], key) is None);
    assert(recorded(opened[1], key) is None);
    assert(recorded(opened[2], key) is None);
    lemma_recorded_in_none(opened, key);
    lemma_outcome_mark(SpanKind::Client, outcome);
}

/// The token of the protocol version of a request.
pub fn network_protocol_version(version: Version) -> (name: Option<&'static str>)
    ensures
        opt_text(name) == version_name(version),
{
    match version {
        Version::Http09 => Some("0.9"),
        Version::Http10 => Some("1.0"),
        Version::Http11 => Some("1.1"),
        Version::Http2 => Some("2"),
        Version::Http3 => Some("3"),
        Version::Other => None,
    }
}

/// Opens the span of an outgoing request. The context of the span is to be
/// written into the headers of the request.
pub fn make_request_span(level: Level, request: &RequestHead) -> (span: SpanRecord)
    ensures
        span.name@ == "HTTP request"@,
        span.level == level,
        span.propagation == Propagation::Inject,
        span.declared() == span_fields(),
        !span.closed,
        span.log() == request_log(*request),
{
    let mut span = SpanRecord::new("HTTP request", level, Propagation::Inject, fields());
    assert(span.declared() =~= span_fields());
    span.record_text("http.request.method", http_method(request.method));
    span.record_text("network.protocol.name", "http");
    span.record_optional("network.protocol.version", network_protocol_version(request.version));
    let full = uri_full(&request.uri);
    span.record_text("url.full", full.as_str());
    span.record_headers("http.request.header.", request.headers);
    proof {
        reveal_with_fuel(joined, 5);
    }
    assert(span.log() =~= request_log(*request));
    span
}

/// Records what a response says of the exchange.
pub fn record_response(span: &mut SpanRecord, response: &ResponseHead)
    requires
        !old(span).closed,
    ensures
        final(span).extends(old(span), response_log(*response)),
{
    record_client_response(span, SpanKind::Client, response);
}

/// Makes decorators that trace the outgoing HTTP requests of a service.
#[derive(Clone, Copy, Debug)]
pub struct HttpClientLayer {
    level: Level,
}

impl HttpClientLayer {
    pub closed spec fn spec_level(&self) -> Level {
        self.level
    }

    /// Spans are made at the given level.
    pub fn new(level: Level) -> (layer: Self)
        ensures
            layer.spec_level() == level,
    {
        Self { level }
    }

    pub fn level(&self) -> (level: Level)
        ensures
            level == self.spec_level(),
    {
        self.level
    }

    /// Wraps `inner` in a decorator with the level of this layer.
    pub fn layer<S>(&self, inner: S) -> (service: HttpClient<S>)
        ensures
            service.spec_inner() == inner,
            service.spec_level() == self.spec_level(),
    {
        HttpClient { inner, level: self.level }
    }
}

/// A service together with what its tracing decorator needs.
#[derive(Debug)]
pub struct HttpClient<S> {
    inner: S,
    level: Level,
}

impl<S: Clone> Clone for HttpClient<S> {
    fn clone(&self) -> (service: Self)
        ensures
            service.spec_level() == self.spec_level(),
    {
        HttpClient { inner: self.inner.clone(), level: self.level }
    }
}

impl<S> HttpClient<S> {
    pub closed spec fn spec_inner(&self) -> S {
        self.inner
    }

    pub closed spec fn spec_level(&self) -> Level {
        self.level
    }

    /// The service that is decorated.
    pub fn get_ref(&self) -> (inner: &S)
        ensures
            *inner == self.spec_inner(),
    {
        &self.inner
    }

    /// The service that is decorated, to call it.
    pub fn get_mut(&mut self) -> (inner: &mut S)
        ensures
            *inner == old(self).spec_inner(),
            final(self).spec_inner() == *final(inner),
            final(self).spec_level() == old(self).spec_level(),
    {
        &mut self.inner
    }

    /// Takes up a request that the service is about to send: opens its span.
    pub fn call(&self, request: &RequestHead) -> (future: ResponseFuture)
        ensures
            future.protocol == Protocol::HttpClient,
            future.span.name@ == "HTTP request"@,
            future.span.level == self.spec_level(),
            future.span.propagation == Propagation::Inject,
            future.span.declared() == span_fields(),
            !future.span.closed,
            future.span.log() == request_log(*request),
    {
        ResponseFuture {
            span: make_request_span(self.level, request),
            protocol: Protocol::HttpClient,
        }
    }
}

} // verus!
