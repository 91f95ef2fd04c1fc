//! Spans for a service that handles gRPC requests, seen from either side.

use crate::trace::future::{Protocol, ResponseFuture};
use crate::trace::span::{
    declared_in, error_log, error_mark, header_attributes, joined, kind_name, kind_propagation,
    lemma_header_attributes_declared, lemma_header_attributes_lack, lemma_joined_declared,
    lemma_joined_recorded, lemma_recorded_concat, lemma_recorded_in_none, number_field,
    propagation_of, recorded, span_kind, text_field, EntryView, SpanKind, SpanRecord,
};
use crate::util::bytes::{parse_i32, parse_signed, skip_leading, split_once};
use crate::util::header::{
    header_entries, header_get, header_value_to_str, lemma_plain_name, lookup, pairs, visible_ascii,
    Entry,
};
use crate::util::http_attrs::{Outcome, RequestHead, ResponseHead};
use crate::util::text::{lemma_text_of_bytes, opt_bytes, skip_leading_at, split_once_at};
use http::header::HeaderMap;
use tracing::Level;
use vstd::prelude::*;
use vstd::string::StringSliceAdditionalSpecFns;
use vstd::utf8::decode_utf8;

verus! {

/// The name of a call as its path gives it, with service and method where
/// the name holds both.
#[derive(Clone, Copy, Debug)]
pub struct GrpcName<'a> {
    /// The path without the slashes that it starts with.
    pub name: &'a str,
    /// What stands before the first slash of the name.
    pub service: Option<&'a str>,
    /// What stands after the first slash of the name.
    pub method: Option<&'a str>,
}

/// The name of a call: its path without the slashes that it starts with.
pub open spec fn call_name(path: Seq<u8>) -> Seq<u8> {
    skip_leading(path, 0x2f)
}

/// The service of a call: what stands before the first slash of its name.
pub open spec fn call_service(path: Seq<u8>) -> Option<Seq<u8>> {
    match split_once(call_name(path), 0x2f) {
        Some((service, _)) => Some(service),
        None => None,
    }
}

/// The method of a call: what stands after the first slash of its name.
pub open spec fn call_method(path: Seq<u8>) -> Option<Seq<u8>> {
    match split_once(call_name(path), 0x2f) {
        Some((_, method)) => Some(method),
        None => None,
    }
}

/// Service and method of a call on the span, where its name holds both.
pub open spec fn call_fields(path: Seq<u8>) -> Seq<EntryView> {
    match split_once(call_name(path), 0x2f) {
        Some((service, method)) => seq![
            text_field("rpc.service"@, decode_utf8(service)),
            text_field("rpc.method"@, decode_utf8(method)),
        ],
        None => Seq::<EntryView>::empty(),
    }
}

/// The parts of what the span of a call holds when the call goes on, in
/// order: the system; an attribute for each header; kind and name; and
/// service and method, where the name holds both.
pub open spec fn request_parts(kind: SpanKind, request: RequestHead) -> Seq<Seq<EntryView>> {
    seq![
        seq![text_field("rpc.system"@, "grpc"@)],
        header_attributes("rpc.grpc.request.metadata."@, pairs(header_entries(*request.headers))),
        seq![
            text_field("otel.kind"@, kind_name(kind)),
            text_field("otel.name"@, decode_utf8(call_name(request.uri.path.spec_bytes()))),
        ],
        call_fields(request.uri.path.spec_bytes()),
    ]
}

/// What the span of a call holds when the call goes on.
pub open spec fn request_log(kind: SpanKind, request: RequestHead) -> Seq<EntryView> {
    joined(request_parts(kind, request))
}

/// The status of a call as the headers of its response give it: the number
/// in `grpc-status` if that is a decimal number of 32 bits, nothing if the
/// header holds anything else, and 0 if there is no such header.
pub open spec fn grpc_status(entries: Seq<Entry>) -> Option<int> {
    match lookup(entries, "grpc-status"@) {
        Some(value) => if visible_ascii(value) {
            parse_signed(value, i32::MIN as int, i32::MAX as int)
        } else {
            None
        },
        None => Some(0),
    }
}

/// The parts of what a response leaves on the span, in order: an attribute
/// for each header, and the status of the call.
pub open spec fn response_parts(response: ResponseHead) -> Seq<Seq<EntryView>> {
    seq![
        header_attributes("rpc.grpc.response.metadata."@, pairs(header_entries(*response.headers))),
        match grpc_status(header_entries(*response.headers)) {
            Some(code) => seq![number_field("rpc.grpc.status_code"@, code)],
            None => Seq::<EntryView>::empty(),
        },
    ]
}

/// What a response leaves on the span.
pub open spec fn response_log(response: ResponseHead) -> Seq<EntryView> {
    joined(response_parts(response))
}

/// What the end of the wait leaves on the span.
pub open spec fn outcome_log(outcome: Outcome) -> Seq<EntryView> {
    match outcome {
        Outcome::Response(response) => response_log(response),
        Outcome::Error(message) => error_log(message@),
    }
}

/// The fields that the span of a gRPC call is created with.
pub open spec fn span_fields() -> Seq<Seq<char>> {
    seq![
        "error.message"@,
        "otel.kind"@,
        "otel.name"@,
        "otel.status_code"@,
        "rpc.grpc.status_code"@,
        "rpc.method"@,
        "rpc.service"@,
        "rpc.system"@,
    ]
}

/// The fields that the span of a gRPC call is created with.
pub fn fields() -> (list: Vec<&'static str>)
    ensures
        list@.len() == span_fields().len(),
        forall|i: int| 0 <= i < list@.len() ==> (#[trigger] list@[i])@ == span_fields()[i],
{
    let list: Vec<&'static str> = vec![
        "error.message",
        "otel.kind",
        "otel.name",
        "otel.status_code",
        "rpc.grpc.status_code",
        "rpc.method",
        "rpc.service",
        "rpc.system",
    ];
    list
}

/// Each of the fields is declared.
proof fn lemma_span_fields()
    ensures
        span_fields().contains("error.message"@),
        span_fields().contains("otel.kind"@),
        span_fields().contains("otel.name"@),
        span_fields().contains("otel.status_code"@),
        span_fields().contains("rpc.grpc.status_code"@),
        span_fields().contains("rpc.method"@),
        span_fields().contains("rpc.service"@),
        span_fields().contains("rpc.system"@),
{
    assert(span_fields()[0] == "error.message"@);
    assert(span_fields()[1] == "otel.kind"@);
    assert(span_fields()[2] == "otel.name"@);
    assert(span_fields()[3] == "otel.status_code"@);
    assert(span_fields()[4] == "rpc.grpc.status_code"@);
    assert(span_fields()[5] == "rpc.method"@);
    assert(span_fields()[6] == "rpc.service"@);
    assert(span_fields()[7] == "rpc.system"@);
}

/// Whatever is recorded as a field on the span of a call, when it goes on
/// and when the wait for its response ends, is recorded for a field that
/// the span was created with.
pub proof fn lemma_fields_are_declared(kind: SpanKind, request: RequestHead, outcome: Outcome)
    ensures
        declared_in(request_log(kind, request), span_fields()),
        declared_in(outcome_log(outcome), span_fields()),
{
    let d = span_fields();
    lemma_span_fields();
    let opened = request_parts(kind, request);
    lemma_header_attributes_declared(
        "rpc.grpc.request.metadata."@,
        pairs(header_entries(*request.headers)),
        d,
    );
    assert(declared_in(opened[0], d));
    assert(declared_in(opened[1], d));
    assert(declared_in(opened[2], d));
    assert(declared_in(opened[3], d));
    lemma_joined_declared(opened, d);
    if let Outcome::Response(response) = outcome {
        let left = response_parts(response);
        lemma_header_attributes_declared(
            "rpc.grpc.response.metadata."@,
            pairs(header_entries(*response.headers)),
            d,
        );
        assert(declared_in(left[0], d));
        assert(declared_in(left[1], d));
        lemma_joined_declared(left, d);
    }
}

/// A span ends up marked as an error exactly if the wait for the response
/// ended with an error. The status of the call is no mark on the span.
pub proof fn lemma_error_mark(kind: SpanKind, request: RequestHead, outcome: Outcome)
    ensures
        recorded(request_log(kind, request) + outcome_log(outcome), "otel.status_code"@) == (
        match outcome {
            Outcome::Error(_) => error_mark(),
            Outcome::Response(_) => None,
        }),
{
    let key = "otel.status_code"@;
    reveal_strlit("otel.status_code");
    reveal_strlit("error.message");
    reveal_strlit("rpc.system");
    reveal_strlit("otel.kind");
    reveal_strlit("otel.name");
    reveal_strlit("rpc.service");
    reveal_strlit("rpc.method");
    reveal_strlit("rpc.grpc.status_code");
    reveal_strlit("rpc.grpc.request.metadata.");
    reveal_strlit("rpc.grpc.response.metadata.");
    assert(key.len() == 16);
    assert("error.message"@.len() == 13);
    assert("rpc.system"@.len() == 10);
    assert("otel.kind"@.len() == 9);
    assert("otel.name"@.len() == 9);
    assert("rpc.service"@.len() == 11);
    assert("rpc.method"@.len() == 10);
    assert("rpc.grpc.status_code"@.len() == 20);
    assert("rpc.grpc.request.metadata."@.len() == 26);
    assert("rpc.grpc.response.metadata."@.len() == 27);
    let opened = request_parts(kind, request);
    lemma_recorded_concat(request_log(kind, request), outcome_log(outcome), key);
    lemma_joined_recorded(opened, key);
    lemma_header_attributes_lack(
        "rpc.grpc.request.metadata."@,
        pairs(header_entries(*request.headers)),
        key,
    );
    reveal_with_fuel(recorded, 3);
    assert(recorded(opened[0], key) is None);
    assert(recorded(opened[2], key) is None);
    assert(recorded(opened[3], key) is None);
    lemma_recorded_in_none(opened, key);
    match outcome {
        Outcome::Response(response) => {
            let left = response_parts(response);
            lemma_joined_recorded(left, key);
            lemma_header_attributes_lack(
                "rpc.grpc.response.metadata."@,
                pairs(header_entries(*response.headers)),
                key,
            );
            assert(recorded(left[1], key) is None);
            lemma_recorded_in_none(left, key);
        },
        Outcome::Error(message) => {
            assert(error_log(message@).drop_last() =~= seq![text_field(key, "ERROR"@)]);
        },
    }
}

/// The name of a call, with its service and method.
pub fn grpc_name<'a>(path: &'a str) -> (r: GrpcName<'a>)
    ensures
        r.name.spec_bytes() == call_name(path.spec_bytes()),
        opt_bytes(r.service) == call_service(path.spec_bytes()),
        opt_bytes(r.method) == call_method(path.spec_bytes()),
{
    let name = skip_leading_at(path, 0x2f);
    match split_once_at(name, 0x2f) {
        Some((service, method)) => GrpcName { name, service: Some(service), method: Some(method) },
        None => GrpcName { name, service: None, method: None },
    }
}

/// The status of a call as the headers of its response give it.
pub fn response_status(headers: &HeaderMap) -> (status: Option<i32>)
    ensures
        status is Some <==> grpc_status(header_entries(*headers)) is Some,
        status matches Some(code) ==> grpc_status(header_entries(*headers)) == Some(code as int),
{
    proof {
        reveal_strlit("grpc-status");
        lemma_plain_name("grpc-status");
    }
    match header_get(headers, "grpc-status") {
        Some(value) => match header_value_to_str(value) {
            Some(text) => parse_i32(text.as_bytes()),
            None => None,
        },
        None => Some(0),
    }
}

/// Opens the span of a call.
pub fn make_request_span(level: Level, kind: SpanKind, request: &RequestHead) -> (span: SpanRecord)
    ensures
        span.name@ == "GRPC"@,
        span.level == level,
        span.propagation == kind_propagation(kind),
        span.declared() == span_fields(),
        !span.closed,
        span.log() == request_log(kind, *request),
{
    let mut span = SpanRecord::new("GRPC", level, propagation_of(kind), fields());
    assert(span.declared() =~= span_fields());
    span.record_text("rpc.system", "grpc");
    span.record_headers("rpc.grpc.request.metadata.", request.headers);
    span.record_text("otel.kind", span_kind(kind));
    let call = grpc_name(request.uri.path);
    proof {
        lemma_text_of_bytes(call.name, call.name);
    }
    span.record_text("otel.name", call.name);
    match (call.service, call.method) {
        (Some(service), Some(method)) => {
            proof {
                lemma_text_of_bytes(service, service);
                lemma_text_of_bytes(method, method);
            }
            span.record_text("rpc.service", service);
            span.record_text("rpc.method", method);
        },
        _ => {},
    }
    proof {
        reveal_with_fuel(joined, 5);
    }
    assert(span.log() =~= request_log(kind, *request));
    span
}

/// Records what a response says of the call.
pub fn record_response(span: &mut SpanRecord, response: &ResponseHead)
    requires
        !old(span).closed,
    ensures
        final(span).extends(old(span), response_log(*response)),
{
    span.record_headers("rpc.grpc.response.metadata.", response.headers);
    match response_status(response.headers) {
        Some(code) => {
            span.record_number("rpc.grpc.status_code", code as i64);
        },
        None => {},
    }
    proof {
        reveal_with_fuel(joined, 3);
    }
    assert(span.log() =~= old(span).log() + response_log(*response));
}

/// Makes decorators that trace the gRPC calls of a service.
#[derive(Clone, Copy, Debug)]
pub struct GrpcLayer {
    level: Level,
    kind: SpanKind,
}

impl GrpcLayer {
    pub closed spec fn spec_level(&self) -> Level {
        self.level
    }

    pub closed spec fn spec_kind(&self) -> SpanKind {
        self.kind
    }

    /// Spans are made at the given level, from the server side.
    pub fn server(level: Level) -> (layer: Self)
        ensures
            layer.spec_level() == level,
            layer.spec_kind() == SpanKind::Server,
    {
        Self { level, kind: SpanKind::Server }
    }

    /// Spans are made at the given level, from the client side.
    pub fn client(level: Level) -> (layer: Self)
        ensures
            layer.spec_level() == level,
            layer.spec_kind() == SpanKind::Client,
    {
        Self { level, kind: SpanKind::Client }
    }

    pub fn level(&self) -> (level: Level)
        ensures
            level == self.spec_level(),
    {
        self.level
    }

    pub fn kind(&self) -> (kind: SpanKind)
        ensures
            kind == self.spec_kind(),
    {
        self.kind
    }

    /// Wraps `inner` in a decorator with the level and side of this layer.
    pub fn layer<S>(&self, inner: S) -> (service: Grpc<S>)
        ensures
            service.spec_inner() == inner,
            service.spec_level() == self.spec_level(),
            service.spec_kind() == self.spec_kind(),
    {
        Grpc { inner, level: self.level, kind: self.kind }
    }
}

/// A service together with what its tracing decorator needs.
#[derive(Debug)]
pub struct Grpc<S> {
    inner: S,
    level: Level,
    kind: SpanKind,
}

impl<S: Clone> Clone for Grpc<S> {
    fn clone(&self) -> (service: Self)
        ensures
            service.spec_level() == self.spec_level(),
            service.spec_kind() == self.spec_kind(),
    {
        Grpc { inner: self.inner.clone(), level: self.level, kind: self.kind }
    }
}

impl<S> Grpc<S> {
    pub closed spec fn spec_inner(&self) -> S {
        self.inner
    }

    pub closed spec fn spec_level(&self) -> Level {
        self.level
    }

    pub closed spec fn spec_kind(&self) -> SpanKind {
        self.kind
    }

    /// The service that is decorated.
    pub fn get_ref(&self) -> (inner: &S)
        ensures
            *inner == self.spec_inner(),
    {
        &self.inner
    }

    /// The service that is decorated, to call it.
    pub fn get_mut(&mut self) -> (inner: &mut S)
        ensures
            *inner == old(self).spec_inner(),
            final(self).spec_inner() == *final(inner),
            final(self).spec_level() == old(self).spec_level(),
            final(self).spec_kind() == old(self).spec_kind(),
    {
        &mut self.inner
    }

    /// Takes up a call that the service is about to handle: opens its span.
    pub fn call(&self, request: &RequestHead) -> (future: ResponseFuture)
        ensures
            future.protocol == Protocol::Grpc,
            future.span.name@ == "GRPC"@,
            future.span.level == self.spec_level(),
            future.span.propagation == kind_propagation(self.spec_kind()),
            future.span.declared() == span_fields(),
            !future.span.closed,
            future.span.log() == request_log(self.spec_kind(), *request),
    {
        ResponseFuture {
            span: make_request_span(self.level, self.kind, request),
            protocol: Protocol::Grpc,
        }
    }
}

} // verus!
