//! Spans for a service that handles HTTP requests, seen from either side.

use crate::trace::future::{Protocol, ResponseFuture};
use crate::trace::span::{
    begins_with, declared_in, error_log, error_mark, failed, header_attributes, is_failure, joined,
    kind_name, kind_propagation, lemma_header_attributes_declared, lemma_header_attributes_lack,
    lemma_joined_declared, lemma_joined_recorded, lemma_recorded_concat, lemma_recorded_in_at,
    lemma_recorded_in_none, number_field, optional_field, propagation_of, recorded, recorded_in,
    span_kind, text_field, EntryView, SpanKind, SpanRecord,
};
use crate::util::attribute::ValueView;
use crate::util::header::{header_entries, pairs};
use crate::util::http_attrs::{
    http_method, http_route, http_url_scheme, http_version, method_name, recv_scheme, version_name,
    Outcome, RequestHead, ResponseHead, Uri,
};
use crate::util::text::{borrowed, lemma_text_of_bytes, opt_text};
use tracing::Level;
use vstd::prelude::*;
use vstd::string::{StringExecFns, StringSliceAdditionalSpecFns};
use vstd::utf8::decode_utf8;

verus! {

/// The text of a request target: scheme, authority, path and query as they
/// stand in it.
pub open spec fn uri_text(uri: Uri) -> Seq<char> {
    (match uri.scheme {
        Some(scheme) => scheme@ + "://"@,
        None => Seq::<char>::empty(),
    }) + (match uri.authority {
        Some(authority) => authority@,
        None => Seq::<char>::empty(),
    }) + uri.path@ + (match uri.query {
        Some(query) => "?"@ + query@,
        None => Seq::<char>::empty(),
    })
}

/// The text that octets encode, where there are any.
pub open spec fn decoded(bytes: Option<Seq<u8>>) -> Option<Seq<char>> {
    match bytes {
        Some(b) => Some(decode_utf8(b)),
        None => None,
    }
}

/// The parts of what the span of a request holds when the request goes on,
/// in order: method and protocol; the version; kind and path; an attribute
/// for each header; the query; for a client the full target, for a server
/// the route; and the scheme, which a client reads from the target and a
/// server from the headers.
pub open spec fn request_parts(kind: SpanKind, request: RequestHead) -> Seq<Seq<EntryView>> {
    seq![
        seq![
            text_field("http.request.method"@, method_name(request.method@)),
            text_field("network.protocol.name"@, "http"@),
        ],
        optional_field("network.protocol.version"@, version_name(request.version)),
        seq![
            text_field("otel.kind"@, kind_name(kind)),
            text_field("url.path"@, request.uri.path@),
        ],
        header_attributes("http.request.header."@, pairs(header_entries(*request.headers))),
        optional_field("url.query"@, opt_text(request.uri.query)),
        match kind {
            SpanKind::Client => seq![text_field("url.full"@, uri_text(request.uri))],
            SpanKind::Server => optional_field("http.route"@, opt_text(request.route)),
        },
        optional_field(
            "url.scheme"@,
            match kind {
                SpanKind::Client => opt_text(request.uri.scheme),
                SpanKind::Server => decoded(recv_scheme(header_entries(*request.headers))),
            },
        ),
    ]
}

/// What the span of a request holds when the request goes on.
pub open spec fn request_log(kind: SpanKind, request: RequestHead) -> Seq<EntryView> {
    joined(request_parts(kind, request))
}

/// The parts of what a response leaves on the span, in order: its status,
/// an attribute for each header, and the error mark if the status is a
/// failure for this kind.
pub open spec fn response_parts(kind: SpanKind, response: ResponseHead) -> Seq<Seq<EntryView>> {
    seq![
        seq![number_field("http.response.status_code"@, response.status as int)],
        header_attributes("http.response.header."@, pairs(header_entries(*response.headers))),
        if is_failure(kind, response.status) {
            seq![text_field("otel.status_code"@, "ERROR"@)]
        } else {
            Seq::<EntryView>::empty()
        },
    ]
}

/// What a response leaves on the span.
pub open spec fn response_log(kind: SpanKind, response: ResponseHead) -> Seq<EntryView> {
    joined(response_parts(kind, response))
}

/// What the end of the wait leaves on the span.
pub open spec fn outcome_log(kind: SpanKind, outcome: Outcome) -> Seq<EntryView> {
    match outcome {
        Outcome::Response(response) => response_log(kind, response),
        Outcome::Error(message) => error_log(message@),
    }
}

/// The fields that the span of an HTTP exchange is created with.
pub open spec fn span_fields() -> Seq<Seq<char>> {
    seq![
        "error.message"@,
        "http.request.method"@,
        "http.response.status_code"@,
        "http.route"@,
        "network.protocol.name"@,
        "network.protocol.version"@,
        "otel.kind"@,
        "otel.status_code"@,
        "url.full"@,
        "url.path"@,
        "url.query"@,
        "url.scheme"@,
    ]
}

/// The fields that the span of an HTTP exchange is created with.
pub fn fields() -> (list: Vec<&'static str>)
    ensures
        list@.len() == span_fields().len(),
        forall|i: int| 0 <= i < list@.len() ==> (#[trigger] list@[i])@ == span_fields()[i],
{
    let list: Vec<&'static str> = vec![
        "error.message",
        "http.request.method",
        "http.response.status_code",
        "http.route",
        "network.protocol.name",
        "network.protocol.version",
        "otel.kind",
        "otel.status_code",
        "url.full",
        "url.path",
        "url.query",
        "url.scheme",
    ];
    list
}

/// Each of the fields is declared.
proof fn lemma_span_fields()
    ensures
        span_fields().contains("error.message"@),
        span_fields().contains("http.request.method"@),
        span_fields().contains("http.response.status_code"@),
        span_fields().contains("http.route"@),
        span_fields().contains("network.protocol.name"@),
        span_fields().contains("network.protocol.version"@),
        span_fields().contains("otel.kind"@),
        span_fields().contains("otel.status_code"@),
        span_fields().contains("url.full"@),
        span_fields().contains("url.path"@),
        span_fields().contains("url.query"@),
        span_fields().contains("url.scheme"@),
{
    assert(span_fields()[0] == "error.message"@);
    assert(span_fields()[1] == "http.request.method"@);
    assert(span_fields()[2] == "http.response.status_code"@);
    assert(span_fields()[3] == "http.route"@);
    assert(span_fields()[4] == "network.protocol.name"@);
    assert(span_fields()[5] == "network.protocol.version"@);
    assert(span_fields()[6] == "otel.kind"@);
    assert(span_fields()[7] == "otel.status_code"@);
    assert(span_fields()[8] == "url.full"@);
    assert(span_fields()[9] == "url.path"@);
    assert(span_fields()[10] == "url.query"@);
    assert(span_fields()[11] == "url.scheme"@);
}

/// Whatever is recorded as a field on the span of a request, when it goes on
/// and when the wait for its response ends, is recorded for a field that
/// the span was created with.
pub proof fn lemma_fields_are_declared(kind: SpanKind, request: RequestHead, outcome: Outcome)
    ensures
        declared_in(request_log(kind, request), span_fields()),
        declared_in(outcome_log(kind, outcome), span_fields()),
{
    let d = span_fields();
    lemma_span_fields();
    let opened = request_parts(kind, request);
    lemma_header_attributes_declared(
        "http.request.header."@,
        pairs(header_entries(*request.headers)),
        d,
    );
    assert(declared_in(opened[0], d));
    assert(declared_in(opened[1], d));
    assert(declared_in(opened[2], d));
    assert(declared_in(opened[3], d));
    assert(declared_in(opened[4], d));
    assert(declared_in(opened[5], d));
    assert(declared_in(opened[6], d));
    lemma_joined_declared(opened, d);
    if let Outcome::Response(response) = outcome {
        let left = response_parts(kind, response);
        lemma_header_attributes_declared(
            "http.response.header."@,
            pairs(header_entries(*response.headers)),
            d,
        );
        assert(declared_in(left[0], d));
        assert(declared_in(left[1], d));
        assert(declared_in(left[2], d));
        lemma_joined_declared(left, d);
    }
}

/// The value that the span of an exchange holds in the end under a key
/// that is no key of a header attribute: what the end of the wait left
/// under it, or else what the opening of the span did. The attributes of
/// the headers hold nothing under such a key.
proof fn lemma_recorded(kind: SpanKind, request: RequestHead, outcome: Outcome, key: Seq<char>)
    requires
        !begins_with(key, "http.request.header."@),
        !begins_with(key, "http.response.header."@),
    ensures
        recorded(request_log(kind, request) + outcome_log(kind, outcome), key) == (
        match recorded(outcome_log(kind, outcome), key) {
            Some(value) => Some(value),
            None => recorded_in(request_parts(kind, request), key),
        }),
        recorded(request_parts(kind, request)[3], key) is None,
        outcome matches Outcome::Response(response) ==> recorded(
            response_parts(kind, response)[1],
            key,
        ) is None && recorded(outcome_log(kind, outcome), key) == recorded_in(
            response_parts(kind, response),
            key,
        ),
{
    lemma_recorded_concat(request_log(kind, request), outcome_log(kind, outcome), key);
    lemma_joined_recorded(request_parts(kind, request), key);
    lemma_header_attributes_lack(
        "http.request.header."@,
        pairs(header_entries(*request.headers)),
        key,
    );
    if let Outcome::Response(response) = outcome {
        lemma_joined_recorded(response_parts(kind, response), key);
        lemma_header_attributes_lack(
            "http.response.header."@,
            pairs(header_entries(*response.headers)),
            key,
        );
    }
}

/// The lengths of the keys and prefixes of the span of an exchange.
proof fn lemma_key_lengths()
    ensures
        "error.message"@.len() == 13,
        "http.request.method"@.len() == 19,
        "http.response.status_code"@.len() == 25,
        "http.route"@.len() == 10,
        "network.protocol.name"@.len() == 21,
        "network.protocol.version"@.len() == 24,
        "otel.kind"@.len() == 9,
        "otel.status_code"@.len() == 16,
        "url.full"@.len() == 8,
        "url.path"@.len() == 8,
        "url.query"@.len() == 9,
        "url.scheme"@.len() == 10,
        "url.scheme"@[0] == 'u',
        "http.route"@[0] == 'h',
        "http.request.header."@.len() == 20,
        "http.response.header."@.len() == 21,
        !begins_with("http.response.status_code"@, "http.request.header."@),
        !begins_with("http.response.status_code"@, "http.response.header."@),
{
    reveal_strlit("error.message");
    reveal_strlit("http.request.method");
    reveal_strlit("http.response.status_code");
    reveal_strlit("http.route");
    reveal_strlit("network.protocol.name");
    reveal_strlit("network.protocol.version");
    reveal_strlit("otel.kind");
    reveal_strlit("otel.status_code");
    reveal_strlit("url.full");
    reveal_strlit("url.path");
    reveal_strlit("url.query");
    reveal_strlit("url.scheme");
    reveal_strlit("http.request.header.");
    reveal_strlit("http.response.header.");
    let key = "http.response.status_code"@;
    assert(key.subrange(0, 20)[7] == key[7]);
    assert(key[7] != "http.request.header."@[7]);
    assert(key.subrange(0, 21)[14] == key[14]);
    assert(key[14] != "http.response.header."@[14]);
}

/// The opening of the span records nothing under a key that is none of
/// its own.
proof fn lemma_opening_lacks(kind: SpanKind, request: RequestHead, key: Seq<char>)
    requires
        recorded(request_parts(kind, request)[3], key) is None,
        key != "http.request.method"@,
        key != "network.protocol.name"@,
        key != "network.protocol.version"@,
        key != "otel.kind"@,
        key != "url.path"@,
        key != "url.query"@,
        key != "url.full"@,
        key != "http.route"@,
        key != "url.scheme"@,
    ensures
        recorded_in(request_parts(kind, request), key) is None,
{
    let opened = request_parts(kind, request);
    reveal_with_fuel(recorded, 3);
    assert(recorded(opened[0], key) is None);
    assert(recorded(opened[1], key) is None);
    assert(recorded(opened[2], key) is None);
    assert(recorded(opened[4], key) is None);
    assert(recorded(opened[5], key) is None);
    assert(recorded(opened[6], key) is None);
    lemma_recorded_in_none(opened, key);
}

/// The end of the wait leaves the mark of an error exactly if it is a
/// failure for a span of this kind.
pub proof fn lemma_outcome_mark(kind: SpanKind, outcome: Outcome)
    ensures
        recorded(outcome_log(kind, outcome), "otel.status_code"@) == (if failed(kind, outcome) {
            error_mark()
        } else {
            None
        }),
{
    let key = "otel.status_code"@;
    lemma_key_lengths();
    reveal_with_fuel(recorded, 3);
    match outcome {
        Outcome::Response(response) => {
            let left = response_parts(kind, response);
            lemma_joined_recorded(left, key);
            lemma_header_attributes_lack(
                "http.response.header."@,
                pairs(header_entries(*response.headers)),
                key,
            );
            assert(recorded(left[0], key) is None);
            if is_failure(kind, response.status) {
                lemma_recorded_in_at(left, key, 2);
            } else {
                assert(recorded(left[2], key) is None);
                lemma_recorded_in_none(left, key);
            }
        },
        Outcome::Error(message) => {
            assert(error_log(message@).drop_last() =~= seq![text_field(key, "ERROR"@)]);
        },
    }
}

/// A span ends up marked as an error exactly if the wait for the response
/// ended in a failure: with an error, with a response of a server-error
/// status, or, on a client's span, with a response of a client-error status.
pub proof fn lemma_error_mark(kind: SpanKind, request: RequestHead, outcome: Outcome)
    ensures
        recorded(request_log(kind, request) + outcome_log(kind, outcome), "otel.status_code"@) == (
        if failed(kind, outcome) {
            error_mark()
        } else {
            None
        }),
{
    let key = "otel.status_code"@;
    lemma_key_lengths();
    lemma_recorded(kind, request, outcome, key);
    lemma_opening_lacks(kind, request, key);
    lemma_outcome_mark(kind, outcome);
}

/// The end of the wait leaves nothing under a key that is none of its own.
proof fn lemma_outcome_lacks(kind: SpanKind, outcome: Outcome, key: Seq<char>)
    requires
        !begins_with(key, "http.response.header."@),
        key != "http.response.status_code"@,
        key != "otel.status_code"@,
        key != "error.message"@,
    ensures
        recorded(outcome_log(kind, outcome), key) is None,
{
    reveal_with_fuel(recorded, 3);
    match outcome {
        Outcome::Response(response) => {
            let left = response_parts(kind, response);
            lemma_joined_recorded(left, key);
            lemma_header_attributes_lack(
                "http.response.header."@,
                pairs(header_entries(*response.headers)),
                key,
            );
            assert(recorded(left[0], key) is None);
            assert(recorded(left[2], key) is None);
            lemma_recorded_in_none(left, key);
        },
        Outcome::Error(message) => {
            assert(error_log(message@).drop_last() =~= seq![
                text_field("otel.status_code"@, "ERROR"@),
            ]);
        },
    }
}

/// The span ends up with the method of the request under its reported name.
proof fn lemma_method_recorded(kind: SpanKind, request: RequestHead, outcome: Outcome)
    ensures
        recorded(request_log(kind, request) + outcome_log(kind, outcome), "http.request.method"@)
            == Some(ValueView::Str(method_name(request.method@))),
{
    let key = "http.request.method"@;
    let opened = request_parts(kind, request);
    lemma_key_lengths();
    lemma_recorded(kind, request, outcome, key);
    lemma_outcome_lacks(kind, outcome, key);
    reveal_with_fuel(recorded, 3);
    assert(opened[0].drop_last() =~= seq![text_field(key, method_name(request.method@))]);
    assert(recorded(opened[0], key) == Some(ValueView::Str(method_name(request.method@))));
    assert(recorded(opened[1], key) is None);
    assert(recorded(opened[2], key) is None);
    assert(recorded(opened[4], key) is None);
    assert(recorded(opened[5], key) is None);
    assert(recorded(opened[6], key) is None);
    lemma_recorded_in_at(opened, key, 0);
}

/// The span ends up with the status of the response, if there was one.
proof fn lemma_status_recorded(kind: SpanKind, request: RequestHead, outcome: Outcome)
    ensures
        recorded(
            request_log(kind, request) + outcome_log(kind, outcome),
            "http.response.status_code"@,
        ) == (match outcome {
            Outcome::Response(response) => Some(ValueView::Int(response.status as int)),
            Outcome::Error(_) => None,
        }),
{
    let key = "http.response.status_code"@;
    lemma_key_lengths();
    lemma_recorded(kind, request, outcome, key);
    lemma_opening_lacks(kind, request, key);
    reveal_with_fuel(recorded, 3);
    match outcome {
        Outcome::Response(response) => {
            let left = response_parts(kind, response);
            assert(recorded(left[0], key) == Some(ValueView::Int(response.status as int)));
            assert(recorded(left[2], key) is None);
            lemma_recorded_in_at(left, key, 0);
        },
        Outcome::Error(message) => {
            assert(error_log(message@).drop_last() =~= seq![
                text_field("otel.status_code"@, "ERROR"@),
            ]);
        },
    }
}

/// A server's span ends up with the route that matched the request, if
/// there was one; no other span holds a route.
proof fn lemma_route_recorded(kind: SpanKind, request: RequestHead, outcome: Outcome)
    ensures
        recorded(request_log(kind, request) + outcome_log(kind, outcome), "http.route"@) == (
        match (kind, request.route) {
            (SpanKind::Server, Some(route)) => Some(ValueView::Str(route@)),
            _ => None,
        }),
{
    let key = "http.route"@;
    let opened = request_parts(kind, request);
    lemma_key_lengths();
    lemma_recorded(kind, request, outcome, key);
    lemma_outcome_lacks(kind, outcome, key);
    reveal_with_fuel(recorded, 3);
    assert(recorded(opened[6], key) is None);
    match (kind, request.route) {
        (SpanKind::Server, Some(matched)) => {
            assert(recorded(opened[5], key) == Some(ValueView::Str(matched@)));
            lemma_recorded_in_at(opened, key, 5);
        },
        _ => {
            assert(recorded(opened[0], key) is None);
            assert(recorded(opened[1], key) is None);
            assert(recorded(opened[2], key) is None);
            assert(recorded(opened[4], key) is None);
            assert(recorded(opened[5], key) is None);
            lemma_recorded_in_none(opened, key);
        },
    }
}

/// The span of an exchange ends up with the method of the request under
/// its reported name, with the status of the response if there was one,
/// and, on a server's span, with the route that matched the request if
/// there was one.
pub proof fn lemma_exchange_record(kind: SpanKind, request: RequestHead, outcome: Outcome)
    ensures
        recorded(request_log(kind, request) + outcome_log(kind, outcome), "http.request.method"@)
            == Some(ValueView::Str(method_name(request.method@))),
        recorded(
            request_log(kind, request) + outcome_log(kind, outcome),
            "http.response.status_code"@,
        ) == (match outcome {
            Outcome::Response(response) => Some(ValueView::Int(response.status as int)),
            Outcome::Error(_) => None,
        }),
        recorded(request_log(kind, request) + outcome_log(kind, outcome), "http.route"@) == (
        match (kind, request.route) {
            (SpanKind::Server, Some(route)) => Some(ValueView::Str(route@)),
            _ => None,
        }),
{
    lemma_method_recorded(kind, request, outcome);
    lemma_status_recorded(kind, request, outcome);
    lemma_route_recorded(kind, request, outcome);
}

/// The text of a request target.
pub fn uri_full(uri: &Uri) -> (text: String)
    ensures
        text@ == uri_text(*uri),
{
    let mut text = String::new();
    if let Some(scheme) = uri.scheme {
        text.append(scheme);
        text.append("://");
    }
    if let Some(authority) = uri.authority {
        text.append(authority);
    }
    text.append(uri.path);
    if let Some(query) = uri.query {
        text.append("?");
        text.append(query);
    }
    assert(text@ =~= uri_text(*uri));
    text
}

/// Opens the span of a request.
pub fn make_request_span(level: Level, kind: SpanKind, request: &RequestHead) -> (span: SpanRecord)
    ensures
        span.name@ == "HTTP"@,
        span.level == level,
        span.propagation == kind_propagation(kind),
        span.declared() == span_fields(),
        !span.closed,
        span.log() == request_log(kind, *request),
{
    let mut span = SpanRecord::new("HTTP", level, propagation_of(kind), fields());
    assert(span.declared() =~= span_fields());
    span.record_text("http.request.method", http_method(request.method));
    span.record_text("network.protocol.name", "http");
    span.record_optional("network.protocol.version", http_version(request.version));
    span.record_text("otel.kind", span_kind(kind));
    span.record_text("url.path", request.uri.path);
    span.record_headers("http.request.header.", request.headers);
    span.record_optional("url.query", request.uri.query);
    match kind {
        SpanKind::Client => {
            let full = uri_full(&request.uri);
            span.record_text("url.full", full.as_str());
            span.record_optional("url.scheme", request.uri.scheme);
        },
        SpanKind::Server => {
            span.record_optional("http.route", http_route(request));
            let received = http_url_scheme(request);
            let scheme = borrowed(&received);
            proof {
                if let Some(s) = scheme {
                    lemma_text_of_bytes(s, s);
                }
            }
            span.record_optional("url.scheme", scheme);
        },
    }
    proof {
        reveal_with_fuel(joined, 8);
    }
    assert(span.log() =~= request_log(kind, *request));
    span
}

/// Records what a response says of the exchange.
pub fn record_response(span: &mut SpanRecord, kind: SpanKind, response: &ResponseHead)
    requires
        !old(span).closed,
    ensures
        final(span).extends(old(span), response_log(kind, *response)),
{
    span.record_number("http.response.status_code", response.status as i64);
    span.record_headers("http.response.header.", response.headers);
    let status = response.status;
    let failed = (500 <= status && status < 600) || (match kind {
        SpanKind::Client => 400 <= status && status < 500,
        SpanKind::Server => false,
    });
    if failed {
        span.record_text("otel.status_code", "ERROR");
    }
    proof {
        reveal_with_fuel(joined, 4);
    }
    assert(span.log() =~= old(span).log() + response_log(kind, *response));
}

/// Makes decorators that trace the HTTP requests of a service.
#[derive(Clone, Copy, Debug)]
pub struct HttpLayer {
    level: Level,
    kind: SpanKind,
}

impl HttpLayer {
    pub closed spec fn spec_level(&self) -> Level {
        self.level
    }

    pub closed spec fn spec_kind(&self) -> SpanKind {
        self.kind
    }

    /// Spans are made at the given level, from the server side.
    pub fn server(level: Level) -> (layer: Self)
        ensures
            layer.spec_level() == level,
            layer.spec_kind() == SpanKind::Server,
    {
        Self { level, kind: SpanKind::Server }
    }

    /// Spans are made at the given level, from the client side.
    pub fn client(level: Level) -> (layer: Self)
        ensures
            layer.spec_level() == level,
            layer.spec_kind() == SpanKind::Client,
    {
        Self { level, kind: SpanKind::Client }
    }

    pub fn level(&self) -> (level: Level)
        ensures
            level == self.spec_level(),
    {
        self.level
    }

    pub fn kind(&self) -> (kind: SpanKind)
        ensures
            kind == self.spec_kind(),
    {
        self.kind
    }

    /// Wraps `inner` in a decorator with the level and side of this layer.
    pub fn layer<S>(&self, inner: S) -> (service: Http<S>)
        ensures
            service.spec_inner() == inner,
            service.spec_level() == self.spec_level(),
            service.spec_kind() == self.spec_kind(),
    {
        Http { inner, level: self.level, kind: self.kind }
    }
}

/// A service together with what its tracing decorator needs.
#[derive(Debug)]
pub struct Http<S> {
    inner: S,
    level: Level,
    kind: SpanKind,
}

impl<S: Clone> Clone for Http<S> {
    fn clone(&self) -> (service: Self)
        ensures
            service.spec_level() == self.spec_level(),
            service.spec_kind() == self.spec_kind(),
    {
        Http { inner: self.inner.clone(), level: self.level, kind: self.kind }
    }
}

impl<S> Http<S> {
    pub closed spec fn spec_inner(&self) -> S {
        self.inner
    }

    pub closed spec fn spec_level(&self) -> Level {
        self.level
    }

    pub closed spec fn spec_kind(&self) -> SpanKind {
        self.kind
    }

    pub fn kind(&self) -> (kind: SpanKind)
        ensures
            kind == self.spec_kind(),
    {
        self.kind
    }

    /// The service that is decorated.
    pub fn get_ref(&self) -> (inner: &S)
        ensures
            *inner == self.spec_inner(),
    {
        &self.inner
    }

    /// The service that is decorated, to call it.
    pub fn get_mut(&mut self) -> (inner: &mut S)
        ensures
            *inner == old(self).spec_inner(),
            final(self).spec_inner() == *final(inner),
            final(self).spec_level() == old(self).spec_level(),
            final(self).spec_kind() == old(self).spec_kind(),
    {
        &mut self.inner
    }

    /// Takes up a request that the service is about to handle: opens its
    /// span.
    pub fn call(&self, request: &RequestHead) -> (future: ResponseFuture)
        ensures
            future.protocol == Protocol::Http(self.spec_kind()),
            future.span.name@ == "HTTP"@,
            future.span.level == self.spec_level(),
            future.span.propagation == kind_propagation(self.spec_kind()),
            future.span.declared() == span_fields(),
            !future.span.closed,
            future.span.log() == request_log(self.spec_kind(), *request),
    {
        ResponseFuture {
            span: make_request_span(self.level, self.kind, request),
            protocol: Protocol::Http(self.kind),
        }
    }
}

} // verus!
