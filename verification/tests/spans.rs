use http::{HeaderMap, HeaderValue};
use tower_otel::trace::future::{Protocol, ResponseFuture};
use tower_otel::trace::grpc::{grpc_name, response_status, GrpcLayer};
use tower_otel::trace::http_client::{network_protocol_version, HttpClientLayer};
use tower_otel::trace::http_trace::{uri_full, HttpLayer};
use tower_otel::trace::layer::OtelTraceLayer;
use tower_otel::trace::make_span::OtelMakeSpan;
use tower_otel::trace::on_body_chunk::OtelOnBodyChunk;
use tower_otel::trace::on_eos::OtelOnEos;
use tower_otel::trace::on_failure::OtelOnFailure;
use tower_otel::trace::on_request::OtelOnRequest;
use tower_otel::trace::on_response::OtelOnResponse;
use tower_otel::trace::span::{
    record_error, span_kind, Propagation, SpanEntry, SpanKind, SpanRecord,
};
use tower_otel::util::attribute::{KeyValue, Value};
use tower_otel::util::http_attrs::{Outcome, RequestHead, ResponseHead, Uri, Version};
use tracing::Level;

fn text(value: &str) -> Value {
    Value::Str(value.to_string())
}

fn field(key: &str, value: &str) -> SpanEntry {
    SpanEntry::Field(KeyValue { key: key.to_string(), value: text(value) })
}

fn number(key: &str, value: i64) -> SpanEntry {
    SpanEntry::Field(KeyValue { key: key.to_string(), value: Value::Int(value) })
}

fn attribute(key: &str, value: &str) -> SpanEntry {
    SpanEntry::Attribute(KeyValue { key: key.to_string(), value: text(value) })
}

fn path_only(path: &str) -> Uri<'_> {
    Uri { scheme: None, authority: None, host: None, port: None, path, query: None }
}

#[test]
fn server_span_of_a_matched_route() {
    let mut headers = HeaderMap::new();
    headers.insert("accept", HeaderValue::from_static("*/*"));
    let request = RequestHead {
        method: "GET",
        version: Version::Http11,
        uri: path_only("/users/42"),
        headers: &headers,
        route: Some("/users/:id"),
        body_size: None,
    };
    let service = HttpLayer::server(Level::INFO).layer(());
    let mut future = service.call(&request);
    assert_eq!(future.protocol, Protocol::Http(SpanKind::Server));
    assert_eq!(future.span.name, "HTTP");
    assert_eq!(future.span.level, Level::INFO);
    assert_eq!(future.span.propagation, Propagation::Extract);
    assert!(!future.span.closed);
    assert_eq!(future.span.entries.len(), 7);

    let response_headers = HeaderMap::new();
    let response = ResponseHead { status: 200, headers: &response_headers, body_size: None };
    assert!(future.poll(None).is_empty());
    assert!(!future.span.closed);
    let recorded = future.poll(Some(Outcome::Response(response)));
    assert_eq!(recorded, vec![number("http.response.status_code", 200)]);
    let span = future.span;
    assert!(span.closed);
    assert_eq!(span.get("http.request.method"), Some(&text("GET")));
    assert_eq!(span.get("http.route"), Some(&text("/users/:id")));
    assert_eq!(span.get("http.response.status_code"), Some(&Value::Int(200)));
    assert_eq!(span.get("otel.status_code"), None);
    assert_eq!(span.get("error.message"), None);
    assert_eq!(span.get("otel.kind"), Some(&text("server")));
    assert_eq!(span.get("url.path"), Some(&text("/users/42")));
    assert_eq!(span.get("http.request.header.accept"), Some(&text("*/*")));
    assert_eq!(
        span.entries,
        vec![
            field("http.request.method", "GET"),
            field("network.protocol.name", "http"),
            field("network.protocol.version", "1.1"),
            field("otel.kind", "server"),
            field("url.path", "/users/42"),
            attribute("http.request.header.accept", "*/*"),
            field("http.route", "/users/:id"),
            number("http.response.status_code", 200),
        ]
    );
}

#[test]
fn client_span_of_a_failed_call() {
    let headers = HeaderMap::new();
    let request = RequestHead {
        method: "POST",
        version: Version::Http2,
        uri: Uri {
            scheme: Some("https"),
            authority: Some("user@example.com:8443"),
            host: Some("example.com"),
            port: Some(8443),
            path: "/orders",
            query: Some("dry=1"),
        },
        headers: &headers,
        route: None,
        body_size: None,
    };
    let service = HttpLayer::client(Level::DEBUG).layer(());
    let future = service.call(&request);
    assert_eq!(future.protocol, Protocol::Http(SpanKind::Client));
    assert_eq!(future.span.propagation, Propagation::Inject);
    let mut future = future;
    let recorded = future.poll(Some(Outcome::Error("connection reset by peer")));
    assert_eq!(recorded.len(), 2);
    let span = future.span;
    assert!(span.closed);
    assert_eq!(span.get("otel.status_code"), Some(&text("ERROR")));
    assert_eq!(span.get("error.message"), Some(&text("connection reset by peer")));
    assert_eq!(span.get("http.response.status_code"), None);
    assert_eq!(
        span.entries,
        vec![
            field("http.request.method", "POST"),
            field("network.protocol.name", "http"),
            field("network.protocol.version", "2"),
            field("otel.kind", "client"),
            field("url.path", "/orders"),
            field("url.query", "dry=1"),
            field("url.full", "https://user@example.com:8443/orders?dry=1"),
            field("url.scheme", "https"),
            field("otel.status_code", "ERROR"),
            field("error.message", "connection reset by peer"),
        ]
    );
}

#[test]
fn error_status_by_kind_and_class() {
    let headers = HeaderMap::new();
    let cases: [(SpanKind, u16, bool); 12] = [
        (SpanKind::Server, 200, false),
        (SpanKind::Server, 399, false),
        (SpanKind::Server, 400, false),
        (SpanKind::Server, 499, false),
        (SpanKind::Server, 500, true),
        (SpanKind::Server, 599, true),
        (SpanKind::Server, 600, false),
        (SpanKind::Client, 200, false),
        (SpanKind::Client, 400, true),
        (SpanKind::Client, 499, true),
        (SpanKind::Client, 503, true),
        (SpanKind::Client, 600, false),
    ];
    for (kind, status, error) in cases {
        let mut span = SpanRecord::new("HTTP", Level::INFO, Propagation::Ambient, Vec::new());
        let response = ResponseHead { status, headers: &headers, body_size: None };
        tower_otel::trace::http_trace::record_response(&mut span, kind, &response);
        assert_eq!(span.get("http.response.status_code"), Some(&Value::Int(status as i64)));
        assert_eq!(span.get("otel.status_code").is_some(), error);
        if error {
            assert_eq!(span.get("otel.status_code"), Some(&text("ERROR")));
        }
    }
}

#[test]
fn server_span_reads_scheme_from_headers() {
    let mut headers = HeaderMap::new();
    headers.insert("forwarded", HeaderValue::from_static("proto=https"));
    let request = RequestHead {
        method: "QUERY",
        version: Version::Other,
        uri: Uri {
            scheme: Some("http"),
            authority: None,
            host: None,
            port: None,
            path: "/",
            query: None,
        },
        headers: &headers,
        route: None,
        body_size: None,
    };
    let span = tower_otel::trace::http_trace::make_request_span(
        Level::TRACE,
        SpanKind::Server,
        &request,
    );
    assert_eq!(
        span.entries,
        vec![
            field("http.request.method", "_OTHER"),
            field("network.protocol.name", "http"),
            field("otel.kind", "server"),
            field("url.path", "/"),
            attribute("http.request.header.forwarded", "proto=https"),
            field("url.scheme", "https"),
        ]
    );
    assert_eq!(span.get("url.full"), None);
    assert_eq!(span.get("network.protocol.version"), None);
}

#[test]
fn headers_become_attributes_in_order() {
    let mut headers = HeaderMap::new();
    headers.append("X-First", HeaderValue::from_static("1"));
    headers.append("x-second", HeaderValue::from_bytes(b"\xff").unwrap());
    headers.append("x-first", HeaderValue::from_static("2"));
    headers.append("x-third", HeaderValue::from_static(""));
    let mut span = SpanRecord::new("test", Level::INFO, Propagation::Ambient, Vec::new());
    span.record_headers("prefix.", &headers);
    assert_eq!(
        span.entries,
        vec![
            attribute("prefix.x-first", "1"),
            attribute("prefix.x-first", "2"),
            attribute("prefix.x-third", ""),
        ]
    );
    assert_eq!(span.get("prefix.x-first"), Some(&text("2")));
    assert_eq!(span.get("prefix.x-second"), None);
}

#[test]
fn grpc_server_span() {
    let mut headers = HeaderMap::new();
    headers.insert("te", HeaderValue::from_static("trailers"));
    let request = RequestHead {
        method: "POST",
        version: Version::Http2,
        uri: path_only("/greet.Greeter/SayHello"),
        headers: &headers,
        route: None,
        body_size: None,
    };
    let service = GrpcLayer::server(Level::INFO).layer(());
    let span = service.call(&request).span;
    assert_eq!(span.name, "GRPC");
    assert_eq!(span.propagation, Propagation::Extract);
    assert_eq!(span.get("rpc.service"), Some(&text("greet.Greeter")));
    assert_eq!(span.get("rpc.method"), Some(&text("SayHello")));
    assert_eq!(
        span.entries,
        vec![
            field("rpc.system", "grpc"),
            attribute("rpc.grpc.request.metadata.te", "trailers"),
            field("otel.kind", "server"),
            field("otel.name", "greet.Greeter/SayHello"),
            field("rpc.service", "greet.Greeter"),
            field("rpc.method", "SayHello"),
        ]
    );
}

#[test]
fn grpc_span_of_a_path_without_a_slash() {
    let headers = HeaderMap::new();
    let request = RequestHead {
        method: "POST",
        version: Version::Http2,
        uri: path_only("/health"),
        headers: &headers,
        route: None,
        body_size: None,
    };
    let span = GrpcLayer::client(Level::INFO).layer(()).call(&request).span;
    assert_eq!(span.propagation, Propagation::Inject);
    assert_eq!(span.get("otel.name"), Some(&text("health")));
    assert_eq!(span.get("rpc.service"), None);
    assert_eq!(span.get("rpc.method"), None);
    assert_eq!(span.get("otel.kind"), Some(&text("client")));
}

#[test]
fn grpc_names() {
    let name = grpc_name("/greet.Greeter/SayHello");
    assert_eq!(name.name, "greet.Greeter/SayHello");
    assert_eq!(name.service, Some("greet.Greeter"));
    assert_eq!(name.method, Some("SayHello"));

    let name = grpc_name("///a/b/c");
    assert_eq!(name.name, "a/b/c");
    assert_eq!(name.service, Some("a"));
    assert_eq!(name.method, Some("b/c"));

    let name = grpc_name("plain");
    assert_eq!((name.name, name.service, name.method), ("plain", None, None));

    let name = grpc_name("");
    assert_eq!((name.name, name.service, name.method), ("", None, None));

    let name = grpc_name("/svc/");
    assert_eq!((name.name, name.service, name.method), ("svc/", Some("svc"), Some("")));
}

#[test]
fn grpc_status_of_a_response() {
    let headers = HeaderMap::new();
    assert_eq!(response_status(&headers), Some(0));

    let mut headers = HeaderMap::new();
    headers.insert("grpc-status", HeaderValue::from_static("14"));
    assert_eq!(response_status(&headers), Some(14));

    let mut headers = HeaderMap::new();
    headers.insert("grpc-status", HeaderValue::from_static("-3"));
    assert_eq!(response_status(&headers), Some(-3));

    let mut headers = HeaderMap::new();
    headers.insert("grpc-status", HeaderValue::from_static("ok"));
    assert_eq!(response_status(&headers), None);

    let mut headers = HeaderMap::new();
    headers.insert("grpc-status", HeaderValue::from_static("2147483648"));
    assert_eq!(response_status(&headers), None);

    let mut headers = HeaderMap::new();
    headers.insert("grpc-status", HeaderValue::from_bytes(b"1\xff").unwrap());
    assert_eq!(response_status(&headers), None);
}

fn grpc_outcome(outcome: Outcome) -> SpanRecord {
    let span = SpanRecord::new("GRPC", Level::INFO, Propagation::Extract, Vec::new());
    let mut future = ResponseFuture { span, protocol: Protocol::Grpc };
    future.poll(Some(outcome));
    future.span
}

#[test]
fn grpc_span_of_a_response() {
    let mut headers = HeaderMap::new();
    headers.insert("grpc-status", HeaderValue::from_static("5"));
    let response = ResponseHead { status: 200, headers: &headers, body_size: None };
    let span = grpc_outcome(Outcome::Response(response));
    assert!(span.closed);
    assert_eq!(
        span.entries,
        vec![
            attribute("rpc.grpc.response.metadata.grpc-status", "5"),
            number("rpc.grpc.status_code", 5),
        ]
    );

    let headers = HeaderMap::new();
    let response = ResponseHead { status: 200, headers: &headers, body_size: None };
    let span = grpc_outcome(Outcome::Response(response));
    assert_eq!(span.entries, vec![number("rpc.grpc.status_code", 0)]);

    let mut headers = HeaderMap::new();
    headers.insert("grpc-status", HeaderValue::from_static("x"));
    let response = ResponseHead { status: 200, headers: &headers, body_size: None };
    let span = grpc_outcome(Outcome::Response(response));
    assert_eq!(span.entries, vec![attribute("rpc.grpc.response.metadata.grpc-status", "x")]);

    let span = grpc_outcome(Outcome::Error("unavailable"));
    assert_eq!(
        span.entries,
        vec![field("otel.status_code", "ERROR"), field("error.message", "unavailable")]
    );
}

#[test]
fn http_client_span() {
    let mut headers = HeaderMap::new();
    headers.insert("user-agent", HeaderValue::from_static("test"));
    let request = RequestHead {
        method: "DELETE",
        version: Version::Http3,
        uri: Uri {
            scheme: Some("http"),
            authority: Some("example.com"),
            host: Some("example.com"),
            port: None,
            path: "/items/7",
            query: None,
        },
        headers: &headers,
        route: None,
        body_size: None,
    };
    let layer = HttpClientLayer::new(Level::WARN);
    assert_eq!(layer.level(), Level::WARN);
    let service = layer.layer(());
    let span = service.call(&request).span;
    assert_eq!(span.name, "HTTP request");
    assert_eq!(span.level, Level::WARN);
    assert_eq!(span.propagation, Propagation::Inject);
    assert_eq!(
        span.entries,
        vec![
            field("http.request.method", "DELETE"),
            field("network.protocol.name", "http"),
            field("network.protocol.version", "3"),
            field("url.full", "http://example.com/items/7"),
            attribute("http.request.header.user-agent", "test"),
        ]
    );
    let response_headers = HeaderMap::new();
    for (status, error) in [(204u16, false), (404, true), (500, true), (302, false)] {
        let mut span = SpanRecord::new("HTTP request", Level::WARN, Propagation::Inject, Vec::new());
        let response = ResponseHead { status, headers: &response_headers, body_size: None };
        tower_otel::trace::http_client::record_response(&mut span, &response);
        assert_eq!(span.get("otel.status_code").is_some(), error);
    }
    let mut future = ResponseFuture { span, protocol: Protocol::HttpClient };
    future.poll(Some(Outcome::Error("timed out")));
    let span = future.span;
    assert!(span.closed);
    assert_eq!(span.get("error.message"), Some(&text("timed out")));
    assert_eq!(network_protocol_version(Version::Http10), Some("1.0"));
    assert_eq!(network_protocol_version(Version::Other), None);
}

#[test]
fn target_text() {
    assert_eq!(uri_full(&path_only("/a")), "/a");
    assert_eq!(
        uri_full(&Uri {
            scheme: Some("https"),
            authority: Some("h:1"),
            host: Some("h"),
            port: Some(1),
            path: "/p",
            query: Some("q=1&r"),
        }),
        "https://h:1/p?q=1&r"
    );
    assert_eq!(
        uri_full(&Uri {
            scheme: None,
            authority: Some("h"),
            host: Some("h"),
            port: None,
            path: "",
            query: Some(""),
        }),
        "h?"
    );
}

#[test]
fn callbacks_of_a_layer() {
    let mut headers = HeaderMap::new();
    headers.insert("accept", HeaderValue::from_static("text/html"));
    let request = RequestHead {
        method: "GET",
        version: Version::Http11,
        uri: Uri {
            scheme: None,
            authority: None,
            host: None,
            port: None,
            path: "/search",
            query: Some("q=verus"),
        },
        headers: &headers,
        route: None,
        body_size: None,
    };
    let mut layer = OtelTraceLayer::new((), OtelMakeSpan::new(Level::DEBUG));
    assert_eq!(layer.make_span.level(), Level::DEBUG);
    layer = layer.make_span_with(OtelMakeSpan::new(Level::ERROR));
    let mut span = layer.make_span.make_span(&request);
    assert_eq!(span.name, "request");
    assert_eq!(span.level, Level::ERROR);
    assert_eq!(span.propagation, Propagation::Ambient);
    let opened = vec![
        field("http.request.method", "GET"),
        field("url.path", "/search"),
        field("url.query", "q=verus"),
        attribute("http.request.header.accept", "text/html"),
    ];
    assert_eq!(span.entries, opened);

    OtelOnRequest.on_request(&request, &span);
    OtelOnBodyChunk.on_body_chunk(&b"chunk"[..].to_vec(), std::time::Duration::from_millis(1), &span);
    OtelOnEos.on_eos(None, std::time::Duration::from_millis(2), &span);
    OtelOnFailure.on_failure("failure", std::time::Duration::from_millis(3), &span);
    assert_eq!(span.entries, opened);

    let mut response_headers = HeaderMap::new();
    response_headers.insert("content-type", HeaderValue::from_static("text/html"));
    let response = ResponseHead { status: 503, headers: &response_headers, body_size: None };
    OtelOnResponse.on_response(&response, std::time::Duration::from_millis(4), &mut span);
    assert_eq!(
        span.entries[4..],
        [
            number("http.response.status_code", 503),
            attribute("http.response.header.content-type", "text/html"),
            field("otel.status_code", "ERROR"),
        ]
    );
}

#[test]
fn span_record_keeps_the_last_value() {
    let mut span = SpanRecord::new("s", Level::INFO, Propagation::Ambient, Vec::new());
    assert_eq!(span.get("k"), None);
    span.record_text("k", "1");
    span.record_number("n", 7);
    span.record_text("k", "2");
    span.record_optional("o", None);
    span.record_optional("p", Some("x"));
    span.set_attribute("a".to_string(), "b");
    assert_eq!(span.get("k"), Some(&text("2")));
    assert_eq!(span.get("n"), Some(&Value::Int(7)));
    assert_eq!(span.get("o"), None);
    assert_eq!(span.get("p"), Some(&text("x")));
    assert_eq!(span.get("a"), Some(&text("b")));
    assert_eq!(span.entries.len(), 5);
    span.close();
    assert!(span.closed);
    assert_eq!(span.entries.len(), 5);
    assert_eq!(span.get("k"), Some(&text("2")));
}

#[test]
fn error_is_recorded_with_its_text() {
    let mut span = SpanRecord::new("s", Level::INFO, Propagation::Ambient, Vec::new());
    record_error(&mut span, "boom");
    assert_eq!(
        span.entries,
        vec![field("otel.status_code", "ERROR"), field("error.message", "boom")]
    );
    assert_eq!(span_kind(SpanKind::Client), "client");
    assert_eq!(span_kind(SpanKind::Server), "server");
}

#[test]
fn layers_keep_level_and_kind() {
    let layer = GrpcLayer::server(Level::INFO);
    assert_eq!(layer.level(), Level::INFO);
    assert_eq!(layer.kind(), SpanKind::Server);
    let layer = GrpcLayer::client(Level::TRACE);
    assert_eq!(layer.level(), Level::TRACE);
    assert_eq!(layer.kind(), SpanKind::Client);
    let layer = HttpLayer::server(Level::WARN);
    assert_eq!((layer.level(), layer.kind()), (Level::WARN, SpanKind::Server));
    let layer = HttpLayer::client(Level::ERROR);
    assert_eq!((layer.level(), layer.kind()), (Level::ERROR, SpanKind::Client));
    let mut service = layer.layer(5u8);
    assert_eq!(*service.get_ref(), 5);
    *service.get_mut() = 6;
    assert_eq!(*service.get_ref(), 6);
    assert_eq!(service.kind(), SpanKind::Client);
    let copy = service.clone();
    assert_eq!(*copy.get_ref(), 6);
}

#[test]
fn outcome_is_recorded_once() {
    let headers = HeaderMap::new();
    let request = RequestHead {
        method: "GET",
        version: Version::Http11,
        uri: path_only("/"),
        headers: &headers,
        route: None,
        body_size: None,
    };
    let response = ResponseHead { status: 500, headers: &headers, body_size: None };

    let mut future = HttpLayer::server(Level::INFO).layer(()).call(&request);
    let opened = future.span.entries.len();
    assert!(future.poll(None).is_empty());
    assert!(future.poll(None).is_empty());
    assert_eq!(future.span.entries.len(), opened);
    assert!(!future.span.closed);
    let recorded = future.poll(Some(Outcome::Response(response)));
    assert_eq!(
        recorded,
        vec![number("http.response.status_code", 500), field("otel.status_code", "ERROR")]
    );
    assert!(future.span.closed);
    assert_eq!(future.span.entries[opened..], recorded[..]);
    assert!(future.poll(Some(Outcome::Error("late"))).is_empty());
    assert!(future.poll(Some(Outcome::Response(response))).is_empty());
    assert!(future.poll(None).is_empty());
    assert_eq!(future.span.entries.len(), opened + 2);
    assert_eq!(future.span.get("error.message"), None);

    let mut future = GrpcLayer::client(Level::INFO).layer(()).call(&request);
    let recorded = future.poll(Some(Outcome::Error("cancelled")));
    assert_eq!(
        recorded,
        vec![field("otel.status_code", "ERROR"), field("error.message", "cancelled")]
    );
    assert!(future.span.closed);
    assert!(future.poll(Some(Outcome::Response(response))).is_empty());
    assert_eq!(future.span.get("rpc.grpc.status_code"), None);

    let mut future = HttpClientLayer::new(Level::INFO).layer(()).call(&request);
    let recorded = future.poll(Some(Outcome::Response(response)));
    assert_eq!(recorded.len(), 2);
    assert!(future.poll(Some(Outcome::Error("late"))).is_empty());
    assert_eq!(future.span.get("error.message"), None);
}

#[test]
fn entries_from_a_position() {
    let mut span = SpanRecord::new("s", Level::INFO, Propagation::Ambient, Vec::new());
    span.record_text("a", "1");
    span.record_number("b", 2);
    span.set_attribute("c".to_string(), "3");
    assert_eq!(span.entries_from(0), span.entries);
    assert_eq!(span.entries_from(1), vec![number("b", 2), attribute("c", "3")]);
    assert!(span.entries_from(3).is_empty());
}

#[test]
fn fields_of_each_span() {
    let headers = HeaderMap::new();
    let request = RequestHead {
        method: "GET",
        version: Version::Http11,
        uri: Uri {
            scheme: Some("https"),
            authority: Some("h"),
            host: Some("h"),
            port: None,
            path: "/svc/m",
            query: Some("q"),
        },
        headers: &headers,
        route: Some("/svc/:m"),
        body_size: None,
    };
    let response = ResponseHead { status: 500, headers: &headers, body_size: None };
    let mut spans = Vec::new();
    for kind in [SpanKind::Client, SpanKind::Server] {
        for outcome in [Outcome::Response(response), Outcome::Error("e")] {
            let mut future = ResponseFuture {
                span: tower_otel::trace::http_trace::make_request_span(Level::INFO, kind, &request),
                protocol: Protocol::Http(kind),
            };
            assert_eq!(future.span.fields, tower_otel::trace::http_trace::fields());
            future.poll(Some(outcome));
            spans.push(future.span);
            let mut future = ResponseFuture {
                span: tower_otel::trace::grpc::make_request_span(Level::INFO, kind, &request),
                protocol: Protocol::Grpc,
            };
            assert_eq!(future.span.fields, tower_otel::trace::grpc::fields());
            future.poll(Some(outcome));
            spans.push(future.span);
        }
    }
    for outcome in [Outcome::Response(response), Outcome::Error("e")] {
        let mut future = ResponseFuture {
            span: tower_otel::trace::http_client::make_request_span(Level::INFO, &request),
            protocol: Protocol::HttpClient,
        };
        assert_eq!(future.span.fields, tower_otel::trace::http_client::fields());
        future.poll(Some(outcome));
        spans.push(future.span);
    }
    let mut span = OtelMakeSpan::new(Level::INFO).make_span(&request);
    assert_eq!(span.fields, tower_otel::trace::make_span::fields());
    OtelOnResponse.on_response(&response, std::time::Duration::ZERO, &mut span);
    spans.push(span);
    assert_eq!(spans.len(), 11);
    for span in &spans {
        assert!(!span.entries.is_empty());
        for entry in &span.entries {
            if let SpanEntry::Field(field) = entry {
                assert!(span.fields.contains(&field.key.as_str()), "{} in {}", field.key, span.name);
            }
        }
    }
    assert_eq!(
        tower_otel::trace::http_trace::fields(),
        vec![
            "error.message",
            "http.request.method",
            "http.response.status_code",
            "http.route",
            "network.protocol.name",
            "network.protocol.version",
            "otel.kind",
            "otel.status_code",
            "url.full",
            "url.path",
            "url.query",
            "url.scheme",
        ]
    );
    assert_eq!(
        tower_otel::trace::grpc::fields(),
        vec![
            "error.message",
            "otel.kind",
            "otel.name",
            "otel.status_code",
            "rpc.grpc.status_code",
            "rpc.method",
            "rpc.service",
            "rpc.system",
        ]
    );
}

#[test]
fn dropped_future_closes_the_span_without_an_outcome() {
    let headers = HeaderMap::new();
    let request = RequestHead {
        method: "GET",
        version: Version::Http11,
        uri: path_only("/"),
        headers: &headers,
        route: None,
        body_size: None,
    };
    let mut future = HttpLayer::server(Level::INFO).layer(()).call(&request);
    let opened = future.span.entries.len();
    assert!(future.poll(None).is_empty());
    future.cancel();
    assert!(future.span.closed);
    assert_eq!(future.span.entries.len(), opened);
    assert_eq!(future.span.get("otel.status_code"), None);
    assert_eq!(future.span.get("http.response.status_code"), None);
    assert!(future.poll(Some(Outcome::Error("late"))).is_empty());
    assert_eq!(future.span.entries.len(), opened);

    let mut future = GrpcLayer::server(Level::INFO).layer(()).call(&request);
    future.cancel();
    assert!(future.span.closed);
    let mut future = HttpClientLayer::new(Level::INFO).layer(()).call(&request);
    future.cancel();
    assert!(future.span.closed);
}

#[test]
fn server_span_folds_the_forwarded_scheme() {
    let mut headers = HeaderMap::new();
    headers.insert("forwarded", HeaderValue::from_static("for=1.2.3.4;Proto=HTTPS"));
    let request = RequestHead {
        method: "GET",
        version: Version::Http11,
        uri: path_only("/"),
        headers: &headers,
        route: None,
        body_size: None,
    };
    let span = HttpLayer::server(Level::INFO).layer(()).call(&request).span;
    assert_eq!(span.get("url.scheme"), Some(&text("https")));

    let mut headers = HeaderMap::new();
    headers.insert("x-forwarded-proto", HeaderValue::from_static("HTTPS"));
    let request = RequestHead { headers: &headers, ..request };
    let span = HttpLayer::server(Level::INFO).layer(()).call(&request).span;
    assert_eq!(span.get("url.scheme"), Some(&text("HTTPS")));
}
