use http::{HeaderMap, HeaderValue};
use std::time::Duration;
use tower_otel::metrics::http_metrics::{HttpLayer, ResponseMetricState};
use tower_otel::metrics::instrument::{duration_boundaries_millis, MetricSide, MetricsRecord};
use tower_otel::metrics::measurement::Measurement;
use tower_otel::util::attribute::{clone_attributes, KeyValue, Value};
use tower_otel::util::http_attrs::{Outcome, RequestHead, ResponseHead, Uri, Version};

fn text(key: &str, value: &str) -> KeyValue {
    KeyValue { key: key.to_string(), value: Value::Str(value.to_string()) }
}

fn number(key: &str, value: i64) -> KeyValue {
    KeyValue { key: key.to_string(), value: Value::Int(value) }
}

fn request<'a>(headers: &'a HeaderMap) -> RequestHead<'a> {
    RequestHead {
        method: "GET",
        version: Version::Http11,
        uri: Uri {
            scheme: Some("https"),
            authority: Some("example.com:8443"),
            host: Some("example.com"),
            port: Some(8443),
            path: "/users/42",
            query: None,
        },
        headers,
        route: Some("/users/:id"),
        body_size: Some(11),
    }
}

fn active_sum(list: &[Measurement]) -> i64 {
    let mut sum = 0;
    for m in list {
        if let Measurement::ActiveRequests { delta, .. } = m {
            sum += *delta;
        }
    }
    sum
}

fn durations(list: &[Measurement]) -> Vec<Duration> {
    let mut found = Vec::new();
    for m in list {
        if let Measurement::Duration { elapsed, .. } = m {
            found.push(*elapsed);
        }
    }
    found
}

#[test]
fn request_counts_up_once_and_down_once() {
    let headers = HeaderMap::new();
    let service = HttpLayer::client().layer(());
    let (mut future, step) = service.call(&request(&headers));
    let active = vec![
        text("http.request.method", "GET"),
        text("server.address", "example.com"),
        number("server.port", 8443),
        text("url.scheme", "https"),
    ];
    match &step {
        Measurement::ActiveRequests { delta, attributes } => {
            assert_eq!(*delta, 1);
            assert_eq!(*attributes, active);
        }
        other => panic!("unexpected {:?}", other),
    }
    let response_headers = HeaderMap::new();
    let response = ResponseHead { status: 200, headers: &response_headers, body_size: Some(5) };
    assert!(future.is_live());
    assert!(future.poll(None).is_empty());
    assert!(future.is_live());
    let done = future.poll(Some((Duration::from_millis(1500), Outcome::Response(response))));
    assert!(!future.is_live());
    assert_eq!(done.len(), 4);
    let mut all = vec![step];
    all.extend(done);
    all.extend(future.poll(Some((Duration::from_millis(1600), Outcome::Response(response)))));
    all.extend(future.poll(Some((Duration::from_millis(1700), Outcome::Error("late")))));
    all.extend(future.poll(None));
    all.extend(future.cancel());
    all.extend(future.cancel());
    assert_eq!(all.len(), 5);
    assert_eq!(active_sum(&all), 0);
    assert_eq!(durations(&all), vec![Duration::from_millis(1500)]);
    let downs: Vec<&Measurement> = all
        .iter()
        .filter(|m| matches!(m, Measurement::ActiveRequests { delta: -1, .. }))
        .collect();
    assert_eq!(downs.len(), 1);
    match downs[0] {
        Measurement::ActiveRequests { attributes, .. } => assert_eq!(*attributes, active),
        other => panic!("unexpected {:?}", other),
    }
}

#[test]
fn cancelled_request_counts_down_once() {
    let headers = HeaderMap::new();
    let service = HttpLayer::server().layer(());
    let (mut future, step) = service.call(&request(&headers));
    assert!(future.is_wf());
    assert!(future.poll(None).is_empty());
    let gone = future.cancel();
    assert_eq!(gone.len(), 1);
    assert!(!future.is_live());
    let mut all = vec![step];
    all.extend(gone);
    all.extend(future.cancel());
    all.extend(future.poll(Some((Duration::from_millis(1), Outcome::Error("late")))));
    assert_eq!(active_sum(&all), 0);
    assert!(durations(&all).is_empty());
    match (&all[0], &all[1]) {
        (
            Measurement::ActiveRequests { delta: 1, attributes: up },
            Measurement::ActiveRequests { delta: -1, attributes: down },
        ) => assert_eq!(up, down),
        other => panic!("unexpected {:?}", other),
    }
}

#[test]
fn one_duration_for_each_request() {
    let headers = HeaderMap::new();
    let state = ResponseMetricState::new(MetricSide::Client, &request(&headers));
    let response_headers = HeaderMap::new();
    let response = ResponseHead { status: 204, headers: &response_headers, body_size: None };
    let elapsed = Duration::new(2, 250_000_000);
    let done = state.finish(elapsed, &Outcome::Response(response));
    assert_eq!(durations(&done), vec![elapsed]);
    assert_eq!(durations(&done)[0].as_secs_f64(), 2.25);
}

#[test]
fn failed_request_still_leaves_one_duration() {
    let headers = HeaderMap::new();
    let state = ResponseMetricState::new(MetricSide::Client, &request(&headers));
    let elapsed = Duration::from_micros(10);
    let done = state.finish(elapsed, &Outcome::Error("connection refused"));
    assert_eq!(durations(&done), vec![elapsed]);
    assert_eq!(active_sum(&done), -1);
    let all = vec![
        text("http.request.method", "GET"),
        text("server.address", "example.com"),
        number("server.port", 8443),
        text("url.scheme", "https"),
        text("network.protocol.name", "http"),
        text("network.protocol.version", "1.1"),
        text("http.route", "/users/:id"),
        text("error.type", "connection refused"),
    ];
    assert_eq!(done.len(), 3);
    match &done[0] {
        Measurement::Duration { attributes, .. } => assert_eq!(*attributes, all),
        other => panic!("unexpected {:?}", other),
    }
    match &done[1] {
        Measurement::ActiveRequests { delta, attributes } => {
            assert_eq!(*delta, -1);
            assert_eq!(attributes[..], all[..4]);
        }
        other => panic!("unexpected {:?}", other),
    }
    match &done[2] {
        Measurement::RequestBodySize { bytes, attributes } => {
            assert_eq!(*bytes, 11);
            assert_eq!(*attributes, all);
        }
        other => panic!("unexpected {:?}", other),
    }
}

#[test]
fn sizes_are_measured_where_known() {
    let mut headers = HeaderMap::new();
    headers.insert("content-length", HeaderValue::from_static("100"));
    let mut head = request(&headers);
    head.body_size = None;
    let state = ResponseMetricState::new(MetricSide::Server, &head);
    let mut response_headers = HeaderMap::new();
    response_headers.insert("content-length", HeaderValue::from_static("2048"));
    let response = ResponseHead { status: 201, headers: &response_headers, body_size: Some(1) };
    let done = state.finish(Duration::ZERO, &Outcome::Response(response));
    assert_eq!(done.len(), 4);
    assert!(matches!(&done[0], Measurement::Duration { .. }));
    assert!(matches!(&done[1], Measurement::ActiveRequests { delta: -1, .. }));
    assert!(matches!(&done[2], Measurement::RequestBodySize { bytes: 100, .. }));
    assert!(matches!(&done[3], Measurement::ResponseBodySize { bytes: 2048, .. }));
    match &done[3] {
        Measurement::ResponseBodySize { attributes, .. } => {
            assert_eq!(attributes.last(), Some(&number("http.response.status_code", 201)));
        }
        other => panic!("unexpected {:?}", other),
    }

    let headers = HeaderMap::new();
    let mut head = request(&headers);
    head.body_size = None;
    let state = ResponseMetricState::new(MetricSide::Server, &head);
    let response_headers = HeaderMap::new();
    let response = ResponseHead { status: 200, headers: &response_headers, body_size: None };
    let done = state.finish(Duration::ZERO, &Outcome::Response(response));
    assert_eq!(done.len(), 2);
}

#[test]
fn attributes_of_a_received_request() {
    let mut headers = HeaderMap::new();
    headers.insert("x-forwarded-proto", HeaderValue::from_static("http"));
    let head = RequestHead {
        method: "PROPFIND",
        version: Version::Other,
        uri: Uri {
            scheme: Some("https"),
            authority: None,
            host: None,
            port: None,
            path: "/",
            query: None,
        },
        headers: &headers,
        route: None,
        body_size: None,
    };
    let state = ResponseMetricState::new(MetricSide::Server, &head);
    assert_eq!(
        state.active_requests_attributes(),
        [text("http.request.method", "_OTHER"), text("url.scheme", "http")]
    );
    assert_eq!(
        state.attributes(),
        [
            text("http.request.method", "_OTHER"),
            text("url.scheme", "http"),
            text("network.protocol.name", "http"),
        ]
    );
    let state = ResponseMetricState::new(MetricSide::Client, &head);
    assert_eq!(
        state.active_requests_attributes(),
        [text("http.request.method", "_OTHER"), text("url.scheme", "https")]
    );
}

#[test]
fn active_attributes_are_a_strict_prefix() {
    let headers = HeaderMap::new();
    let head = RequestHead {
        method: "GET",
        version: Version::Other,
        uri: Uri { scheme: None, authority: None, host: None, port: None, path: "/", query: None },
        headers: &headers,
        route: None,
        body_size: None,
    };
    let mut state = ResponseMetricState::new(MetricSide::Server, &head);
    assert_eq!(state.active_requests_attributes(), [text("http.request.method", "GET")]);
    assert_eq!(state.attributes().len(), 2);
    assert_eq!(state.attributes()[..1], *state.active_requests_attributes());
    state.push_response_attributes(&Outcome::Error("e"));
    assert_eq!(state.active_requests_attributes(), [text("http.request.method", "GET")]);
    assert_eq!(state.attributes().len(), 3);
    assert_eq!(state.attributes()[2], text("error.type", "e"));
    let copy = clone_attributes(state.attributes());
    assert_eq!(copy[..], *state.attributes());
}

#[test]
fn instruments_of_each_side() {
    let record = MetricsRecord::server();
    assert_eq!(record.side, MetricSide::Server);
    assert_eq!(record.request_duration.name, "http.server.request.duration");
    assert_eq!(record.request_duration.description, "Duration of HTTP server requests");
    assert_eq!(record.request_duration.unit, "s");
    assert_eq!(record.active_requests.name, "http.server.active_requests");
    assert_eq!(record.active_requests.description, "Number of active HTTP server requests");
    assert_eq!(record.active_requests.unit, "{request}");
    assert_eq!(record.request_body_size.name, "http.server.request.body.size");
    assert_eq!(record.request_body_size.description, "Size of HTTP server request body");
    assert_eq!(record.request_body_size.unit, "By");
    assert_eq!(record.response_body_size.name, "http.server.response.body.size");
    assert_eq!(record.response_body_size.description, "Size of HTTP server response body");
    assert_eq!(record.response_body_size.unit, "By");

    let record = MetricsRecord::client();
    assert_eq!(record.side, MetricSide::Client);
    assert_eq!(record.request_duration.name, "http.client.request.duration");
    assert_eq!(record.request_duration.description, "Duration of HTTP client requests");
    assert_eq!(record.active_requests.name, "http.client.active_requests");
    assert_eq!(record.active_requests.description, "Number of active HTTP client requests");
    assert_eq!(record.request_body_size.name, "http.client.request.body.size");
    assert_eq!(record.request_body_size.description, "Size of HTTP client request body");
    assert_eq!(record.response_body_size.name, "http.client.response.body.size");
    assert_eq!(record.response_body_size.description, "Size of HTTP client response body");

    assert_eq!(HttpLayer::server().record().side, MetricSide::Server);
    assert_eq!(HttpLayer::client().layer(()).record().side, MetricSide::Client);
}

#[test]
fn duration_buckets_in_seconds() {
    let seconds: Vec<f64> =
        duration_boundaries_millis().into_iter().map(|ms| ms as f64 / 1000.0).collect();
    assert_eq!(
        seconds,
        vec![0.005, 0.01, 0.025, 0.05, 0.075, 0.1, 0.25, 0.5, 0.75, 1.0, 2.5, 5.0, 7.5, 10.0]
    );
}

#[test]
fn failed_client_call_is_traced_and_measured() {
    let headers = HeaderMap::new();
    let head = request(&headers);
    let traced = tower_otel::trace::http_trace::HttpLayer::client(tracing::Level::INFO).layer(());
    let measured = HttpLayer::client().layer(());

    let mut span = traced.call(&head);
    let (mut future, step) = measured.call(&head);
    let error = std::io::Error::new(std::io::ErrorKind::ConnectionRefused, "connection refused");
    let message = error.to_string();

    assert!(span.poll(None).is_empty());
    assert!(future.poll(None).is_empty());
    span.poll(Some(Outcome::Error(&message)));
    let mut left = vec![step];
    left.extend(future.poll(Some((Duration::from_millis(20), Outcome::Error(&message)))));
    left.extend(future.cancel());
    span.cancel();

    assert!(span.span.closed);
    assert_eq!(
        span.span.get("otel.status_code"),
        Some(&Value::Str("ERROR".to_string()))
    );
    assert_eq!(span.span.get("error.message"), Some(&Value::Str(error.to_string())));
    assert_eq!(durations(&left), vec![Duration::from_millis(20)]);
    assert_eq!(active_sum(&left), 0);
    match &left[1] {
        Measurement::Duration { attributes, .. } => {
            assert_eq!(attributes.last(), Some(&text("error.type", "connection refused")));
        }
        other => panic!("unexpected {:?}", other),
    }
}

#[test]
fn server_side_folds_the_forwarded_scheme() {
    let mut headers = HeaderMap::new();
    headers.insert("forwarded", HeaderValue::from_static("Proto=HTTPS;by=203.0.113.43"));
    let mut head = request(&headers);
    head.uri.scheme = None;
    let state = ResponseMetricState::new(MetricSide::Server, &head);
    assert_eq!(
        state.active_requests_attributes().last(),
        Some(&text("url.scheme", "https"))
    );
}
