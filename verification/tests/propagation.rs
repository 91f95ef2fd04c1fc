use http::{HeaderMap, HeaderValue};
use opentelemetry::propagation::{Extractor, Injector, TextMapPropagator};
use opentelemetry::trace::{SpanContext, SpanId, TraceContextExt, TraceFlags, TraceId, TraceState};
use opentelemetry::Context;
use opentelemetry_sdk::propagation::TraceContextPropagator;
use tower_otel::trace::extractor::HeaderExtractor;
use tower_otel::trace::injector::HeaderInjector;

struct Writer<'a>(HeaderInjector<'a>);

impl Injector for Writer<'_> {
    fn set(&mut self, key: &str, value: String) {
        self.0.set(key, value)
    }
}

struct Reader<'a>(HeaderExtractor<'a>);

impl Extractor for Reader<'_> {
    fn get(&self, key: &str) -> Option<&str> {
        self.0.get(key)
    }

    fn keys(&self) -> Vec<&str> {
        self.0.keys()
    }
}

#[test]
fn injected_context_is_extracted() {
    let trace_id = TraceId::from_hex("4bf92f3577b34da6a3ce929d0e0e4736").unwrap();
    let span_id = SpanId::from_hex("00f067aa0ba902b7").unwrap();
    let sent = SpanContext::new(
        trace_id,
        span_id,
        TraceFlags::SAMPLED,
        true,
        TraceState::default(),
    );
    let propagator = TraceContextPropagator::new();
    let mut headers = HeaderMap::new();
    propagator
        .inject_context(&Context::new().with_remote_span_context(sent.clone()), &mut Writer(HeaderInjector(&mut headers)));
    assert_eq!(
        headers.get("traceparent").unwrap(),
        "00-4bf92f3577b34da6a3ce929d0e0e4736-00f067aa0ba902b7-01"
    );

    let received = propagator.extract(&Reader(HeaderExtractor(&headers)));
    let span = received.span();
    let found = span.span_context();
    assert!(found.is_valid());
    assert!(found.is_remote());
    assert_eq!(found.trace_id(), trace_id);
    assert_eq!(found.span_id(), span_id);
    assert_eq!(found.trace_flags(), TraceFlags::SAMPLED);
}

#[test]
fn nothing_injected_nothing_extracted() {
    let propagator = TraceContextPropagator::new();
    let headers = HeaderMap::new();
    let received = propagator.extract(&Reader(HeaderExtractor(&headers)));
    assert!(!received.span().span_context().is_valid());

    let mut headers = HeaderMap::new();
    headers.insert("traceparent", HeaderValue::from_static("not a trace parent"));
    let received = propagator.extract(&Reader(HeaderExtractor(&headers)));
    assert!(!received.span().span_context().is_valid());
}

#[test]
fn set_then_get() {
    let mut headers = HeaderMap::new();
    HeaderInjector(&mut headers).set("traceparent", "00-aa-bb-01".to_string());
    HeaderInjector(&mut headers).set("TraceState", "k=v".to_string());
    let extractor = HeaderExtractor(&headers);
    assert_eq!(extractor.get("traceparent"), Some("00-aa-bb-01"));
    assert_eq!(extractor.get("TRACEPARENT"), Some("00-aa-bb-01"));
    assert_eq!(extractor.get("tracestate"), Some("k=v"));
    assert_eq!(extractor.get("baggage"), None);
    assert_eq!(extractor.keys(), vec!["traceparent", "tracestate"]);
}

#[test]
fn set_replaces_the_values_of_a_name() {
    let mut headers = HeaderMap::new();
    headers.append("a", HeaderValue::from_static("1"));
    headers.append("b", HeaderValue::from_static("2"));
    headers.append("a", HeaderValue::from_static("3"));
    HeaderInjector(&mut headers).set("A", "4".to_string());
    let extractor = HeaderExtractor(&headers);
    assert_eq!(extractor.get("a"), Some("4"));
    assert_eq!(extractor.get("b"), Some("2"));
    assert_eq!(extractor.keys(), vec!["a", "b"]);
    assert_eq!(headers.get_all("a").iter().count(), 1);
    assert_eq!(headers.len(), 2);
}

#[test]
fn set_drops_what_cannot_stand_in_a_header() {
    let mut headers = HeaderMap::new();
    headers.insert("kept", HeaderValue::from_static("1"));
    HeaderInjector(&mut headers).set("bad key", "v".to_string());
    HeaderInjector(&mut headers).set("", "v".to_string());
    HeaderInjector(&mut headers).set("key", "line\nbreak".to_string());
    HeaderInjector(&mut headers).set("key", "del\u{7f}".to_string());
    HeaderInjector(&mut headers).set("k\u{e9}y", "v".to_string());
    assert_eq!(headers.len(), 1);
    assert_eq!(HeaderExtractor(&headers).keys(), vec!["kept"]);
    assert_eq!(HeaderExtractor(&headers).get("kept"), Some("1"));
}

#[test]
fn set_value_that_is_no_printable_ascii_is_kept_but_not_read() {
    let mut headers = HeaderMap::new();
    HeaderInjector(&mut headers).set("key", "caf\u{e9}".to_string());
    assert_eq!(headers.len(), 1);
    assert_eq!(headers.get("key").unwrap().as_bytes(), "caf\u{e9}".as_bytes());
    assert_eq!(HeaderExtractor(&headers).get("key"), None);
    assert_eq!(HeaderExtractor(&headers).keys(), vec!["key"]);

    HeaderInjector(&mut headers).set("tab", "a\tb".to_string());
    assert_eq!(HeaderExtractor(&headers).get("tab"), Some("a\tb"));
}

#[test]
fn get_with_a_key_that_is_no_name() {
    let mut headers = HeaderMap::new();
    headers.insert("a", HeaderValue::from_static("1"));
    let extractor = HeaderExtractor(&headers);
    assert_eq!(extractor.get(""), None);
    assert_eq!(extractor.get("a b"), None);
    assert_eq!(extractor.get("a\u{e9}"), None);
}

#[test]
fn get_reads_the_first_value() {
    let mut headers = HeaderMap::new();
    headers.append("a", HeaderValue::from_static("1"));
    headers.append("a", HeaderValue::from_static("2"));
    assert_eq!(HeaderExtractor(&headers).get("a"), Some("1"));
    assert_eq!(HeaderExtractor(&headers).keys(), vec!["a"]);
}

#[test]
fn keys_of_no_headers() {
    let headers = HeaderMap::new();
    assert!(HeaderExtractor(&headers).keys().is_empty());
}
