//! The metrics decorator of a service that handles HTTP requests: what it
//! knows of a request, and what the request leaves on the instruments when
//! it goes on, when its response is there, and when it is given up.

use crate::metrics::instrument::{MetricSide, MetricsRecord};
use crate::metrics::measurement::{
    cancelled, dropped, finished, measurements, outcome_attribute, outcome_size, polled, started,
    Measurement, MeasurementView, PollResult,
};
use crate::util::attribute::{clone_attributes, views, Attribute, KeyValue, ValueView};
use crate::util::header::header_entries;
use crate::util::http_attrs::{
    body_size, http_method, http_request_size, http_response_size, http_route, http_url_scheme,
    http_version, method_name, recv_scheme, version_name, Outcome, RequestHead,
};
use crate::util::text::{borrowed, lemma_text_of_bytes, opt_text};
use std::time::Duration;
use vstd::prelude::*;
use vstd::slice::slice_subrange;
use vstd::utf8::decode_utf8;

verus! {

/// The attribute `key` with the text `value`, where there is one.
pub open spec fn optional_text(key: Seq<char>, value: Option<Seq<char>>) -> Seq<Attribute> {
    match value {
        Some(v) => seq![(key, ValueView::Str(v))],
        None => Seq::<Attribute>::empty(),
    }
}

/// The attribute `key` with the number `value`, where there is one.
pub open spec fn optional_number(key: Seq<char>, value: Option<u16>) -> Seq<Attribute> {
    match value {
        Some(v) => seq![(key, ValueView::Int(v as int))],
        None => Seq::<Attribute>::empty(),
    }
}

/// The scheme of a request as this side sees it: a client reads it from the
/// target, a server from the headers.
pub open spec fn side_scheme(side: MetricSide, request: RequestHead) -> Option<Seq<char>> {
    match side {
        MetricSide::Client => opt_text(request.uri.scheme),
        MetricSide::Server => match recv_scheme(header_entries(*request.headers)) {
            Some(bytes) => Some(decode_utf8(bytes)),
            None => None,
        },
    }
}

/// The attributes under which a request counts as under way: method, and
/// address, port and scheme where the request gives them.
pub open spec fn active_attributes(side: MetricSide, request: RequestHead) -> Seq<Attribute> {
    seq![("http.request.method"@, ValueView::Str(method_name(request.method@)))] + optional_text(
        "server.address"@,
        opt_text(request.uri.host),
    ) + optional_number("server.port"@, request.uri.port) + optional_text(
        "url.scheme"@,
        side_scheme(side, request),
    )
}

/// The attributes that a request adds for the histograms: protocol, and
/// version and route where the request gives them.
pub open spec fn detail_attributes(request: RequestHead) -> Seq<Attribute> {
    seq![("network.protocol.name"@, ValueView::Str("http"@))] + optional_text(
        "network.protocol.version"@,
        version_name(request.version),
    ) + optional_text("http.route"@, opt_text(request.route))
}

/// Adds the attribute `key` with the text `value`.
fn push_text(list: &mut Vec<KeyValue>, key: &str, value: &str)
    ensures
        views(final(list)@) == views(old(list)@).push((key@, ValueView::Str(value@))),
{
    list.push(KeyValue::text(key, value));
    assert(views(list@) =~= views(old(list)@).push((key@, ValueView::Str(value@))));
}

/// Adds the attribute `key` with the text `value`, where there is one.
fn push_optional_text(list: &mut Vec<KeyValue>, key: &str, value: Option<&str>)
    ensures
        views(final(list)@) == views(old(list)@) + optional_text(key@, opt_text(value)),
{
    match value {
        Some(v) => {
            push_text(list, key, v);
        },
        None => {},
    }
    assert(views(list@) =~= views(old(list)@) + optional_text(key@, opt_text(value)));
}

/// Adds the attribute `key` with the number `value`, where there is one.
fn push_optional_number(list: &mut Vec<KeyValue>, key: &str, value: Option<u16>)
    ensures
        views(final(list)@) == views(old(list)@) + optional_number(key@, value),
{
    match value {
        Some(v) => {
            list.push(KeyValue::number(key, v as i64));
        },
        None => {},
    }
    assert(views(list@) =~= views(old(list)@) + optional_number(key@, value));
}

/// What is known of a request whose response is awaited.
#[derive(Debug)]
pub struct ResponseMetricState {
    /// The size of the request body.
    request_body_size: Option<u64>,
    /// The attributes of the request.
    attributes: Vec<KeyValue>,
    /// How many of the attributes, from the first on, the request is counted
    /// under while it is under way.
    active_requests_attributes: usize,
}

impl ResponseMetricState {
    /// The attributes under which the request is counted are the first of
    /// its attributes, and not all of them. Every state that this library
    /// hands out is of this kind.
    pub closed spec fn wf(&self) -> bool {
        self.active_requests_attributes < self.attributes@.len()
    }

    /// Whether the state is well formed.
    pub fn is_wf(&self) -> (ok: bool)
        ensures
            ok == self.wf(),
    {
        self.active_requests_attributes < self.attributes.len()
    }

    /// The attributes of the request.
    pub closed spec fn all(&self) -> Seq<Attribute> {
        views(self.attributes@)
    }

    /// The attributes under which the request is counted.
    pub closed spec fn active(&self) -> Seq<Attribute> {
        views(self.attributes@).take(self.active_requests_attributes as int)
    }

    /// The size of the request body.
    pub closed spec fn request_size(&self) -> Option<u64> {
        self.request_body_size
    }

    /// What is known of `req` when it goes on.
    pub fn new(side: MetricSide, req: &RequestHead) -> (state: Self)
        ensures
            state.wf(),
            state.active() == active_attributes(side, *req),
            state.all() == active_attributes(side, *req) + detail_attributes(*req),
            state.request_size() == body_size(header_entries(*req.headers), req.body_size),
    {
        let request_body_size = http_request_size(req);
        let mut attributes: Vec<KeyValue> = Vec::new();
        assert(views(attributes@) =~= Seq::<Attribute>::empty());
        push_text(&mut attributes, "http.request.method", http_method(req.method));
        push_optional_text(&mut attributes, "server.address", req.uri.host);
        push_optional_number(&mut attributes, "server.port", req.uri.port);
        let received = match side {
            MetricSide::Client => None,
            MetricSide::Server => http_url_scheme(req),
        };
        let url_scheme = match side {
            MetricSide::Client => req.uri.scheme,
            MetricSide::Server => {
                let scheme = borrowed(&received);
                proof {
                    if let Some(s) = scheme {
                        lemma_text_of_bytes(s, s);
                    }
                }
                scheme
            },
        };
        push_optional_text(&mut attributes, "url.scheme", url_scheme);
        let active_requests_attributes = attributes.len();
        let ghost active = views(attributes@);
        assert(active =~= active_attributes(side, *req));
        push_text(&mut attributes, "network.protocol.name", "http");
        push_optional_text(&mut attributes, "network.protocol.version", http_version(req.version));
        push_optional_text(&mut attributes, "http.route", http_route(req));
        assert(views(attributes@) =~= active + detail_attributes(*req));
        assert(views(attributes@).take(active_requests_attributes as int) =~= active);
        Self { request_body_size, attributes, active_requests_attributes }
    }

    /// Adds the attribute of the outcome: the status of the response, or the
    /// text of the error.
    pub fn push_response_attributes(&mut self, res: &Outcome)
        requires
            old(self).wf(),
        ensures
            final(self).wf(),
            final(self).all() == old(self).all().push(outcome_attribute(*res)),
            final(self).active() == old(self).active(),
            final(self).request_size() == old(self).request_size(),
    {
        match res {
            Outcome::Response(response) => {
                self.attributes.push(
                    KeyValue::number("http.response.status_code", response.status as i64),
                );
            },
            Outcome::Error(err) => {
                self.attributes.push(KeyValue::text("error.type", err));
            },
        }
        assert(views(self.attributes@) =~= views(old(self).attributes@).push(
            outcome_attribute(*res),
        ));
        assert(views(self.attributes@).take(self.active_requests_attributes as int) =~= views(
            old(self).attributes@,
        ).take(self.active_requests_attributes as int));
    }

    /// The attributes for each histogram.
    pub fn attributes(&self) -> (list: &[KeyValue])
        ensures
            views(list@) == self.all(),
    {
        self.attributes.as_slice()
    }

    /// The attributes for the counter of requests under way: the first of
    /// the attributes of the request, and not all of them.
    pub fn active_requests_attributes(&self) -> (list: &[KeyValue])
        requires
            self.wf(),
        ensures
            views(list@) == self.active(),
            self.active().len() < self.all().len(),
            self.active() == self.all().take(self.active().len() as int),
    {
        let list = slice_subrange(self.attributes.as_slice(), 0, self.active_requests_attributes);
        assert(views(list@) =~= views(self.attributes@).take(self.active_requests_attributes as int));
        list
    }

    /// The step that counts the request as under way.
    pub fn start(&self) -> (step: Measurement)
        requires
            self.wf(),
        ensures
            step@ == started(self.active()),
    {
        Measurement::ActiveRequests {
            delta: 1,
            attributes: clone_attributes(self.active_requests_attributes()),
        }
    }

    /// Ends the wait for the response after `elapsed`: what the request
    /// leaves on the instruments.
    pub fn finish(self, elapsed: Duration, outcome: &Outcome) -> (list: Vec<Measurement>)
        requires
            self.wf(),
        ensures
            measurements(list@) == finished(
                self.all().push(outcome_attribute(*outcome)),
                self.active(),
                elapsed,
                self.request_size(),
                outcome_size(*outcome),
            ),
    {
        let mut state = self;
        state.push_response_attributes(outcome);
        let mut list: Vec<Measurement> = Vec::new();
        list.push(
            Measurement::Duration { elapsed, attributes: clone_attributes(state.attributes()) },
        );
        list.push(
            Measurement::ActiveRequests {
                delta: -1,
                attributes: clone_attributes(state.active_requests_attributes()),
            },
        );
        if let Some(bytes) = state.request_body_size {
            list.push(
                Measurement::RequestBodySize {
                    bytes,
                    attributes: clone_attributes(state.attributes()),
                },
            );
        }
        if let Outcome::Response(response) = outcome {
            if let Some(bytes) = http_response_size(response) {
                list.push(
                    Measurement::ResponseBodySize {
                        bytes,
                        attributes: clone_attributes(state.attributes()),
                    },
                );
            }
        }
        assert(measurements(list@) =~= finished(
            self.all().push(outcome_attribute(*outcome)),
            self.active(),
            elapsed,
            self.request_size(),
            outcome_size(*outcome),
        ));
        list
    }

    /// Gives the request up before its response is there: what it leaves on
    /// the instruments.
    pub fn cancel(self) -> (list: Vec<Measurement>)
        requires
            self.wf(),
        ensures
            measurements(list@) == cancelled(self.active()),
    {
        let mut list: Vec<Measurement> = Vec::new();
        list.push(
            Measurement::ActiveRequests {
                delta: -1,
                attributes: clone_attributes(self.active_requests_attributes()),
            },
        );
        assert(measurements(list@) =~= cancelled(self.active()));
        list
    }
}

/// What the future of a request keeps between its polls: what is known of
/// the request, until its outcome is measured or the future is dropped.
#[derive(Debug)]
pub struct ResponseFuture {
    state: Option<ResponseMetricState>,
}

impl ResponseFuture {
    /// What is kept of the request is well formed.
    pub closed spec fn wf(&self) -> bool {
        self.state matches Some(state) ==> state.wf()
    }

    /// The request is still counted as under way.
    pub closed spec fn live(&self) -> bool {
        self.state is Some
    }

    /// The attributes of the request, while it is under way.
    pub closed spec fn all(&self) -> Seq<Attribute> {
        self.state->0.all()
    }

    /// The attributes under which the request is counted, while it is under
    /// way.
    pub closed spec fn active(&self) -> Seq<Attribute> {
        self.state->0.active()
    }

    /// The size of the request body.
    pub closed spec fn request_size(&self) -> Option<u64> {
        self.state->0.request_size()
    }

    /// Whether what is kept of the request is well formed.
    pub fn is_wf(&self) -> (ok: bool)
        ensures
            ok == self.wf(),
    {
        match &self.state {
            Some(state) => state.is_wf(),
            None => true,
        }
    }

    /// Whether the request is still counted as under way.
    pub fn is_live(&self) -> (live: bool)
        ensures
            live == self.live(),
    {
        self.state.is_some()
    }

    /// The future of a request that has just gone on.
    pub fn new(state: ResponseMetricState) -> (future: Self)
        requires
            state.wf(),
        ensures
            future.wf(),
            future.live(),
            future.all() == state.all(),
            future.active() == state.active(),
            future.request_size() == state.request_size(),
    {
        ResponseFuture { state: Some(state) }
    }

    /// One poll of the wait for the response, with the time since the
    /// request went on and the outcome if there is one. Returns what the
    /// poll leaves on the instruments: the measurements of the request for
    /// the first outcome, nothing for any other poll.
    pub fn poll(&mut self, ready: PollResult) -> (list: Vec<Measurement>)
        requires
            old(self).wf(),
        ensures
            final(self).wf(),
            measurements(list@) == polled(
                old(self).live(),
                old(self).all(),
                old(self).active(),
                old(self).request_size(),
                ready,
            ),
            final(self).live() == (old(self).live() && ready is None),
            final(self).live() ==> final(self).all() == old(self).all() && final(self).active()
                == old(self).active() && final(self).request_size() == old(self).request_size(),
    {
        match ready {
            Some((elapsed, outcome)) => match self.state.take() {
                Some(state) => state.finish(elapsed, &outcome),
                None => {
                    let list: Vec<Measurement> = Vec::new();
                    assert(measurements(list@) =~= Seq::<MeasurementView>::empty());
                    list
                },
            },
            None => {
                let list: Vec<Measurement> = Vec::new();
                assert(measurements(list@) =~= Seq::<MeasurementView>::empty());
                list
            },
        }
    }

    /// The drop of the future. Returns what it leaves on the instruments:
    /// the step down, if the request was still counted as under way.
    pub fn cancel(&mut self) -> (list: Vec<Measurement>)
        requires
            old(self).wf(),
        ensures
            final(self).wf(),
            !final(self).live(),
            measurements(list@) == dropped(old(self).live(), old(self).active()),
    {
        match self.state.take() {
            Some(state) => state.cancel(),
            None => {
                let list: Vec<Measurement> = Vec::new();
                assert(measurements(list@) =~= Seq::<MeasurementView>::empty());
                list
            },
        }
    }
}

/// Makes decorators that measure the HTTP requests of a service.
#[derive(Clone, Copy, Debug)]
pub struct HttpLayer {
    record: MetricsRecord,
}

impl HttpLayer {
    pub closed spec fn spec_record(&self) -> MetricsRecord {
        self.record
    }

    /// Requests are measured from the server side.
    pub fn server() -> (layer: Self)
        ensures
            layer.spec_record().is_server(),
    {
        Self { record: MetricsRecord::server() }
    }

    /// Requests are measured from the client side.
    pub fn client() -> (layer: Self)
        ensures
            layer.spec_record().is_client(),
    {
        Self { record: MetricsRecord::client() }
    }

    /// The instruments of the layer.
    pub fn record(&self) -> (record: &MetricsRecord)
        ensures
            *record == self.spec_record(),
    {
        &self.record
    }

    /// Wraps `inner` in a decorator with the instruments of this layer.
    pub fn layer<S>(&self, inner: S) -> (service: Http<S>)
        ensures
            service.spec_inner() == inner,
            service.spec_record() == self.spec_record(),
    {
        Http { inner, record: self.record }
    }
}

/// A service together with what its metrics decorator needs.
#[derive(Debug)]
pub struct Http<S> {
    inner: S,
    record: MetricsRecord,
}

impl<S: Clone> Clone for Http<S> {
    fn clone(&self) -> (service: Self)
        ensures
            service.spec_record() == self.spec_record(),
    {
        Http { inner: self.inner.clone(), record: self.record }
    }
}

impl<S> Http<S> {
    pub closed spec fn spec_inner(&self) -> S {
        self.inner
    }

    pub closed spec fn spec_record(&self) -> MetricsRecord {
        self.record
    }

    /// The instruments of the decorator.
    pub fn record(&self) -> (record: &MetricsRecord)
        ensures
            *record == self.spec_record(),
    {
        &self.record
    }

    /// The service that is decorated.
    pub fn get_ref(&self) -> (inner: &S)
        ensures
            *inner == self.spec_inner(),
    {
        &self.inner
    }

    /// The service that is decorated, to call it.
    pub fn get_mut(&mut self) -> (inner: &mut S)
        ensures
            *inner == old(self).spec_inner(),
            final(self).spec_inner() == *final(inner),
            final(self).spec_record() == old(self).spec_record(),
    {
        &mut self.inner
    }

    /// Takes up a request that the service is about to handle: the future
    /// that keeps what is known of it, and the step that counts it as under
    /// way.
    pub fn call(&self, req: &RequestHead) -> (r: (ResponseFuture, Measurement))
        ensures
            r.0.wf(),
            r.0.live(),
            r.0.active() == active_attributes(self.spec_record().side, *req),
            r.0.all() == active_attributes(self.spec_record().side, *req) + detail_attributes(*req),
            r.0.request_size() == body_size(header_entries(*req.headers), req.body_size),
            r.1@ == started(r.0.active()),
    {
        let state = ResponseMetricState::new(self.record.side, req);
        let step = state.start();
        (ResponseFuture::new(state), step)
    }
}

} // verus!
