//! The instruments of a layer: what each is created with.

use vstd::prelude::*;

verus! {

/// The side from which requests are measured.
#[derive(Clone, Copy, Debug, PartialEq, Eq)]
pub enum MetricSide {
    /// The requests are sent to some remote service.
    Client,
    /// The requests are handled on the server side.
    Server,
}

/// What an instrument is created with.
#[derive(Clone, Copy, Debug)]
pub struct Instrument {
    pub name: &'static str,
    pub description: &'static str,
    pub unit: &'static str,
}

impl Instrument {
    /// Whether the instrument has this name, description and unit.
    pub open spec fn is(&self, name: &str, description: &str, unit: &str) -> bool {
        self.name@ == name@ && self.description@ == description@ && self.unit@ == unit@
    }
}

/// The instruments of one layer.
#[derive(Clone, Copy, Debug)]
pub struct MetricsRecord {
    pub side: MetricSide,
    /// A histogram of seconds.
    pub request_duration: Instrument,
    /// A counter that goes up and down.
    pub active_requests: Instrument,
    /// A histogram of octets.
    pub request_body_size: Instrument,
    /// A histogram of octets.
    pub response_body_size: Instrument,
}

impl MetricsRecord {
    /// The instruments of the server side, as they are to be created.
    pub open spec fn is_server(&self) -> bool {
        &&& self.side == MetricSide::Server
        &&& self.request_duration.is(
            "http.server.request.duration",
            "Duration of HTTP server requests",
            "s",
        )
        &&& self.active_requests.is(
            "http.server.active_requests",
            "Number of active HTTP server requests",
            "{request}",
        )
        &&& self.request_body_size.is(
            "http.server.request.body.size",
            "Size of HTTP server request body",
            "By",
        )
        &&& self.response_body_size.is(
            "http.server.response.body.size",
            "Size of HTTP server response body",
            "By",
        )
    }

    /// The instruments of the client side, as they are to be created.
    pub open spec fn is_client(&self) -> bool {
        &&& self.side == MetricSide::Client
        &&& self.request_duration.is(
            "http.client.request.duration",
            "Duration of HTTP client requests",
            "s",
        )
        &&& self.active_requests.is(
            "http.client.active_requests",
            "Number of active HTTP client requests",
            "{request}",
        )
        &&& self.request_body_size.is(
            "http.client.request.body.size",
            "Size of HTTP client request body",
            "By",
        )
        &&& self.response_body_size.is(
            "http.client.response.body.size",
            "Size of HTTP client response body",
            "By",
        )
    }

    /// The instruments of the server side.
    pub fn server() -> (record: Self)
        ensures
            record.is_server(),
    {
        Self {
            side: MetricSide::Server,
            request_duration: Instrument {
                name: "http.server.request.duration",
                description: "Duration of HTTP server requests",
                unit: "s",
            },
            active_requests: Instrument {
                name: "http.server.active_requests",
                description: "Number of active HTTP server requests",
                unit: "{request}",
            },
            request_body_size: Instrument {
                name: "http.server.request.body.size",
                description: "Size of HTTP server request body",
                unit: "By",
            },
            response_body_size: Instrument {
                name: "http.server.response.body.size",
                description: "Size of HTTP server response body",
                unit: "By",
            },
        }
    }

    /// The instruments of the client side.
    pub fn client() -> (record: Self)
        ensures
            record.is_client(),
    {
        Self {
            side: MetricSide::Client,
            request_duration: Instrument {
                name: "http.client.request.duration",
                description: "Duration of HTTP client requests",
                unit: "s",
            },
            active_requests: Instrument {
                name: "http.client.active_requests",
                description: "Number of active HTTP client requests",
                unit: "{request}",
            },
            request_body_size: Instrument {
                name: "http.client.request.body.size",
                description: "Size of HTTP client request body",
                unit: "By",
            },
            response_body_size: Instrument {
                name: "http.client.response.body.size",
                description: "Size of HTTP client response body",
                unit: "By",
            },
        }
    }
}

/// The upper bounds of the buckets of the duration histogram, in
/// milliseconds.
pub open spec fn duration_buckets() -> Seq<u64> {
    seq![5, 10, 25, 50, 75, 100, 250, 500, 750, 1000, 2500, 5000, 7500, 10000]
}

/// The upper bounds of the buckets of the duration histogram, in
/// milliseconds.
pub fn duration_boundaries_millis() -> (bounds: Vec<u64>)
    ensures
        bounds@ == duration_buckets(),
{
    let bounds: Vec<u64> = vec![5, 10, 25, 50, 75, 100, 250, 500, 750, 1000, 2500, 5000, 7500, 10000];
    assert(bounds@ =~= duration_buckets());
    bounds
}

} // verus!
