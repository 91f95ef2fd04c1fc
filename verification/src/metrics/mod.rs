//! What the metrics decorator measures: the instruments of a layer and the
//! measurements that each request leaves on them.

pub mod http_metrics;
pub mod instrument;
pub mod measurement;
