//! What the future of a traced request keeps between its polls, and the
//! one step that a poll or the drop of the future takes on it.

use crate::trace::grpc;
use crate::trace::http_client;
use crate::trace::http_trace;
use crate::trace::span::{
    after_poll, entry_views, record_error, EntryView, SpanEntry, SpanKind, SpanRecord,
};
use crate::util::http_attrs::Outcome;
use vstd::prelude::*;

verus! {

/// The decorator that opened a span.
#[derive(Clone, Copy, Debug, PartialEq, Eq)]
pub enum Protocol {
    /// An HTTP exchange, seen from the given side.
    Http(SpanKind),
    /// A gRPC call.
    Grpc,
    /// An outgoing HTTP request.
    HttpClient,
}

/// What the future of a request keeps between its polls: the record of the
/// span, and the decorator that opened it.
#[derive(Debug)]
pub struct ResponseFuture {
    pub span: SpanRecord,
    pub protocol: Protocol,
}

/// What the end of the wait leaves on the span of each decorator.
pub open spec fn outcome_log(protocol: Protocol, outcome: Outcome) -> Seq<EntryView> {
    match protocol {
        Protocol::Http(kind) => http_trace::outcome_log(kind, outcome),
        Protocol::Grpc => grpc::outcome_log(outcome),
        Protocol::HttpClient => http_client::outcome_log(outcome),
    }
}

/// What a poll would leave on the span: the log of the outcome if the
/// response is there, nothing if it is not.
pub open spec fn poll_log(protocol: Protocol, ready: Option<Outcome>) -> Option<Seq<EntryView>> {
    match ready {
        Some(outcome) => Some(outcome_log(protocol, outcome)),
        None => None,
    }
}

impl ResponseFuture {
    /// One poll of the wait for the response, with the outcome if there is
    /// one. The first outcome is recorded on the span, which is then closed;
    /// a poll without an outcome, and any poll of a closed span, changes
    /// nothing. Returns what the poll recorded.
    pub fn poll(&mut self, ready: Option<Outcome>) -> (recorded: Vec<SpanEntry>)
        ensures
            final(self).protocol == old(self).protocol,
            final(self).span.same_span(&old(self).span),
            (final(self).span.log(), final(self).span.closed) == after_poll(
                old(self).span.log(),
                old(self).span.closed,
                poll_log(old(self).protocol, ready),
            ),
            final(self).span.log() == old(self).span.log() + entry_views(recorded@),
    {
        let start = self.span.entries.len();
        if !self.span.closed {
            match ready {
                Some(Outcome::Response(response)) => {
                    match self.protocol {
                        Protocol::Http(kind) => {
                            http_trace::record_response(&mut self.span, kind, &response);
                        },
                        Protocol::Grpc => {
                            grpc::record_response(&mut self.span, &response);
                        },
                        Protocol::HttpClient => {
                            http_client::record_response(&mut self.span, &response);
                        },
                    }
                    self.span.close();
                },
                Some(Outcome::Error(message)) => {
                    record_error(&mut self.span, message);
                    self.span.close();
                },
                None => {},
            }
        }
        let recorded = self.span.entries_from(start);
        assert(self.span.log() =~= old(self).span.log() + entry_views(recorded@));
        recorded
    }

    /// The drop of the future. A span that is still open is closed as it is,
    /// without an outcome; a closed span stays as it is.
    pub fn cancel(&mut self)
        ensures
            final(self).protocol == old(self).protocol,
            final(self).span.same_span(&old(self).span),
            final(self).span.closed,
            final(self).span.log() == old(self).span.log(),
    {
        if !self.span.closed {
            self.span.close();
        }
    }
}

} // verus!
