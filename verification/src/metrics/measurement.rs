//! Measurements: what a request leaves on the instruments, and what that
//! adds up to over the life of a request.

use crate::util::attribute::{views, Attribute, KeyValue, ValueView};
use crate::util::header::header_entries;
use crate::util::http_attrs::{body_size, Outcome};
use std::time::Duration;
use vstd::prelude::*;

verus! {

/// The attribute that the end of the wait adds: the status of the response,
/// or the text of the error.
pub open spec fn outcome_attribute(outcome: Outcome) -> Attribute {
    match outcome {
        Outcome::Response(response) => (
            "http.response.status_code"@,
            ValueView::Int(response.status as int),
        ),
        Outcome::Error(message) => ("error.type"@, ValueView::Str(message@)),
    }
}

/// The size of the body of the response, where there is a response and its
/// size is known.
pub open spec fn outcome_size(outcome: Outcome) -> Option<u64> {
    match outcome {
        Outcome::Response(response) => body_size(
            header_entries(*response.headers),
            response.body_size,
        ),
        Outcome::Error(_) => None,
    }
}

/// One value for one instrument, with the attributes it is recorded under.
#[derive(Debug)]
pub enum Measurement {
    /// The time that a request took, for the duration histogram.
    Duration { elapsed: Duration, attributes: Vec<KeyValue> },
    /// A step of the counter of requests under way.
    ActiveRequests { delta: i64, attributes: Vec<KeyValue> },
    /// The size of a request body, for its histogram.
    RequestBodySize { bytes: u64, attributes: Vec<KeyValue> },
    /// The size of a response body, for its histogram.
    ResponseBodySize { bytes: u64, attributes: Vec<KeyValue> },
}

/// What a measurement holds.
pub enum MeasurementView {
    Duration { elapsed: Duration, attributes: Seq<Attribute> },
    ActiveRequests { delta: int, attributes: Seq<Attribute> },
    RequestBodySize { bytes: u64, attributes: Seq<Attribute> },
    ResponseBodySize { bytes: u64, attributes: Seq<Attribute> },
}

impl View for Measurement {
    type V = MeasurementView;

    open spec fn view(&self) -> MeasurementView {
        match self {
            Measurement::Duration { elapsed, attributes } => MeasurementView::Duration {
                elapsed: *elapsed,
                attributes: views(attributes@),
            },
            Measurement::ActiveRequests { delta, attributes } => MeasurementView::ActiveRequests {
                delta: *delta as int,
                attributes: views(attributes@),
            },
            Measurement::RequestBodySize { bytes, attributes } => MeasurementView::RequestBodySize {
                bytes: *bytes,
                attributes: views(attributes@),
            },
            Measurement::ResponseBodySize { bytes, attributes } => MeasurementView::ResponseBodySize {
                bytes: *bytes,
                attributes: views(attributes@),
            },
        }
    }
}

/// What a list of measurements holds.
pub open spec fn measurements(list: Seq<Measurement>) -> Seq<MeasurementView> {
    Seq::new(list.len(), |i: int| list[i]@)
}

/// The size of a body as a measurement, where the size is known.
pub open spec fn optional_size(
    size: Option<u64>,
    measurement: spec_fn(u64) -> MeasurementView,
) -> Seq<MeasurementView> {
    match size {
        Some(bytes) => seq![measurement(bytes)],
        None => Seq::<MeasurementView>::empty(),
    }
}

/// What a request leaves when the wait for its response ends: one duration,
/// one step down of the requests under way, and the sizes of the bodies
/// where they are known. `attributes` are those of the request with that of
/// the outcome, `active` those under which the request was counted.
pub open spec fn finished(
    attributes: Seq<Attribute>,
    active: Seq<Attribute>,
    elapsed: Duration,
    request_size: Option<u64>,
    response_size: Option<u64>,
) -> Seq<MeasurementView> {
    seq![
        MeasurementView::Duration { elapsed, attributes },
        MeasurementView::ActiveRequests { delta: -1, attributes: active },
    ] + optional_size(
        request_size,
        |bytes: u64| MeasurementView::RequestBodySize { bytes, attributes },
    ) + optional_size(
        response_size,
        |bytes: u64| MeasurementView::ResponseBodySize { bytes, attributes },
    )
}

/// What a request leaves when it is given up before its response is there:
/// one step down of the requests under way.
pub open spec fn cancelled(active: Seq<Attribute>) -> Seq<MeasurementView> {
    seq![MeasurementView::ActiveRequests { delta: -1, attributes: active }]
}

/// The sum of the steps that `list` takes on the counter of requests under
/// way, over all attributes.
pub open spec fn active_total(list: Seq<MeasurementView>) -> int
    decreases list.len(),
{
    if list.len() == 0 {
        0
    } else {
        active_total(list.drop_last()) + (match list.last() {
            MeasurementView::ActiveRequests { delta, .. } => delta,
            _ => 0,
        })
    }
}

/// The sum of the steps that `list` takes on the counter of requests under
/// way with the attributes `active`.
pub open spec fn active_total_under(list: Seq<MeasurementView>, active: Seq<Attribute>) -> int
    decreases list.len(),
{
    if list.len() == 0 {
        0
    } else {
        active_total_under(list.drop_last(), active) + (match list.last() {
            MeasurementView::ActiveRequests { delta, attributes } => if attributes == active {
                delta
            } else {
                0
            },
            _ => 0,
        })
    }
}

/// The number of durations in `list`.
pub open spec fn duration_count(list: Seq<MeasurementView>) -> nat
    decreases list.len(),
{
    if list.len() == 0 {
        0
    } else {
        duration_count(list.drop_last()) + (match list.last() {
            MeasurementView::Duration { .. } => 1nat,
            _ => 0nat,
        })
    }
}

/// The step that counts a request as under way.
pub open spec fn started(active: Seq<Attribute>) -> MeasurementView {
    MeasurementView::ActiveRequests { delta: 1, attributes: active }
}

/// The steps of two lists add up.
pub proof fn lemma_active_total_concat(a: Seq<MeasurementView>, b: Seq<MeasurementView>)
    ensures
        active_total(a + b) == active_total(a) + active_total(b),
    decreases b.len(),
{
    if b.len() == 0 {
        assert(a + b =~= a);
    } else {
        assert((a + b).drop_last() =~= a + b.drop_last());
        assert((a + b).last() == b.last());
        lemma_active_total_concat(a, b.drop_last());
    }
}

/// The steps of two lists under the same attributes add up.
pub proof fn lemma_active_total_under_concat(
    a: Seq<MeasurementView>,
    b: Seq<MeasurementView>,
    active: Seq<Attribute>,
)
    ensures
        active_total_under(a + b, active) == active_total_under(a, active) + active_total_under(
            b,
            active,
        ),
    decreases b.len(),
{
    if b.len() == 0 {
        assert(a + b =~= a);
    } else {
        assert((a + b).drop_last() =~= a + b.drop_last());
        assert((a + b).last() == b.last());
        lemma_active_total_under_concat(a, b.drop_last(), active);
    }
}

/// The durations of two lists add up.
pub proof fn lemma_duration_count_concat(a: Seq<MeasurementView>, b: Seq<MeasurementView>)
    ensures
        duration_count(a + b) == duration_count(a) + duration_count(b),
    decreases b.len(),
{
    if b.len() == 0 {
        assert(a + b =~= a);
    } else {
        assert((a + b).drop_last() =~= a + b.drop_last());
        assert((a + b).last() == b.last());
        lemma_duration_count_concat(a, b.drop_last());
    }
}

/// The sizes of the bodies are no steps of the counter and no durations.
proof fn lemma_sizes_are_neutral(
    attributes: Seq<Attribute>,
    request_size: Option<u64>,
    response_size: Option<u64>,
    under: Seq<Attribute>,
)
    ensures
        ({
            let sizes = optional_size(
                request_size,
                |bytes: u64| MeasurementView::RequestBodySize { bytes, attributes },
            ) + optional_size(
                response_size,
                |bytes: u64| MeasurementView::ResponseBodySize { bytes, attributes },
            );
            &&& active_total(sizes) == 0
            &&& active_total_under(sizes, under) == 0
            &&& duration_count(sizes) == 0
        }),
{
    let first = optional_size(
        request_size,
        |bytes: u64| MeasurementView::RequestBodySize { bytes, attributes },
    );
    let second = optional_size(
        response_size,
        |bytes: u64| MeasurementView::ResponseBodySize { bytes, attributes },
    );
    reveal_with_fuel(active_total, 2);
    reveal_with_fuel(active_total_under, 2);
    reveal_with_fuel(duration_count, 2);
    lemma_active_total_concat(first, second);
    lemma_active_total_under_concat(first, second, under);
    lemma_duration_count_concat(first, second);
}

/// What the end of the wait leaves: one step down, under the attributes
/// that the request was counted under, and one duration.
proof fn lemma_finished_totals(
    attributes: Seq<Attribute>,
    active: Seq<Attribute>,
    elapsed: Duration,
    request_size: Option<u64>,
    response_size: Option<u64>,
    other: Seq<Attribute>,
)
    ensures
        ({
            let done = finished(attributes, active, elapsed, request_size, response_size);
            &&& active_total(done) == -1
            &&& active_total_under(done, other) == (if other == active {
                -1int
            } else {
                0int
            })
            &&& duration_count(done) == 1
        }),
{
    let head = seq![
        MeasurementView::Duration { elapsed, attributes },
        MeasurementView::ActiveRequests { delta: -1, attributes: active },
    ];
    let sizes = optional_size(
        request_size,
        |bytes: u64| MeasurementView::RequestBodySize { bytes, attributes },
    ) + optional_size(
        response_size,
        |bytes: u64| MeasurementView::ResponseBodySize { bytes, attributes },
    );
    let done = finished(attributes, active, elapsed, request_size, response_size);
    assert(done =~= head + sizes);
    lemma_sizes_are_neutral(attributes, request_size, response_size, other);
    reveal_with_fuel(active_total, 3);
    reveal_with_fuel(active_total_under, 3);
    reveal_with_fuel(duration_count, 3);
    assert(head.drop_last() =~= seq![MeasurementView::Duration { elapsed, attributes }]);
    lemma_active_total_concat(head, sizes);
    lemma_active_total_under_concat(head, sizes, other);
    lemma_duration_count_concat(head, sizes);
}

/// One poll of the wait for a response, with the time since the request
/// went on and the outcome if the response is there.
pub type PollResult<'a> = Option<(Duration, Outcome<'a>)>;

/// What a poll leaves on the instruments: what the end of the wait leaves,
/// if the request is still under way and the poll finds its outcome; else
/// nothing.
pub open spec fn polled(
    live: bool,
    all: Seq<Attribute>,
    active: Seq<Attribute>,
    request_size: Option<u64>,
    ready: PollResult,
) -> Seq<MeasurementView> {
    match ready {
        Some((elapsed, outcome)) => if live {
            finished(
                all.push(outcome_attribute(outcome)),
                active,
                elapsed,
                request_size,
                outcome_size(outcome),
            )
        } else {
            Seq::<MeasurementView>::empty()
        },
        None => Seq::<MeasurementView>::empty(),
    }
}

/// What the drop of the future leaves on the instruments: the step down, if
/// the request is still under way; else nothing.
pub open spec fn dropped(live: bool, active: Seq<Attribute>) -> Seq<MeasurementView> {
    if live {
        cancelled(active)
    } else {
        Seq::<MeasurementView>::empty()
    }
}

/// What the polls `polls` leave on the instruments, one after another, and
/// whether the request is still under way after them.
pub open spec fn after_polls(
    all: Seq<Attribute>,
    active: Seq<Attribute>,
    request_size: Option<u64>,
    polls: Seq<PollResult>,
) -> (Seq<MeasurementView>, bool)
    decreases polls.len(),
{
    if polls.len() == 0 {
        (Seq::<MeasurementView>::empty(), true)
    } else {
        let (before, live) = after_polls(all, active, request_size, polls.drop_last());
        (
            before + polled(live, all, active, request_size, polls.last()),
            live && polls.last() is None,
        )
    }
}

/// All that a request leaves on the instruments from the call to the drop
/// of its future, polled as `polls` say in between.
pub open spec fn lifetime(
    all: Seq<Attribute>,
    active: Seq<Attribute>,
    request_size: Option<u64>,
    polls: Seq<PollResult>,
) -> Seq<MeasurementView> {
    seq![started(active)] + after_polls(all, active, request_size, polls).0 + dropped(
        after_polls(all, active, request_size, polls).1,
        active,
    )
}

/// What the polls have left so far: nothing while the request is under way,
/// and one step down and one duration once it is not.
proof fn lemma_after_polls(
    all: Seq<Attribute>,
    active: Seq<Attribute>,
    request_size: Option<u64>,
    polls: Seq<PollResult>,
    other: Seq<Attribute>,
)
    ensures
        ({
            let (left, live) = after_polls(all, active, request_size, polls);
            &&& live ==> left == Seq::<MeasurementView>::empty()
            &&& !live ==> active_total(left) == -1 && duration_count(left) == 1
                && active_total_under(left, other) == (if other == active {
                -1int
            } else {
                0int
            })
            &&& live <==> forall|i: int| 0 <= i < polls.len() ==> polls[i] is None
        }),
    decreases polls.len(),
{
    if polls.len() == 0 {
    } else {
        let front = polls.drop_last();
        lemma_after_polls(all, active, request_size, front, other);
        let (before, live) = after_polls(all, active, request_size, front);
        let step = polled(live, all, active, request_size, polls.last());
        if live {
            assert(before + step =~= step);
            match polls.last() {
                Some((elapsed, outcome)) => {
                    lemma_finished_totals(
                        all.push(outcome_attribute(outcome)),
                        active,
                        elapsed,
                        request_size,
                        outcome_size(outcome),
                        other,
                    );
                },
                None => {
                    assert forall|i: int| 0 <= i < polls.len() implies polls[i] is None by {
                        if i < front.len() {
                            assert(front[i] == polls[i]);
                        }
                    }
                },
            }
        } else {
            assert(before + step =~= before);
            let i = choose|i: int| 0 <= i < front.len() && !(front[i] is None);
            assert(polls[i] == front[i]);
        }
    }
}

/// A request changes the number of requests under way by nothing in the
/// end, however the wait for its response goes: it is counted up once when
/// it goes on, and counted down once, under the same attributes, by the
/// first poll that finds an outcome, or by the drop of the future if no poll
/// did. It leaves one duration if a poll found an outcome and none if not.
pub proof fn lemma_lifetime(
    all: Seq<Attribute>,
    active: Seq<Attribute>,
    request_size: Option<u64>,
    polls: Seq<PollResult>,
    other: Seq<Attribute>,
)
    ensures
        active_total(lifetime(all, active, request_size, polls)) == 0,
        active_total_under(lifetime(all, active, request_size, polls), other) == 0,
        duration_count(lifetime(all, active, request_size, polls)) == (if forall|i: int|
            0 <= i < polls.len() ==> polls[i] is None {
            0nat
        } else {
            1nat
        }),
{
    let (left, live) = after_polls(all, active, request_size, polls);
    let gone = dropped(live, active);
    lemma_after_polls(all, active, request_size, polls, other);
    reveal_with_fuel(active_total, 2);
    reveal_with_fuel(active_total_under, 2);
    reveal_with_fuel(duration_count, 2);
    assert(seq![started(active)].drop_last() =~= Seq::<MeasurementView>::empty());
    assert(cancelled(active).drop_last() =~= Seq::<MeasurementView>::empty());
    lemma_active_total_concat(seq![started(active)], left);
    lemma_active_total_concat(seq![started(active)] + left, gone);
    lemma_active_total_under_concat(seq![started(active)], left, other);
    lemma_active_total_under_concat(seq![started(active)] + left, gone, other);
    lemma_duration_count_concat(seq![started(active)], left);
    lemma_duration_count_concat(seq![started(active)] + left, gone);
}

} // verus!
