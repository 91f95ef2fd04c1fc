//! The record of one request's span: what was recorded on it, in order, and
//! whether it is still open.

use crate::util::attribute::{Attribute, KeyValue, Value, ValueView};
use crate::util::header::{
    header_entries, header_iter, header_name_text, header_value_bytes, header_value_to_str, pairs,
    visible_ascii, Pair,
};
use crate::util::http_attrs::Outcome;
use crate::util::text::{lemma_text_of_bytes, opt_text, str_eq};
use http::header::HeaderMap;
use tracing::Level;
use vstd::prelude::*;
use vstd::string::{StringExecFns, StringSliceAdditionalSpecFns};
use vstd::utf8::decode_utf8;

verus! {

/// `tracing::Level`, which verified code only hands on.
#[verifier::external_type_specification]
#[verifier::external_body]
pub struct ExLevel(Level);

/// The side of an exchange that a span describes.
#[derive(Clone, Copy, Debug, PartialEq, Eq)]
pub enum SpanKind {
    /// The span describes a request sent to some remote service.
    Client,
    /// The span describes the server-side handling of a request.
    Server,
}

/// How the trace context passes between a span and the headers of its
/// request.
#[derive(Clone, Copy, Debug, PartialEq, Eq)]
pub enum Propagation {
    /// The context of the span is written into the headers before the
    /// request goes on.
    Inject,
    /// The context found in the headers becomes the parent of the span.
    Extract,
    /// The headers are left alone and the span keeps its ambient parent.
    Ambient,
}

/// One thing recorded on a span.
#[derive(Debug, PartialEq, Eq)]
pub enum SpanEntry {
    /// The value of one of the fields that the span was created with.
    Field(KeyValue),
    /// An attribute added to the span under a key made at run time.
    Attribute(KeyValue),
}

/// What an entry holds.
pub enum EntryView {
    Field(Attribute),
    Attribute(Attribute),
}

impl View for SpanEntry {
    type V = EntryView;

    open spec fn view(&self) -> EntryView {
        match self {
            SpanEntry::Field(kv) => EntryView::Field(kv@),
            SpanEntry::Attribute(kv) => EntryView::Attribute(kv@),
        }
    }
}

impl Clone for SpanEntry {
    fn clone(&self) -> (r: Self)
        ensures
            r@ == self@,
    {
        match self {
            SpanEntry::Field(kv) => SpanEntry::Field(kv.clone()),
            SpanEntry::Attribute(kv) => SpanEntry::Attribute(kv.clone()),
        }
    }
}

/// What a list of entries holds.
pub open spec fn entry_views(list: Seq<SpanEntry>) -> Seq<EntryView> {
    Seq::new(list.len(), |i: int| list[i]@)
}

impl SpanEntry {
    /// The attribute that the entry records.
    pub fn key_value(&self) -> (kv: &KeyValue)
        ensures
            kv@ == entry_attribute(self@),
    {
        match self {
            SpanEntry::Field(kv) => kv,
            SpanEntry::Attribute(kv) => kv,
        }
    }
}

/// The attribute that an entry records.
pub open spec fn entry_attribute(entry: EntryView) -> Attribute {
    match entry {
        EntryView::Field(a) => a,
        EntryView::Attribute(a) => a,
    }
}

/// A field with a text for its value.
pub open spec fn text_field(key: Seq<char>, value: Seq<char>) -> EntryView {
    EntryView::Field((key, ValueView::Str(value)))
}

/// A field with a number for its value.
pub open spec fn number_field(key: Seq<char>, value: int) -> EntryView {
    EntryView::Field((key, ValueView::Int(value)))
}

/// The field `key` with the text `value`, where there is one.
pub open spec fn optional_field(key: Seq<char>, value: Option<Seq<char>>) -> Seq<EntryView> {
    match value {
        Some(v) => seq![text_field(key, v)],
        None => seq![],
    }
}

/// The value that a log holds for `key`: that of the last entry under it.
pub open spec fn recorded(log: Seq<EntryView>, key: Seq<char>) -> Option<ValueView>
    decreases log.len(),
{
    if log.len() == 0 {
        None
    } else if entry_attribute(log.last()).0 == key {
        Some(entry_attribute(log.last()).1)
    } else {
        recorded(log.drop_last(), key)
    }
}

/// The attributes that headers become on a span: one for each value that is
/// printable ASCII, in the order of the headers, under `prefix` followed by
/// the header's name.
pub open spec fn header_attributes(prefix: Seq<char>, headers: Seq<Pair>) -> Seq<EntryView>
    decreases headers.len(),
{
    if headers.len() == 0 {
        seq![]
    } else {
        let before = header_attributes(prefix, headers.drop_last());
        let (name, value) = headers.last();
        if visible_ascii(value) {
            before.push(EntryView::Attribute((prefix + name, ValueView::Str(decode_utf8(value)))))
        } else {
            before
        }
    }
}

/// The name of a span kind.
pub open spec fn kind_name(kind: SpanKind) -> Seq<char> {
    match kind {
        SpanKind::Client => "client"@,
        SpanKind::Server => "server"@,
    }
}

/// The way the context passes for a span of this kind: a client writes its
/// own into the request, a server takes its parent from the request.
pub open spec fn kind_propagation(kind: SpanKind) -> Propagation {
    match kind {
        SpanKind::Client => Propagation::Inject,
        SpanKind::Server => Propagation::Extract,
    }
}

/// A status code of the client-error class.
pub open spec fn is_client_error(status: u16) -> bool {
    400 <= status < 500
}

/// A status code of the server-error class.
pub open spec fn is_server_error(status: u16) -> bool {
    500 <= status < 600
}

/// Whether a response of this status makes the span of this kind an error:
/// a server error does for both kinds, a client error for a client.
pub open spec fn is_failure(kind: SpanKind, status: u16) -> bool {
    is_server_error(status) || (kind == SpanKind::Client && is_client_error(status))
}

/// What a failed exchange leaves on its span.
pub open spec fn error_log(message: Seq<char>) -> Seq<EntryView> {
    seq![text_field("otel.status_code"@, "ERROR"@), text_field("error.message"@, message)]
}

/// The name of a span kind.
pub fn span_kind(kind: SpanKind) -> (name: &'static str)
    ensures
        name@ == kind_name(kind),
{
    match kind {
        SpanKind::Client => "client",
        SpanKind::Server => "server",
    }
}

/// The way the context passes for a span of this kind.
pub fn propagation_of(kind: SpanKind) -> (propagation: Propagation)
    ensures
        propagation == kind_propagation(kind),
{
    match kind {
        SpanKind::Client => Propagation::Inject,
        SpanKind::Server => Propagation::Extract,
    }
}

/// Records that the exchange failed, with the text of the error.
pub fn record_error(span: &mut SpanRecord, err: &str)
    requires
        !old(span).closed,
    ensures
        final(span).extends(old(span), error_log(err@)),
{
    span.record_text("otel.status_code", "ERROR");
    span.record_text("error.message", err);
    assert(span.log() =~= old(span).log() + error_log(err@));
}

/// The log of a span, and whether it is closed, after one poll of the wait
/// for its response. A poll that finds the response there is given by what
/// the outcome would leave on the span, a poll that does not by nothing. A
/// poll that finds an outcome records it on an open span and closes the
/// span; no poll records anything on a closed span.
pub open spec fn after_poll(log: Seq<EntryView>, closed: bool, poll: Option<Seq<EntryView>>) -> (
    Seq<EntryView>,
    bool,
) {
    match poll {
        Some(added) => if closed {
            (log, true)
        } else {
            (log + added, true)
        },
        None => (log, closed),
    }
}

/// The log of a span, and whether it is closed, after the polls `polls`,
/// one after another.
pub open spec fn log_after_polls(
    log: Seq<EntryView>,
    closed: bool,
    polls: Seq<Option<Seq<EntryView>>>,
) -> (Seq<EntryView>, bool)
    decreases polls.len(),
{
    if polls.len() == 0 {
        (log, closed)
    } else {
        let (before, was_closed) = log_after_polls(log, closed, polls.drop_last());
        after_poll(before, was_closed, polls.last())
    }
}

/// The position of the first poll that finds an outcome, or the number of
/// polls if none does.
pub open spec fn first_ready(polls: Seq<Option<Seq<EntryView>>>) -> int
    decreases polls.len(),
{
    if polls.len() == 0 || polls[0] is Some {
        0
    } else {
        1 + first_ready(polls.drop_first())
    }
}

/// However often the wait for a response is polled, the outcome is recorded
/// once: an open span ends up with what the first outcome leaves on it and
/// is closed, or, if no poll finds an outcome, as it was.
pub proof fn lemma_outcome_recorded_once(log: Seq<EntryView>, polls: Seq<Option<Seq<EntryView>>>)
    ensures
        0 <= first_ready(polls) <= polls.len(),
        first_ready(polls) < polls.len() ==> polls[first_ready(polls)] is Some && log_after_polls(
            log,
            false,
            polls,
        ) == (log + polls[first_ready(polls)]->0, true),
        first_ready(polls) == polls.len() ==> log_after_polls(log, false, polls) == (log, false),
        log_after_polls(log, true, polls) == (log, true),
    decreases polls.len(),
{
    if polls.len() == 0 {
    } else {
        let front = polls.drop_last();
        lemma_outcome_recorded_once(log, front);
        lemma_first_ready(front, polls.last());
        assert(front.push(polls.last()) =~= polls);
    }
}

/// The first outcome among polls with one more poll after them.
proof fn lemma_first_ready(front: Seq<Option<Seq<EntryView>>>, last: Option<Seq<EntryView>>)
    ensures
        0 <= first_ready(front) <= front.len(),
        first_ready(front) < front.len() ==> first_ready(front.push(last)) == first_ready(front)
            && front[first_ready(front)] is Some,
        first_ready(front) == front.len() && last is Some ==> first_ready(front.push(last))
            == front.len(),
        first_ready(front) == front.len() && last is None ==> first_ready(front.push(last))
            == front.len() + 1,
    decreases front.len(),
{
    if front.len() == 0 {
        assert(front.push(last).drop_first() =~= front);
    } else if front[0] is Some {
    } else {
        lemma_first_ready(front.drop_first(), last);
        assert(front.push(last).drop_first() =~= front.drop_first().push(last));
    }
}

/// The parts of a log, one after another.
pub open spec fn joined(parts: Seq<Seq<EntryView>>) -> Seq<EntryView>
    decreases parts.len(),
{
    if parts.len() == 0 {
        Seq::<EntryView>::empty()
    } else {
        joined(parts.drop_last()) + parts.last()
    }
}

/// The value that the parts of a log hold for `key`: that of the last part
/// that holds one.
pub open spec fn recorded_in(parts: Seq<Seq<EntryView>>, key: Seq<char>) -> Option<ValueView>
    decreases parts.len(),
{
    if parts.len() == 0 {
        None
    } else {
        match recorded(parts.last(), key) {
            Some(value) => Some(value),
            None => recorded_in(parts.drop_last(), key),
        }
    }
}

/// Whether `key` begins with `prefix`.
pub open spec fn begins_with(key: Seq<char>, prefix: Seq<char>) -> bool {
    prefix.len() <= key.len() && key.subrange(0, prefix.len() as int) == prefix
}

/// Nothing in `log` is recorded under `key`.
pub open spec fn lacks(log: Seq<EntryView>, key: Seq<char>) -> bool {
    forall|i: int| 0 <= i < log.len() ==> entry_attribute(#[trigger] log[i]).0 != key
}

/// Whether every field of `log` is one of the fields `declared`.
pub open spec fn declared_in(log: Seq<EntryView>, declared: Seq<Seq<char>>) -> bool {
    forall|i: int|
        0 <= i < log.len() ==> ((#[trigger] log[i]) matches EntryView::Field(a)
            ==> declared.contains(a.0))
}

/// Whether the wait for a response ended in a failure for a span of this
/// kind: with an error, or with a response whose status is a failure.
pub open spec fn failed(kind: SpanKind, outcome: Outcome) -> bool {
    match outcome {
        Outcome::Response(response) => is_failure(kind, response.status),
        Outcome::Error(_) => true,
    }
}

/// The mark of an error on a span.
pub open spec fn error_mark() -> Option<ValueView> {
    Some(ValueView::Str("ERROR"@))
}

/// A log that lacks a key holds no value for it.
pub proof fn lemma_recorded_lacks(log: Seq<EntryView>, key: Seq<char>)
    requires
        lacks(log, key),
    ensures
        recorded(log, key) is None,
    decreases log.len(),
{
    if log.len() > 0 {
        assert(entry_attribute(log[log.len() - 1]).0 != key);
        assert forall|i: int| 0 <= i < log.drop_last().len() implies entry_attribute(
            #[trigger] log.drop_last()[i],
        ).0 != key by {
            assert(log.drop_last()[i] == log[i]);
        }
        lemma_recorded_lacks(log.drop_last(), key);
    }
}

/// The value that two logs hold for a key, one after the other, is that of
/// the later log, or that of the earlier where the later holds none.
pub proof fn lemma_recorded_concat(a: Seq<EntryView>, b: Seq<EntryView>, key: Seq<char>)
    ensures
        recorded(a + b, key) == (match recorded(b, key) {
            Some(value) => Some(value),
            None => recorded(a, key),
        }),
    decreases b.len(),
{
    if b.len() == 0 {
        assert(a + b =~= a);
    } else {
        assert((a + b).drop_last() =~= a + b.drop_last());
        assert((a + b).last() == b.last());
        lemma_recorded_concat(a, b.drop_last(), key);
    }
}

/// The value that a log holds for a key is the value that its parts hold.
pub proof fn lemma_joined_recorded(parts: Seq<Seq<EntryView>>, key: Seq<char>)
    ensures
        recorded(joined(parts), key) == recorded_in(parts, key),
    decreases parts.len(),
{
    if parts.len() > 0 {
        lemma_joined_recorded(parts.drop_last(), key);
        lemma_recorded_concat(joined(parts.drop_last()), parts.last(), key);
    }
}

/// Parts that hold no value for a key hold none together.
pub proof fn lemma_recorded_in_none(parts: Seq<Seq<EntryView>>, key: Seq<char>)
    requires
        forall|i: int| 0 <= i < parts.len() ==> recorded(#[trigger] parts[i], key) is None,
    ensures
        recorded_in(parts, key) is None,
    decreases parts.len(),
{
    if parts.len() > 0 {
        let front = parts.drop_last();
        assert forall|i: int| 0 <= i < front.len() implies recorded(#[trigger] front[i], key)
            is None by {
            assert(front[i] == parts[i]);
        }
        lemma_recorded_in_none(front, key);
        assert(recorded(parts[parts.len() - 1], key) is None);
    }
}

/// The value that parts hold for a key is that of the part `i`, if it holds
/// one and no later part does.
pub proof fn lemma_recorded_in_at(parts: Seq<Seq<EntryView>>, key: Seq<char>, i: int)
    requires
        0 <= i < parts.len(),
        recorded(parts[i], key) is Some,
        forall|j: int| i < j < parts.len() ==> recorded(#[trigger] parts[j], key) is None,
    ensures
        recorded_in(parts, key) == recorded(parts[i], key),
    decreases parts.len(),
{
    if i < parts.len() - 1 {
        let front = parts.drop_last();
        assert(front[i] == parts[i]);
        assert forall|j: int| i < j < front.len() implies recorded(#[trigger] front[j], key)
            is None by {
            assert(front[j] == parts[j]);
        }
        lemma_recorded_in_at(front, key, i);
        assert(recorded(parts[parts.len() - 1], key) is None);
    }
}

/// The attributes that headers become stand under keys that begin with the
/// prefix, and under no other key; they hold no value for any other key.
pub proof fn lemma_header_attributes_lack(prefix: Seq<char>, headers: Seq<Pair>, key: Seq<char>)
    requires
        !begins_with(key, prefix),
    ensures
        lacks(header_attributes(prefix, headers), key),
        recorded(header_attributes(prefix, headers), key) is None,
    decreases headers.len(),
{
    if headers.len() > 0 {
        lemma_header_attributes_lack(prefix, headers.drop_last(), key);
        let (name, value) = headers.last();
        assert((prefix + name).subrange(0, prefix.len() as int) =~= prefix);
    }
    lemma_recorded_lacks(header_attributes(prefix, headers), key);
}

/// Fields that are declared one list after another are declared.
proof fn lemma_declared_concat(a: Seq<EntryView>, b: Seq<EntryView>, declared: Seq<Seq<char>>)
    requires
        declared_in(a, declared),
        declared_in(b, declared),
    ensures
        declared_in(a + b, declared),
{
    assert forall|i: int| 0 <= i < (a + b).len() implies ((#[trigger] (a + b)[i])
        matches EntryView::Field(f) ==> declared.contains(f.0)) by {
        if i < a.len() {
            assert((a + b)[i] == a[i]);
        } else {
            assert((a + b)[i] == b[i - a.len()]);
        }
    }
}

/// The fields of a log are declared if those of each of its parts are.
pub proof fn lemma_joined_declared(parts: Seq<Seq<EntryView>>, declared: Seq<Seq<char>>)
    requires
        forall|i: int| 0 <= i < parts.len() ==> declared_in(#[trigger] parts[i], declared),
    ensures
        declared_in(joined(parts), declared),
    decreases parts.len(),
{
    if parts.len() > 0 {
        let front = parts.drop_last();
        assert forall|i: int| 0 <= i < front.len() implies declared_in(
            #[trigger] front[i],
            declared,
        ) by {
            assert(front[i] == parts[i]);
        }
        lemma_joined_declared(front, declared);
        assert(declared_in(parts[parts.len() - 1], declared));
        lemma_declared_concat(joined(front), parts.last(), declared);
    }
}

/// The attributes that headers become are no fields.
pub proof fn lemma_header_attributes_declared(
    prefix: Seq<char>,
    headers: Seq<Pair>,
    declared: Seq<Seq<char>>,
)
    ensures
        declared_in(header_attributes(prefix, headers), declared),
    decreases headers.len(),
{
    if headers.len() > 0 {
        lemma_header_attributes_declared(prefix, headers.drop_last(), declared);
    }
}

/// The record of one request's span.
#[derive(Debug)]
pub struct SpanRecord {
    pub name: &'static str,
    pub level: Level,
    pub propagation: Propagation,
    /// The fields that the span is created with, each empty until a value is
    /// recorded for it.
    pub fields: Vec<&'static str>,
    /// What was recorded on the span, oldest first.
    pub entries: Vec<SpanEntry>,
    pub closed: bool,
}

impl SpanRecord {
    /// What was recorded on the span, oldest first.
    pub open spec fn log(&self) -> Seq<EntryView> {
        Seq::new(self.entries@.len(), |i: int| self.entries@[i]@)
    }

    /// The names of the fields that the span is created with.
    pub open spec fn declared(&self) -> Seq<Seq<char>> {
        Seq::new(self.fields@.len(), |i: int| self.fields@[i]@)
    }

    /// `self` is `before` but for what is recorded on it and whether it is
    /// closed.
    pub open spec fn same_span(&self, before: &SpanRecord) -> bool {
        &&& self.name == before.name
        &&& self.level == before.level
        &&& self.propagation == before.propagation
        &&& self.fields == before.fields
    }

    /// `self` is `before` with `added` recorded after what it held.
    pub open spec fn extends(&self, before: &SpanRecord, added: Seq<EntryView>) -> bool {
        &&& self.same_span(before)
        &&& self.closed == before.closed
        &&& self.log() == before.log() + added
    }

    /// An open span with the fields `fields`, on which nothing is recorded
    /// yet.
    pub fn new(
        name: &'static str,
        level: Level,
        propagation: Propagation,
        fields: Vec<&'static str>,
    ) -> (span: Self)
        ensures
            span.name == name,
            span.level == level,
            span.propagation == propagation,
            span.fields == fields,
            !span.closed,
            span.log() == Seq::<EntryView>::empty(),
    {
        let span = SpanRecord { name, level, propagation, fields, entries: Vec::new(), closed: false };
        assert(span.log() =~= Seq::<EntryView>::empty());
        span
    }

    /// Records `entry` after what the span holds. Nothing is recorded on a
    /// closed span.
    pub fn push(&mut self, entry: SpanEntry)
        requires
            !old(self).closed,
        ensures
            final(self).extends(old(self), seq![entry@]),
    {
        self.entries.push(entry);
        assert(self.log() =~= old(self).log() + seq![entry@]);
    }

    /// Records the text `value` for the field `key`.
    pub fn record_text(&mut self, key: &str, value: &str)
        requires
            !old(self).closed,
        ensures
            final(self).extends(old(self), seq![text_field(key@, value@)]),
    {
        self.push(SpanEntry::Field(KeyValue::text(key, value)));
    }

    /// Records the number `value` for the field `key`.
    pub fn record_number(&mut self, key: &str, value: i64)
        requires
            !old(self).closed,
        ensures
            final(self).extends(old(self), seq![number_field(key@, value as int)]),
    {
        self.push(SpanEntry::Field(KeyValue::number(key, value)));
    }

    /// Records the text `value` for the field `key`, if there is one.
    pub fn record_optional(&mut self, key: &str, value: Option<&str>)
        requires
            !old(self).closed,
        ensures
            final(self).extends(old(self), optional_field(key@, opt_text(value))),
    {
        match value {
            Some(v) => {
                self.record_text(key, v);
            },
            None => {
                assert(self.log() =~= old(self).log() + Seq::<EntryView>::empty());
            },
        }
    }

    /// Adds the attribute `key` with the text `value`.
    pub fn set_attribute(&mut self, key: String, value: &str)
        requires
            !old(self).closed,
        ensures
            final(self).extends(
                old(self),
                seq![EntryView::Attribute((key@, ValueView::Str(value@)))],
            ),
    {
        self.push(SpanEntry::Attribute(KeyValue { key, value: Value::Str(value.to_owned()) }));
    }

    /// Adds an attribute for each header whose value is printable ASCII.
    pub fn record_headers(&mut self, prefix: &str, headers: &HeaderMap)
        requires
            !old(self).closed,
        ensures
            final(self).extends(
                old(self),
                header_attributes(prefix@, pairs(header_entries(*headers))),
            ),
    {
        let items = header_iter(headers);
        let ghost all = pairs(header_entries(*headers));
        let mut i: usize = 0;
        assert(all.take(0) =~= Seq::<Pair>::empty());
        assert(self.log() =~= old(self).log() + header_attributes(prefix@, all.take(0)));
        while i < items.len()
            invariant
                0 <= i <= items@.len(),
                items@.len() == all.len(),
                forall|j: int|
                    0 <= j < items@.len() ==> (
                        header_name_text(*(#[trigger] items@[j]).0),
                        header_value_bytes(*items@[j].1),
                    ) == all[j],
                !old(self).closed,
                self.extends(old(self), header_attributes(prefix@, all.take(i as int))),
            decreases items@.len() - i,
        {
            let (name, value) = items[i];
            proof {
                assert(all.take(i + 1).drop_last() =~= all.take(i as int));
                assert(all.take(i + 1).last() == all[i as int]);
            }
            match header_value_to_str(value) {
                Some(text) => {
                    let mut key = prefix.to_owned();
                    key.append(name.as_str());
                    proof {
                        lemma_text_of_bytes(text, text);
                    }
                    self.set_attribute(key, text);
                    assert(self.log() =~= old(self).log() + header_attributes(
                        prefix@,
                        all.take(i + 1),
                    ));
                },
                None => {},
            }
            i += 1;
        }
        assert(all.take(i as int) =~= all);
    }

    /// What was recorded on the span from the entry at `start` on.
    pub fn entries_from(&self, start: usize) -> (list: Vec<SpanEntry>)
        requires
            start <= self.log().len(),
        ensures
            entry_views(list@) == self.log().skip(start as int),
    {
        let mut list: Vec<SpanEntry> = Vec::new();
        let mut i: usize = start;
        while i < self.entries.len()
            invariant
                start <= i <= self.entries@.len(),
                list@.len() == i - start,
                forall|j: int| 0 <= j < list@.len() ==> list@[j]@ == self.entries@[start + j]@,
            decreases self.entries@.len() - i,
        {
            list.push(self.entries[i].clone());
            i += 1;
        }
        assert(entry_views(list@) =~= self.log().skip(start as int));
        list
    }

    /// Closes the span, once. What was recorded on it stays.
    pub fn close(&mut self)
        requires
            !old(self).closed,
        ensures
            final(self).closed,
            final(self).same_span(old(self)),
            final(self).log() == old(self).log(),
    {
        self.closed = true;
    }

    /// The value recorded for `key`: the last one, where there are several.
    pub fn get(&self, key: &str) -> (value: Option<&Value>)
        ensures
            value is Some <==> recorded(self.log(), key@) is Some,
            value matches Some(v) ==> recorded(self.log(), key@) == Some(v@),
    {
        let mut i: usize = self.entries.len();
        assert(self.log().take(i as int) =~= self.log());
        while i > 0
            invariant
                0 <= i <= self.entries@.len(),
                recorded(self.log(), key@) == recorded(self.log().take(i as int), key@),
            decreases i,
        {
            let kv = self.entries[i - 1].key_value();
            proof {
                let part = self.log().take(i as int);
                assert(part.last() == self.entries@[i - 1]@);
                assert(part.drop_last() =~= self.log().take(i - 1));
            }
            if str_eq(kv.key.as_str(), key) {
                return Some(&kv.value);
            }
            i -= 1;
        }
        None
    }
}

} // verus!
