//! Writing a trace context into the headers of a request.

use crate::util::bytes::same_ignoring_case;
use crate::util::header::{
    get_text, header_entries, header_name_from_str, header_try_insert, header_value_from_str,
    insert_is_certain, is_value_byte, is_visible_byte, lemma_lookup_with_value,
    lemma_name_in_any_case, lemma_names_with_value, name_text, names, valid_header_name,
    valid_header_value, visible_ascii, with_value, Entry,
};
use http::header::HeaderMap;
use vstd::prelude::*;
use vstd::string::StringSliceAdditionalSpecFns;
use vstd::utf8::encode_utf8;

verus! {

/// The headers of a request as a propagator writes them.
pub struct HeaderInjector<'a>(pub &'a mut HeaderMap);

/// The headers after `value` has been set under `key`.
pub open spec fn set_header(entries: Seq<Entry>, key: Seq<u8>, value: Seq<u8>) -> Seq<Entry> {
    with_value(entries, name_text(key), value)
}

/// Whether `key` and `value` can stand in a header.
pub open spec fn header_safe(key: Seq<u8>, value: Seq<u8>) -> bool {
    valid_header_name(key) && valid_header_value(value)
}

/// What was set under a key is what a reader finds under that key, in
/// whatever case the key is written, as long as the value is printable
/// ASCII; and what a reader finds under any other name is what it found
/// before.
pub proof fn lemma_injected_is_extracted(
    entries: Seq<Entry>,
    key: Seq<u8>,
    value: Seq<u8>,
    read_key: Seq<u8>,
)
    requires
        valid_header_name(key),
        visible_ascii(value),
    ensures
        header_safe(key, value),
        get_text(set_header(entries, key, value), key) == Some(value),
        valid_header_name(read_key) && name_text(read_key) == name_text(key) ==> get_text(
            set_header(entries, key, value),
            read_key,
        ) == Some(value),
        same_ignoring_case(read_key, key) ==> get_text(set_header(entries, key, value), read_key)
            == Some(value),
        name_text(read_key) != name_text(key) ==> get_text(set_header(entries, key, value), read_key)
            == get_text(entries, read_key),
{
    if same_ignoring_case(read_key, key) {
        lemma_name_in_any_case(key, read_key);
    }
    assert forall|i: int| 0 <= i < value.len() implies is_value_byte(
        #[trigger] value[i],
    ) by {
        assert(is_visible_byte(value[i]));
    }
    lemma_lookup_with_value(entries, name_text(key), value, name_text(read_key));
}

/// The headers after each of `fields`, a key with its value, has been set,
/// in order.
pub open spec fn set_all(entries: Seq<Entry>, fields: Seq<(Seq<u8>, Seq<u8>)>) -> Seq<Entry>
    decreases fields.len(),
{
    if fields.len() == 0 {
        entries
    } else {
        set_header(set_all(entries, fields.drop_last()), fields.last().0, fields.last().1)
    }
}

/// A context that is written into headers field by field is read back field
/// by field: each key finds its own value, as long as the keys can be header
/// names and are different names, and the values are printable ASCII. The
/// name of each key is among the names that a reader is told of.
pub proof fn lemma_context_round_trip(
    entries: Seq<Entry>,
    fields: Seq<(Seq<u8>, Seq<u8>)>,
    i: int,
)
    requires
        0 <= i < fields.len(),
        forall|j: int|
            0 <= j < fields.len() ==> valid_header_name((#[trigger] fields[j]).0) && visible_ascii(
                fields[j].1,
            ),
        forall|j: int, k: int|
            0 <= j < k < fields.len() ==> name_text((#[trigger] fields[j]).0) != name_text(
                (#[trigger] fields[k]).0,
            ),
    ensures
        get_text(set_all(entries, fields), fields[i].0) == Some(fields[i].1),
        names(set_all(entries, fields)).contains(name_text(fields[i].0)),
    decreases fields.len(),
{
    let front = fields.drop_last();
    let (key, value) = fields.last();
    let before = set_all(entries, front);
    lemma_injected_is_extracted(before, key, value, fields[i].0);
    if i < fields.len() - 1 {
        assert(front[i] == fields[i]);
        assert forall|j: int| 0 <= j < front.len() implies valid_header_name(
            (#[trigger] front[j]).0,
        ) && visible_ascii(front[j].1) by {
            assert(front[j] == fields[j]);
        }
        assert forall|j: int, k: int| 0 <= j < k < front.len() implies name_text(
            (#[trigger] front[j]).0,
        ) != name_text((#[trigger] front[k]).0) by {
            assert(front[j] == fields[j]);
            assert(front[k] == fields[k]);
        }
        lemma_context_round_trip(entries, front, i);
        assert(name_text(fields[i].0) != name_text(fields[fields.len() - 1].0));
        lemma_names_with_value(before, name_text(key), value, name_text(fields[i].0));
    } else {
        lemma_names_with_value(before, name_text(key), value, name_text(key));
    }
}

impl<'a> HeaderInjector<'a> {
    /// Sets the header `key` to `value`. A key or a value that cannot stand
    /// in a header is dropped and the headers stay as they were.
    pub fn set(&mut self, key: &str, value: String)
        ensures
            *final(final(self).0) == *final(old(self).0),
            header_entries(*final(self).0) == header_entries(*old(self).0) || (header_safe(
                key.spec_bytes(),
                encode_utf8(value@),
            ) && header_entries(*final(self).0) == set_header(
                header_entries(*old(self).0),
                key.spec_bytes(),
                encode_utf8(value@),
            )),
            header_safe(key.spec_bytes(), encode_utf8(value@)) && insert_is_certain(
                header_entries(*old(self).0),
            ) ==> header_entries(*final(self).0) == set_header(
                header_entries(*old(self).0),
                key.spec_bytes(),
                encode_utf8(value@),
            ),
    {
        if let Some(name) = header_name_from_str(key) {
            if let Some(value) = header_value_from_str(value.as_str()) {
                header_try_insert(self.0, name, value);
            }
        }
    }
}

} // verus!
