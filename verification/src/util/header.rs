//! The header container of the `http` crate as verified code sees it: what a
//! map holds, and what the calls into it are taken to do.

use crate::util::bytes::{ascii_lower, is_digit};
use http::header::{HeaderMap, HeaderName, HeaderValue};
use std::str::FromStr;
use vstd::prelude::*;
use vstd::string::StringSliceAdditionalSpecFns;
use vstd::utf8::*;

verus! {

/// `http::HeaderMap`, of which verified code knows only what
/// [`header_entries`] names.
#[verifier::external_type_specification]
#[verifier::external_body]
#[verifier::reject_recursive_types(T)]
pub struct ExHeaderMap<T>(HeaderMap<T>);

/// `http::HeaderName`, of which verified code knows only what
/// [`header_name_text`] names.
#[verifier::external_type_specification]
#[verifier::external_body]
pub struct ExHeaderName(HeaderName);

/// `http::HeaderValue`, of which verified code knows only what
/// [`header_value_bytes`] names.
#[verifier::external_type_specification]
#[verifier::external_body]
pub struct ExHeaderValue(HeaderValue);

/// One name of a header map with the values stored under it, first value
/// first.
pub type Entry = (Seq<char>, Seq<Seq<u8>>);

/// A name together with one of its values.
pub type Pair = (Seq<char>, Seq<u8>);

/// The entries of a header map, one for each name, in the order in which the
/// map walks them.
pub uninterp spec fn header_entries(map: HeaderMap<HeaderValue>) -> Seq<Entry>;

/// The text of a header name.
pub uninterp spec fn header_name_text(name: HeaderName) -> Seq<char>;

/// The octets of a header value.
pub uninterp spec fn header_value_bytes(value: HeaderValue) -> Seq<u8>;

/// Whether a map with these entries is sure to take one more: it holds fewer
/// entries than a fifth of the 32768 slots that a map's table can grow to.
pub open spec fn insert_is_certain(entries: Seq<Entry>) -> bool {
    5 * entries.len() < 32768
}

/// The octets that a header name may be written with: letters, digits and
/// the marks ``!#$%&'*+-.^_`|~``.
pub open spec fn is_name_byte(b: u8) -> bool {
    ||| b == 0x21
    ||| 0x23 <= b <= 0x27
    ||| b == 0x2a
    ||| b == 0x2b
    ||| b == 0x2d
    ||| b == 0x2e
    ||| is_digit(b)
    ||| 0x41 <= b <= 0x5a
    ||| 0x5e <= b <= 0x7a
    ||| b == 0x7c
    ||| b == 0x7e
}

/// A header name is one to 65535 name octets.
pub open spec fn valid_header_name(key: Seq<u8>) -> bool {
    &&& 1 <= key.len() <= 65535
    &&& forall|i: int| 0 <= i < key.len() ==> is_name_byte(#[trigger] key[i])
}

/// The text under which a map files a name: its letters in lower case.
pub open spec fn name_text(key: Seq<u8>) -> Seq<char> {
    Seq::new(key.len(), |i: int| ascii_lower(key[i]) as char)
}

/// An octet that a header value may hold: anything but a control character
/// other than the tab.
pub open spec fn is_value_byte(b: u8) -> bool {
    b >= 32 && b != 127 || b == 0x09
}

/// An octet that a header value shows as text: printable ASCII or the tab.
pub open spec fn is_visible_byte(b: u8) -> bool {
    b >= 32 && b < 127 || b == 0x09
}

pub open spec fn valid_header_value(value: Seq<u8>) -> bool {
    forall|i: int| 0 <= i < value.len() ==> is_value_byte(#[trigger] value[i])
}

pub open spec fn visible_ascii(value: Seq<u8>) -> bool {
    forall|i: int| 0 <= i < value.len() ==> is_visible_byte(#[trigger] value[i])
}

/// The position of the entry filed under `name`, or the number of entries if
/// there is none.
pub open spec fn entry_index(entries: Seq<Entry>, name: Seq<char>) -> int
    decreases entries.len(),
{
    if entries.len() == 0 || entries[0].0 == name {
        0
    } else {
        1 + entry_index(entries.drop_first(), name)
    }
}

/// The first value filed under `name`.
pub open spec fn lookup(entries: Seq<Entry>, name: Seq<char>) -> Option<Seq<u8>> {
    let i = entry_index(entries, name);
    if 0 <= i < entries.len() {
        Some(entries[i].1[0])
    } else {
        None
    }
}

/// The first value that a lookup by `key` finds: that of the entry filed
/// under the lower-case form of `key`, if `key` can be a header name.
pub open spec fn get(entries: Seq<Entry>, key: Seq<u8>) -> Option<Seq<u8>> {
    if valid_header_name(key) {
        lookup(entries, name_text(key))
    } else {
        None
    }
}

/// What a lookup by `key` shows as text: the value it finds, if that is
/// printable ASCII throughout.
pub open spec fn get_text(entries: Seq<Entry>, key: Seq<u8>) -> Option<Seq<u8>> {
    match get(entries, key) {
        Some(value) => if visible_ascii(value) {
            Some(value)
        } else {
            None
        },
        None => None,
    }
}

/// The entries after `value` has been set for `name`: the entry of that name
/// holds `value` alone and keeps its place; a new name goes to the end.
pub open spec fn with_value(entries: Seq<Entry>, name: Seq<char>, value: Seq<u8>) -> Seq<Entry> {
    let i = entry_index(entries, name);
    if 0 <= i < entries.len() {
        entries.update(i, (name, seq![value]))
    } else {
        entries.push((name, seq![value]))
    }
}

/// The names of the entries, in order.
pub open spec fn names(entries: Seq<Entry>) -> Seq<Seq<char>> {
    Seq::new(entries.len(), |i: int| entries[i].0)
}

/// The values of one entry, each with the entry's name.
pub open spec fn entry_pairs(entry: Entry) -> Seq<Pair> {
    Seq::new(entry.1.len(), |i: int| (entry.0, entry.1[i]))
}

/// Every name with every one of its values, entry by entry.
pub open spec fn pairs(entries: Seq<Entry>) -> Seq<Pair>
    decreases entries.len(),
{
    if entries.len() == 0 {
        seq![]
    } else {
        pairs(entries.drop_last()) + entry_pairs(entries.last())
    }
}

/// `HeaderValue::as_bytes` hands out the octets of the value.
pub assume_specification[ HeaderValue::as_bytes ](value: &HeaderValue) -> (bytes: &[u8])
    ensures
        bytes@ == header_value_bytes(*value),
;

/// `HeaderName::as_str` hands out the text of the name.
pub assume_specification[ HeaderName::as_str ](name: &HeaderName) -> (text: &str)
    ensures
        text@ == header_name_text(*name),
;

/// `HeaderName::from_str` accepts one to 65535 name octets and files the
/// name under their lower-case form.
#[verifier::external_body]
pub(crate) fn header_name_from_str(key: &str) -> (r: Option<HeaderName>)
    ensures
        r is Some <==> valid_header_name(key.spec_bytes()),
        r matches Some(name) ==> header_name_text(name) == name_text(key.spec_bytes()),
{
    HeaderName::from_str(key).ok()
}

/// `HeaderValue::from_str` accepts a text without control characters other
/// than the tab, and keeps its octets.
#[verifier::external_body]
pub(crate) fn header_value_from_str(value: &str) -> (r: Option<HeaderValue>)
    ensures
        r is Some <==> valid_header_value(value.spec_bytes()),
        r matches Some(v) ==> header_value_bytes(v) == value.spec_bytes(),
{
    HeaderValue::from_str(value).ok()
}

/// `HeaderValue::to_str` shows a value as text if it is printable ASCII
/// throughout, octet for octet.
#[verifier::external_body]
pub(crate) fn header_value_to_str<'a>(value: &'a HeaderValue) -> (r: Option<&'a str>)
    ensures
        r is Some <==> visible_ascii(header_value_bytes(*value)),
        r matches Some(text) ==> text.spec_bytes() == header_value_bytes(*value),
{
    value.to_str().ok()
}

/// `HeaderMap::get` with a text key finds the first value of the entry filed
/// under the key's lower-case form, and nothing for a key that cannot be a
/// header name.
#[verifier::external_body]
pub(crate) fn header_get<'a>(map: &'a HeaderMap, key: &str) -> (r: Option<&'a HeaderValue>)
    ensures
        r is Some <==> get(header_entries(*map), key.spec_bytes()) is Some,
        r matches Some(value) ==> get(header_entries(*map), key.spec_bytes()) == Some(
            header_value_bytes(*value),
        ),
{
    map.get(key)
}

/// `HeaderMap::try_insert` sets the value of a name as `with_value` says, or
/// refuses and leaves the entries as they were. It refuses where the map
/// holds 32768 entries, and where its table would have to grow beyond 32768
/// slots; the table grows when the entries fill three quarters of it, or,
/// once many names have collided, a fifth of it. So a map with fewer
/// entries than a fifth of 32768 takes the value.
#[verifier::external_body]
pub(crate) fn header_try_insert(map: &mut HeaderMap, name: HeaderName, value: HeaderValue) -> (inserted:
    bool)
    ensures
        inserted ==> header_entries(*final(map)) == with_value(
            header_entries(*old(map)),
            header_name_text(name),
            header_value_bytes(value),
        ),
        !inserted ==> header_entries(*final(map)) == header_entries(*old(map)),
        insert_is_certain(header_entries(*old(map))) ==> inserted,
{
    map.try_insert(name, value).is_ok()
}

/// `HeaderMap::iter` walks the entries in order and yields each name once
/// for each of its values.
#[verifier::external_body]
pub(crate) fn header_iter<'a>(map: &'a HeaderMap) -> (items: Vec<(&'a HeaderName, &'a HeaderValue)>)
    ensures
        items@.len() == pairs(header_entries(*map)).len(),
        forall|i: int|
            0 <= i < items@.len() ==> (header_name_text(*(#[trigger] items@[i]).0), header_value_bytes(
                *items@[i].1,
            )) == pairs(header_entries(*map))[i],
{
    map.iter().collect()
}

/// `HeaderMap::keys` walks the entries in order and yields each name once.
#[verifier::external_body]
pub(crate) fn header_keys<'a>(map: &'a HeaderMap) -> (keys: Vec<&'a HeaderName>)
    ensures
        keys@.len() == header_entries(*map).len(),
        forall|i: int|
            0 <= i < keys@.len() ==> header_name_text(*#[trigger] keys@[i]) == header_entries(*map)[i].0,
{
    map.keys().collect()
}

/// `entry_index` is the one position before which no entry is filed under
/// `name` and at which the entries end or one is.
pub proof fn lemma_entry_index(entries: Seq<Entry>, name: Seq<char>, k: int)
    requires
        0 <= k <= entries.len(),
        forall|j: int| 0 <= j < k ==> entries[j].0 != name,
        k < entries.len() ==> entries[k].0 == name,
    ensures
        entry_index(entries, name) == k,
    decreases entries.len(),
{
    if entries.len() == 0 || entries[0].0 == name {
    } else {
        lemma_entry_index(entries.drop_first(), name, k - 1);
    }
}

/// What `entry_index` finds: the first entry filed under `name`, if there is
/// one.
pub proof fn lemma_entry_index_bounds(entries: Seq<Entry>, name: Seq<char>)
    ensures
        0 <= entry_index(entries, name) <= entries.len(),
        forall|j: int| 0 <= j < entry_index(entries, name) ==> entries[j].0 != name,
        entry_index(entries, name) < entries.len() ==> entries[entry_index(entries, name)].0 == name,
    decreases entries.len(),
{
    if entries.len() == 0 || entries[0].0 == name {
    } else {
        let rest = entries.drop_first();
        lemma_entry_index_bounds(rest, name);
        assert forall|j: int| 0 <= j < entry_index(entries, name) implies entries[j].0 != name by {
            if j > 0 {
                assert(rest[j - 1] == entries[j]);
            }
        }
    }
}

/// A value that was set is the value that a lookup by the same name finds,
/// and the lookup by any other name finds what it found before.
pub proof fn lemma_lookup_with_value(
    entries: Seq<Entry>,
    name: Seq<char>,
    value: Seq<u8>,
    other: Seq<char>,
)
    ensures
        lookup(with_value(entries, name, value), name) == Some(value),
        other != name ==> lookup(with_value(entries, name, value), other) == lookup(entries, other),
{
    let after = with_value(entries, name, value);
    let i = entry_index(entries, name);
    lemma_entry_index_bounds(entries, name);
    lemma_entry_index(after, name, i);
    if other != name {
        let k = entry_index(entries, other);
        lemma_entry_index_bounds(entries, other);
        if k < entries.len() {
            lemma_entry_index(after, other, k);
        } else {
            lemma_entry_index(after, other, after.len() as int);
        }
    }
}

/// A name under which a value was set is among the names of the entries,
/// and so is every name that was among them before.
pub proof fn lemma_names_with_value(
    entries: Seq<Entry>,
    name: Seq<char>,
    value: Seq<u8>,
    other: Seq<char>,
)
    ensures
        names(with_value(entries, name, value)).contains(name),
        names(entries).contains(other) ==> names(with_value(entries, name, value)).contains(other),
{
    let after = with_value(entries, name, value);
    let i = entry_index(entries, name);
    lemma_entry_index_bounds(entries, name);
    if 0 <= i < entries.len() {
        assert(names(after)[i] == name);
    } else {
        assert(names(after)[entries.len() as int] == name);
    }
    if names(entries).contains(other) {
        let k = choose|k: int| 0 <= k < names(entries).len() && names(entries)[k] == other;
        assert(names(after)[k] == other);
    }
}

/// A key that is a header name is the same name in whatever case its ASCII
/// letters are written: `other` is `key` but for the case of its letters.
pub proof fn lemma_name_in_any_case(key: Seq<u8>, other: Seq<u8>)
    requires
        valid_header_name(key),
        other.len() == key.len(),
        forall|i: int| 0 <= i < key.len() ==> ascii_lower(other[i]) == ascii_lower(#[trigger] key[i]),
    ensures
        valid_header_name(other),
        name_text(other) == name_text(key),
{
    assert forall|i: int| 0 <= i < other.len() implies is_name_byte(#[trigger] other[i]) by {
        assert(is_name_byte(key[i]));
        assert(ascii_lower(other[i]) == ascii_lower(key[i]));
    }
    assert(name_text(other) =~= name_text(key)) by {
        assert forall|i: int| 0 <= i < key.len() implies name_text(other)[i] == name_text(key)[i] by {
            assert(ascii_lower(other[i]) == ascii_lower(key[i]));
        }
    }
}

/// A name written with lower-case letters, digits and hyphens only.
pub open spec fn is_plain_name(name: Seq<char>) -> bool {
    &&& 1 <= name.len() <= 65535
    &&& forall|i: int|
        0 <= i < name.len() ==> {
            let c = #[trigger] name[i];
            'a' <= c <= 'z' || '0' <= c <= '9' || c == '-'
        }
}

/// A plain name is a header name, and a map files it under itself.
pub proof fn lemma_plain_name(key: &str)
    requires
        is_plain_name(key@),
    ensures
        valid_header_name(key.spec_bytes()),
        name_text(key.spec_bytes()) == key@,
{
    let bytes = key.spec_bytes();
    assert(is_ascii_chars(key@));
    is_ascii_chars_encode_utf8(key@);
    assert forall|i: int| 0 <= i < bytes.len() implies is_name_byte(#[trigger] bytes[i]) by {
        let c = key@[i];
        assert(bytes[i] == c as u8);
    }
    assert forall|i: int| 0 <= i < bytes.len() implies name_text(bytes)[i] == key@[i] by {
        let c = key@[i];
        assert(bytes[i] == c as u8);
        assert(ascii_lower(bytes[i]) == bytes[i]);
        assert((c as u8) as char == c);
    }
    assert(name_text(bytes) =~= key@);
}

/// The first value under `key` as text, if it is printable ASCII.
pub fn header_text<'a>(map: &'a HeaderMap, key: &str) -> (r: Option<&'a str>)
    ensures
        r is Some <==> get_text(header_entries(*map), key.spec_bytes()) is Some,
        r matches Some(text) ==> get_text(header_entries(*map), key.spec_bytes()) == Some(
            text.spec_bytes(),
        ),
{
    match header_get(map, key) {
        Some(value) => header_value_to_str(value),
        None => None,
    }
}

} // verus!
