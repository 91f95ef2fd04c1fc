//! Text as UTF-8: string slices compared, cut and decoded by their octets.

use crate::util::bytes::{bytes_eq, find, lemma_index_of_bounds, skip_leading, split_once};
use vstd::prelude::*;
use vstd::string::StringSliceAdditionalSpecFns;
use vstd::utf8::*;

verus! {

/// `core::str::Utf8Error`, which verified code only drops.
#[verifier::external_type_specification]
#[verifier::external_body]
pub struct ExUtf8Error(core::str::Utf8Error);

/// `core::str::from_utf8` succeeds on exactly the well-formed UTF-8 strings,
/// and the text it returns has the octets it was given.
pub assume_specification<'a>[ core::str::from_utf8 ](v: &'a [u8]) -> (r: Result<
    &'a str,
    core::str::Utf8Error,
>)
    ensures
        r is Ok <==> valid_utf8(v@),
        r matches Ok(s) ==> s.spec_bytes() == v@,
;

/// The text that octets encode, if they are well-formed UTF-8.
pub open spec fn decode(bytes: Seq<u8>) -> Option<Seq<char>> {
    if valid_utf8(bytes) {
        Some(decode_utf8(bytes))
    } else {
        None
    }
}

/// The octets of an optional text.
pub open spec fn opt_bytes(s: Option<&str>) -> Option<Seq<u8>> {
    match s {
        Some(s) => Some(s.spec_bytes()),
        None => None,
    }
}

/// The octets of an optional text that is owned.
pub open spec fn opt_string_bytes(s: Option<String>) -> Option<Seq<u8>> {
    match s {
        Some(s) => Some(encode_utf8(s@)),
        None => None,
    }
}

/// The characters of an optional text.
pub open spec fn opt_text(s: Option<&str>) -> Option<Seq<char>> {
    match s {
        Some(s) => Some(s@),
        None => None,
    }
}

/// An octet below 0x80 is a character of its own in UTF-8.
pub open spec fn is_ascii_byte(b: u8) -> bool {
    b < 0x80
}

/// Two texts with the same octets are the same text, and every text decodes
/// from its octets.
pub proof fn lemma_text_of_bytes(a: &str, b: &str)
    ensures
        a.spec_bytes() == b.spec_bytes() <==> a@ == b@,
        decode(a.spec_bytes()) == Some(a@),
{
    broadcast use {encode_utf8_decode_utf8, encode_utf8_valid_utf8};

    assert(decode_utf8(encode_utf8(a@)) == a@);
    assert(decode_utf8(encode_utf8(b@)) == b@);
}

/// A position that holds an ASCII octet starts a character, and so does the
/// position after it.
pub proof fn lemma_ascii_boundary(bytes: Seq<u8>, i: int)
    requires
        valid_utf8(bytes),
        0 <= i < bytes.len(),
        is_ascii_byte(bytes[i]),
    ensures
        is_char_boundary(bytes, i),
        is_char_boundary(bytes.subrange(i, bytes.len() as int), 1),
        valid_utf8(bytes.subrange(i, bytes.len() as int)),
{
    let b = bytes[i];
    assert(!is_continuation_byte(b)) by (bit_vector)
        requires
            b < 0x80u8,
    ;
    is_char_boundary_iff_not_is_continuation_byte(bytes, i);
    valid_utf8_split(bytes, i);
    let rest = bytes.subrange(i, bytes.len() as int);
    assert(rest[0] == b);
    assert(is_leading_byte_width_1(b)) by (bit_vector)
        requires
            b < 0x80u8,
    ;
    assert(length_of_first_scalar(rest) == 1);
    reveal_with_fuel(is_char_boundary, 2);
    reveal_with_fuel(valid_utf8, 2);
    is_char_boundary_start_end_of_seq(pop_first_scalar(rest));
}

/// Whether two texts are the same.
pub fn str_eq(a: &str, b: &str) -> (r: bool)
    ensures
        r == (a@ == b@),
{
    proof {
        lemma_text_of_bytes(a, b);
    }
    bytes_eq(a.as_bytes(), b.as_bytes())
}

/// The text that octets encode, if they are well-formed UTF-8.
pub fn text_of<'a>(bytes: &'a [u8]) -> (r: Option<&'a str>)
    ensures
        r is Some <==> valid_utf8(bytes@),
        r matches Some(s) ==> s.spec_bytes() == bytes@,
        opt_text(r) == decode(bytes@),
{
    match core::str::from_utf8(bytes) {
        Ok(s) => {
            proof {
                lemma_text_of_bytes(s, s);
            }
            Some(s)
        },
        Err(_) => None,
    }
}

/// A copy of an optional text.
pub fn owned(s: Option<&str>) -> (r: Option<String>)
    ensures
        opt_string_bytes(r) == opt_bytes(s),
        r is Some <==> s is Some,
        r matches Some(text) ==> s matches Some(from) && text@ == from@,
{
    match s {
        Some(s) => Some(s.to_owned()),
        None => None,
    }
}

/// An optional text that is owned, as a slice.
pub fn borrowed(s: &Option<String>) -> (r: Option<&str>)
    ensures
        opt_bytes(r) == opt_string_bytes(*s),
        opt_text(r) == match *s {
            Some(text) => Some(text@),
            None => None,
        },
{
    match s {
        Some(s) => Some(s.as_str()),
        None => None,
    }
}

/// `s` cut at its first `sep`, which belongs to neither part.
pub fn split_once_at<'a>(s: &'a str, sep: u8) -> (r: Option<(&'a str, &'a str)>)
    requires
        is_ascii_byte(sep),
    ensures
        r is Some <==> split_once(s.spec_bytes(), sep) is Some,
        r matches Some((head, tail)) ==> split_once(s.spec_bytes(), sep) == Some(
            (head.spec_bytes(), tail.spec_bytes()),
        ),
{
    broadcast use encode_utf8_valid_utf8;

    let bytes = s.as_bytes();
    let i = find(bytes, sep);
    if i >= bytes.len() {
        return None;
    }
    proof {
        lemma_index_of_bounds(bytes@, sep);
        lemma_ascii_boundary(bytes@, i as int);
    }
    let (head, rest) = s.split_at(i);
    let (_, tail) = rest.split_at(1);
    assert(tail.spec_bytes() =~= bytes@.subrange(i + 1, bytes@.len() as int));
    Some((head, tail))
}

/// `s` without the run of `b` that it starts with.
pub fn skip_leading_at<'a>(s: &'a str, b: u8) -> (r: &'a str)
    requires
        is_ascii_byte(b),
    ensures
        r.spec_bytes() == skip_leading(s.spec_bytes(), b),
{
    broadcast use encode_utf8_valid_utf8;

    let mut rest: &'a str = s;
    loop
        invariant
            is_ascii_byte(b),
            skip_leading(s.spec_bytes(), b) == skip_leading(rest.spec_bytes(), b),
        decreases rest.spec_bytes().len(),
    {
        let bytes = rest.as_bytes();
        if bytes.len() == 0 || bytes[0] != b {
            return rest;
        }
        proof {
            encode_utf8_valid_utf8(rest@);
            lemma_ascii_boundary(bytes@, 0);
            assert(bytes@.subrange(0, bytes@.len() as int) =~= bytes@);
        }
        let (_, tail) = rest.split_at(1);
        assert(tail.spec_bytes() =~= bytes@.drop_first());
        rest = tail;
    }
}

} // verus!
