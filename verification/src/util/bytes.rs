//! Octet strings: searching, splitting, trimming, ASCII case folding and
//! decimal numbers, each with the sequence-level function that it computes.

use vstd::prelude::*;
use vstd::slice::slice_subrange;

verus! {

/// ASCII whitespace: space, tab, line feed, form feed and carriage return.
pub open spec fn is_ascii_space(b: u8) -> bool {
    b == 0x20 || b == 0x09 || b == 0x0a || b == 0x0c || b == 0x0d
}

/// The lower-case form of an ASCII letter; every other octet is itself.
pub open spec fn ascii_lower(b: u8) -> u8 {
    if 0x41 <= b <= 0x5a {
        (b + 0x20) as u8
    } else {
        b
    }
}

/// `s` starts with `prefix` when ASCII letters are compared without case.
pub open spec fn has_prefix_ignore_case(s: Seq<u8>, prefix: Seq<u8>) -> bool {
    &&& prefix.len() <= s.len()
    &&& forall|i: int| 0 <= i < prefix.len() ==> ascii_lower(s[i]) == ascii_lower(#[trigger] prefix[i])
}

/// `written` is `name` but for the case of its ASCII letters.
pub open spec fn same_ignoring_case(written: Seq<u8>, name: Seq<u8>) -> bool {
    &&& written.len() == name.len()
    &&& forall|i: int| 0 <= i < name.len() ==> ascii_lower(written[i]) == ascii_lower(#[trigger] name[i])
}

/// What follows `prefix` in `s`, if `s` starts with it up to ASCII case.
pub open spec fn strip_prefix_ignore_case(s: Seq<u8>, prefix: Seq<u8>) -> Option<Seq<u8>> {
    if has_prefix_ignore_case(s, prefix) {
        Some(s.subrange(prefix.len() as int, s.len() as int))
    } else {
        None
    }
}

/// The position of the first `b` in `s`, or the length of `s` if there is none.
pub open spec fn index_of(s: Seq<u8>, b: u8) -> int
    decreases s.len(),
{
    if s.len() == 0 || s[0] == b {
        0
    } else {
        1 + index_of(s.drop_first(), b)
    }
}

/// The position of the last `b` in `s`, or -1 if there is none.
pub open spec fn last_index_of(s: Seq<u8>, b: u8) -> int
    decreases s.len(),
{
    if s.len() == 0 {
        -1
    } else if s.last() == b {
        s.len() - 1
    } else {
        last_index_of(s.drop_last(), b)
    }
}

/// The pieces of `s` between occurrences of `sep`, in order. There is always
/// at least one piece; it is empty when `s` is.
pub open spec fn split(s: Seq<u8>, sep: u8) -> Seq<Seq<u8>>
    decreases s.len(),
{
    let i = index_of(s, sep);
    if 0 <= i < s.len() {
        seq![s.subrange(0, i)] + split(s.subrange(i + 1, s.len() as int), sep)
    } else {
        seq![s]
    }
}

/// What follows the last `sep` in `s`; all of `s` if it holds none.
pub open spec fn after_last(s: Seq<u8>, sep: u8) -> Seq<u8> {
    s.subrange(last_index_of(s, sep) + 1, s.len() as int)
}

/// `s` cut at its first `sep`, which belongs to neither part.
pub open spec fn split_once(s: Seq<u8>, sep: u8) -> Option<(Seq<u8>, Seq<u8>)> {
    let i = index_of(s, sep);
    if 0 <= i < s.len() {
        Some((s.subrange(0, i), s.subrange(i + 1, s.len() as int)))
    } else {
        None
    }
}

/// `s` without its leading ASCII whitespace.
pub open spec fn trim_start(s: Seq<u8>) -> Seq<u8>
    decreases s.len(),
{
    if s.len() > 0 && is_ascii_space(s[0]) {
        trim_start(s.drop_first())
    } else {
        s
    }
}

/// `s` without its trailing ASCII whitespace.
pub open spec fn trim_end(s: Seq<u8>) -> Seq<u8>
    decreases s.len(),
{
    if s.len() > 0 && is_ascii_space(s.last()) {
        trim_end(s.drop_last())
    } else {
        s
    }
}

/// `s` without ASCII whitespace at either end.
pub open spec fn trim(s: Seq<u8>) -> Seq<u8> {
    trim_end(trim_start(s))
}

/// `s` without the run of `b` that it starts with.
pub open spec fn skip_leading(s: Seq<u8>, b: u8) -> Seq<u8>
    decreases s.len(),
{
    if s.len() > 0 && s[0] == b {
        skip_leading(s.drop_first(), b)
    } else {
        s
    }
}

pub open spec fn is_digit(b: u8) -> bool {
    0x30 <= b <= 0x39
}

pub open spec fn all_digits(s: Seq<u8>) -> bool {
    forall|i: int| 0 <= i < s.len() ==> is_digit(#[trigger] s[i])
}

pub open spec fn digit_value(b: u8) -> nat {
    if is_digit(b) {
        (b - 0x30) as nat
    } else {
        0
    }
}

/// The number that a string of decimal digits denotes.
pub open spec fn decimal_value(s: Seq<u8>) -> nat
    decreases s.len(),
{
    if s.len() == 0 {
        0
    } else {
        decimal_value(s.drop_last()) * 10 + digit_value(s.last())
    }
}

/// The digits of a number with an optional sign in front of it.
pub open spec fn unsigned_digits(s: Seq<u8>) -> Seq<u8> {
    if s.len() > 0 && s[0] == 0x2b {
        s.drop_first()
    } else {
        s
    }
}

/// An unsigned decimal number of at most `max`: an optional `+`, then one or
/// more digits, and nothing else.
pub open spec fn parse_unsigned(s: Seq<u8>, max: nat) -> Option<nat> {
    let digits = unsigned_digits(s);
    if digits.len() > 0 && all_digits(digits) && decimal_value(digits) <= max {
        Some(decimal_value(digits))
    } else {
        None
    }
}

/// A signed decimal number between `min` and `max`: an optional `+` or `-`,
/// then one or more digits, and nothing else.
pub open spec fn parse_signed(s: Seq<u8>, min: int, max: int) -> Option<int> {
    let negative = s.len() > 0 && s[0] == 0x2d;
    let digits = if negative {
        s.drop_first()
    } else {
        unsigned_digits(s)
    };
    let value = if negative {
        -(decimal_value(digits) as int)
    } else {
        decimal_value(digits) as int
    };
    if digits.len() > 0 && all_digits(digits) && min <= value <= max {
        Some(value)
    } else {
        None
    }
}

/// `index_of` is the one position before which no `b` stands and at which
/// `s` ends or holds `b`.
pub proof fn lemma_index_of(s: Seq<u8>, b: u8, k: int)
    requires
        0 <= k <= s.len(),
        forall|j: int| 0 <= j < k ==> s[j] != b,
        k < s.len() ==> s[k] == b,
    ensures
        index_of(s, b) == k,
    decreases s.len(),
{
    if s.len() == 0 || s[0] == b {
    } else {
        lemma_index_of(s.drop_first(), b, k - 1);
    }
}

/// What `index_of` finds: the first `b`, if there is one.
pub proof fn lemma_index_of_bounds(s: Seq<u8>, b: u8)
    ensures
        0 <= index_of(s, b) <= s.len(),
        forall|j: int| 0 <= j < index_of(s, b) ==> s[j] != b,
        index_of(s, b) < s.len() ==> s[index_of(s, b)] == b,
    decreases s.len(),
{
    if s.len() == 0 || s[0] == b {
    } else {
        let t = s.drop_first();
        lemma_index_of_bounds(t, b);
        assert forall|j: int| 0 <= j < index_of(s, b) implies s[j] != b by {
            if j > 0 {
                assert(t[j - 1] == s[j]);
            }
        }
    }
}

/// `last_index_of` is the one position after which no `b` stands and which
/// is -1 or holds `b`.
pub proof fn lemma_last_index_of(s: Seq<u8>, b: u8, k: int)
    requires
        -1 <= k < s.len(),
        forall|j: int| k < j < s.len() ==> s[j] != b,
        0 <= k ==> s[k] == b,
    ensures
        last_index_of(s, b) == k,
    decreases s.len(),
{
    if s.len() == 0 {
    } else if s.last() == b {
    } else {
        lemma_last_index_of(s.drop_last(), b, k);
    }
}

/// A prefix of a digit string denotes no more than the whole string.
pub proof fn lemma_decimal_value_prefix(s: Seq<u8>, k: int)
    requires
        0 <= k <= s.len(),
    ensures
        decimal_value(s.take(k)) <= decimal_value(s),
    decreases s.len() - k,
{
    if k == s.len() {
        assert(s.take(k) =~= s);
    } else {
        lemma_decimal_value_prefix(s, k + 1);
        assert(s.take(k + 1).drop_last() =~= s.take(k));
    }
}

pub fn is_space(b: u8) -> (r: bool)
    ensures
        r == is_ascii_space(b),
{
    b == 0x20 || b == 0x09 || b == 0x0a || b == 0x0c || b == 0x0d
}

pub fn to_lower(b: u8) -> (r: u8)
    ensures
        r == ascii_lower(b),
{
    if 0x41 <= b && b <= 0x5a {
        b + 0x20
    } else {
        b
    }
}

/// `s` with its ASCII letters in lower case.
pub open spec fn lower_case(s: Seq<u8>) -> Seq<u8> {
    Seq::new(s.len(), |i: int| ascii_lower(s[i]))
}

/// `s` with its ASCII letters in lower case.
pub fn to_lower_case(s: &[u8]) -> (r: Vec<u8>)
    ensures
        r@ == lower_case(s@),
{
    let mut r: Vec<u8> = Vec::new();
    let mut i: usize = 0;
    while i < s.len()
        invariant
            0 <= i <= s@.len(),
            r@.len() == i,
            forall|j: int| 0 <= j < i ==> r@[j] == ascii_lower(s@[j]),
        decreases s@.len() - i,
    {
        r.push(to_lower(s[i]));
        i += 1;
    }
    assert(r@ =~= lower_case(s@));
    r
}

/// Whether two octet strings are the same.
pub fn bytes_eq(a: &[u8], b: &[u8]) -> (r: bool)
    ensures
        r == (a@ == b@),
{
    if a.len() != b.len() {
        return false;
    }
    let mut i: usize = 0;
    while i < a.len()
        invariant
            a@.len() == b@.len(),
            0 <= i <= a@.len(),
            forall|j: int| 0 <= j < i ==> a@[j] == b@[j],
        decreases a@.len() - i,
    {
        if a[i] != b[i] {
            return false;
        }
        i += 1;
    }
    assert(a@ =~= b@);
    true
}

/// The position of the first `b` in `s`, or the length of `s`.
pub fn find(s: &[u8], b: u8) -> (r: usize)
    ensures
        r == index_of(s@, b),
        r <= s@.len(),
{
    let mut i: usize = 0;
    while i < s.len() && s[i] != b
        invariant
            0 <= i <= s@.len(),
            forall|j: int| 0 <= j < i ==> s@[j] != b,
        decreases s@.len() - i,
    {
        i += 1;
    }
    proof {
        lemma_index_of(s@, b, i as int);
    }
    i
}

/// What follows the last `sep` in `s`.
pub fn suffix_after_last<'a>(s: &'a [u8], sep: u8) -> (r: &'a [u8])
    ensures
        r@ == after_last(s@, sep),
{
    let mut i: usize = s.len();
    while i > 0 && s[i - 1] != sep
        invariant
            0 <= i <= s@.len(),
            forall|j: int| i <= j < s@.len() ==> s@[j] != sep,
        decreases i,
    {
        i -= 1;
    }
    proof {
        lemma_last_index_of(s@, sep, i as int - 1);
    }
    slice_subrange(s, i, s.len())
}

/// `s` without ASCII whitespace at either end.
pub fn trim_ascii<'a>(s: &'a [u8]) -> (r: &'a [u8])
    ensures
        r@ == trim(s@),
{
    let n: usize = s.len();
    let mut start: usize = 0;
    assert(s@.subrange(0, n as int) =~= s@);
    while start < n && is_space(s[start])
        invariant
            n == s@.len(),
            0 <= start <= n,
            trim_start(s@) == trim_start(s@.subrange(start as int, n as int)),
        decreases n - start,
    {
        proof {
            let t = s@.subrange(start as int, n as int);
            assert(t.drop_first() =~= s@.subrange(start as int + 1, n as int));
        }
        start += 1;
    }
    let ghost front = s@.subrange(start as int, n as int);
    assert(trim_start(s@) == front);
    let mut end: usize = n;
    while end > start && is_space(s[end - 1])
        invariant
            n == s@.len(),
            0 <= start <= end <= n,
            front == s@.subrange(start as int, n as int),
            trim_end(front) == trim_end(s@.subrange(start as int, end as int)),
        decreases end,
    {
        proof {
            let t = s@.subrange(start as int, end as int);
            assert(t.drop_last() =~= s@.subrange(start as int, end as int - 1));
        }
        end -= 1;
    }
    slice_subrange(s, start, end)
}

/// What follows `prefix` in `s`, if `s` starts with it up to ASCII case.
pub fn strip_prefix_ignore_ascii_case<'a>(s: &'a [u8], prefix: &[u8]) -> (r: Option<&'a [u8]>)
    ensures
        r is Some <==> has_prefix_ignore_case(s@, prefix@),
        r matches Some(rest) ==> Some(rest@) == strip_prefix_ignore_case(s@, prefix@),
{
    if s.len() < prefix.len() {
        return None;
    }
    let mut i: usize = 0;
    while i < prefix.len()
        invariant
            prefix@.len() <= s@.len(),
            0 <= i <= prefix@.len(),
            forall|j: int| 0 <= j < i ==> ascii_lower(s@[j]) == ascii_lower(#[trigger] prefix@[j]),
        decreases prefix@.len() - i,
    {
        if to_lower(s[i]) != to_lower(prefix[i]) {
            return None;
        }
        i += 1;
    }
    Some(slice_subrange(s, prefix.len(), s.len()))
}

/// An unsigned decimal number of at most `max`.
pub fn parse_decimal(s: &[u8], max: u64) -> (r: Option<u64>)
    ensures
        r is Some <==> parse_unsigned(s@, max as nat) is Some,
        r matches Some(v) ==> parse_unsigned(s@, max as nat) == Some(v as nat),
{
    let start: usize = if s.len() > 0 && s[0] == 0x2b {
        1
    } else {
        0
    };
    let ghost digits = unsigned_digits(s@);
    assert(digits =~= s@.subrange(start as int, s@.len() as int));
    if start == s.len() {
        return None;
    }
    let mut value: u64 = 0;
    let mut i: usize = start;
    while i < s.len()
        invariant
            start <= i <= s@.len(),
            digits == unsigned_digits(s@),
            digits == s@.subrange(start as int, s@.len() as int),
            all_digits(digits.take(i - start)),
            value == decimal_value(digits.take(i - start)),
            value <= max,
        decreases s@.len() - i,
    {
        let b: u8 = s[i];
        proof {
            assert(digits.take(i - start + 1).drop_last() =~= digits.take(i - start));
            assert(digits.take(i - start + 1).last() == b);
            lemma_decimal_value_prefix(digits, i - start + 1);
        }
        if b < 0x30 || b > 0x39 {
            assert(!is_digit(digits[i - start]));
            return None;
        }
        let next: u128 = value as u128 * 10 + (b - 0x30) as u128;
        if next > max as u128 {
            return None;
        }
        value = next as u64;
        i += 1;
        assert forall|j: int| 0 <= j < i - start implies is_digit(#[trigger] digits.take(i - start)[j]) by {
            if j < i - start - 1 {
                assert(digits.take(i - start - 1)[j] == digits.take(i - start)[j]);
            }
        }
    }
    assert(digits.take(i - start) =~= digits);
    Some(value)
}

/// An `i32` in decimal, with an optional sign.
pub fn parse_i32(s: &[u8]) -> (r: Option<i32>)
    ensures
        r is Some <==> parse_signed(s@, i32::MIN as int, i32::MAX as int) is Some,
        r matches Some(v) ==> parse_signed(s@, i32::MIN as int, i32::MAX as int) == Some(v as int),
{
    if s.len() > 0 && s[0] == 0x2d {
        let digits = slice_subrange(s, 1, s.len());
        assert(digits@ =~= s@.drop_first());
        if digits.len() > 0 && digits[0] == 0x2b {
            assert(!is_digit(digits@[0]));
            return None;
        }
        assert(unsigned_digits(digits@) == digits@);
        match parse_decimal(digits, 2147483648) {
            Some(v) => {
                if v == 2147483648 {
                    Some(i32::MIN)
                } else {
                    Some(-(v as i32))
                }
            },
            None => None,
        }
    } else {
        match parse_decimal(s, 2147483647) {
            Some(v) => Some(v as i32),
            None => None,
        }
    }
}

} // verus!
