//! Attributes of an HTTP exchange: method, protocol version, body size, and
//! the scheme, address and port under which the server was reached.

use crate::util::bytes::{
    after_last, ascii_lower, find, index_of, is_ascii_space, lemma_index_of, lemma_last_index_of,
    lower_case, parse_decimal, parse_unsigned, same_ignoring_case, split, split_once,
    strip_prefix_ignore_ascii_case, strip_prefix_ignore_case, suffix_after_last, to_lower_case,
    trim, trim_ascii, trim_end, trim_start,
};
use crate::util::header::{
    header_entries, header_get, header_text, header_value_bytes, is_plain_name, lemma_plain_name,
    lookup, visible_ascii, Entry,
};
use crate::util::text::{
    borrowed, lemma_text_of_bytes, opt_bytes, opt_string_bytes, opt_text, owned, split_once_at,
    str_eq, text_of,
};
use http::header::{HeaderMap, HeaderValue};
use vstd::prelude::*;
use vstd::slice::slice_subrange;
use vstd::string::StringSliceAdditionalSpecFns;
use vstd::utf8::valid_utf8;

verus! {

pub const HTTP_DEFAULT_PORT: u16 = 80;

pub const HTTPS_DEFAULT_PORT: u16 = 443;

/// The version of the protocol that a message was sent with.
#[derive(Clone, Copy, Debug, PartialEq, Eq)]
pub enum Version {
    Http09,
    Http10,
    Http11,
    Http2,
    Http3,
    /// A version that this library has no token for.
    Other,
}

/// The parts of a request target.
#[derive(Clone, Copy, Debug)]
pub struct Uri<'a> {
    pub scheme: Option<&'a str>,
    /// Host and port as they stand in the target, with user information.
    pub authority: Option<&'a str>,
    pub host: Option<&'a str>,
    pub port: Option<u16>,
    pub path: &'a str,
    pub query: Option<&'a str>,
}

/// What the decorators read of a request.
#[derive(Clone, Copy, Debug)]
pub struct RequestHead<'a> {
    /// The method token as sent, in its own case.
    pub method: &'a str,
    pub version: Version,
    pub uri: Uri<'a>,
    pub headers: &'a HeaderMap,
    /// The pattern of the route that matched the request, where the framework
    /// in use knows one.
    pub route: Option<&'a str>,
    /// The exact size of the body, where the body knows it in advance.
    pub body_size: Option<u64>,
}

/// What the decorators read of a response.
#[derive(Clone, Copy, Debug)]
pub struct ResponseHead<'a> {
    pub status: u16,
    pub headers: &'a HeaderMap,
    /// The exact size of the body, where the body knows it in advance.
    pub body_size: Option<u64>,
}

/// How the wait for a response ended.
#[derive(Clone, Copy, Debug)]
pub enum Outcome<'a> {
    /// The inner service answered.
    Response(ResponseHead<'a>),
    /// The inner service failed with an error of this text.
    Error(&'a str),
}

/// The methods that are reported under their own name.
pub open spec fn is_known_method(token: Seq<char>) -> bool {
    ||| token == "GET"@
    ||| token == "POST"@
    ||| token == "PUT"@
    ||| token == "DELETE"@
    ||| token == "HEAD"@
    ||| token == "OPTIONS"@
    ||| token == "CONNECT"@
    ||| token == "PATCH"@
    ||| token == "TRACE"@
}

/// The name under which a method is reported: its own if it is a known
/// method, `_OTHER` if not.
pub open spec fn method_name(token: Seq<char>) -> Seq<char> {
    if is_known_method(token) {
        token
    } else {
        "_OTHER"@
    }
}

/// The token of a protocol version.
pub open spec fn version_name(version: Version) -> Option<Seq<char>> {
    match version {
        Version::Http09 => Some("0.9"@),
        Version::Http10 => Some("1.0"@),
        Version::Http11 => Some("1.1"@),
        Version::Http2 => Some("2"@),
        Version::Http3 => Some("3"@),
        Version::Other => None,
    }
}

/// The first value filed under `name`, if it is printable ASCII.
pub open spec fn text_value(entries: Seq<Entry>, name: Seq<char>) -> Option<Seq<u8>> {
    match lookup(entries, name) {
        Some(value) => if visible_ascii(value) {
            Some(value)
        } else {
            None
        },
        None => None,
    }
}

/// The size that a message announces: the number in its `Content-Length`
/// header, if that is a decimal number that fits 64 bits.
pub open spec fn content_length(entries: Seq<Entry>) -> Option<nat> {
    match text_value(entries, "content-length"@) {
        Some(value) => parse_unsigned(value, u64::MAX as nat),
        None => None,
    }
}

/// The size of a body: what the message announces, else what the body knows.
pub open spec fn body_size(entries: Seq<Entry>, hint: Option<u64>) -> Option<u64> {
    match content_length(entries) {
        Some(n) => Some(n as u64),
        None => hint,
    }
}

/// The value of the last of the directives `ds` that is named `name`, name
/// included in any case and space around the directive left out.
pub open spec fn last_directive(ds: Seq<Seq<u8>>, name: Seq<u8>) -> Option<Seq<u8>>
    decreases ds.len(),
{
    if ds.len() == 0 {
        None
    } else {
        match strip_prefix_ignore_case(trim(ds.last()), name) {
            Some(value) => Some(value),
            None => last_directive(ds.drop_last(), name),
        }
    }
}

/// Octets that are text, or nothing.
pub open spec fn as_text(bytes: Option<Seq<u8>>) -> Option<Seq<u8>> {
    match bytes {
        Some(b) => if valid_utf8(b) {
            Some(b)
        } else {
            None
        },
        None => None,
    }
}

/// What a `Forwarded` header value says under `name`: the value of the last
/// directive of that name among those of the last hop, if it is text. The
/// hops are separated by commas, the directives of a hop by semicolons.
pub open spec fn forwarded_field(value: Seq<u8>, name: Seq<u8>) -> Option<Seq<u8>> {
    as_text(last_directive(split(after_last(value, 0x2c), 0x3b), name))
}

/// The last of the directives `ds` that is named `name`, in lower case.
pub open spec fn last_folded(ds: Seq<Seq<u8>>, name: Seq<u8>) -> Option<Seq<u8>> {
    match last_directive(ds, name) {
        Some(written) => Some(lower_case(written)),
        None => None,
    }
}

/// What a `Forwarded` header value says under `name`, with its ASCII
/// letters in lower case: the value of the last directive of that name
/// among those of the last hop, folded, if it is text.
pub open spec fn forwarded_folded(value: Seq<u8>, name: Seq<u8>) -> Option<Seq<u8>> {
    as_text(last_folded(split(after_last(value, 0x2c), 0x3b), name))
}

/// The scheme that a `Forwarded` header value gives: what it says under
/// `proto=`, in lower case.
pub open spec fn forwarded_scheme(value: Seq<u8>) -> Option<Seq<u8>> {
    forwarded_folded(value, "proto=".spec_bytes())
}

/// The port that a scheme implies.
pub open spec fn default_port(scheme: Option<Seq<u8>>) -> Option<u16> {
    match scheme {
        Some(s) => if s == "http".spec_bytes() {
            Some(HTTP_DEFAULT_PORT)
        } else if s == "https".spec_bytes() {
            Some(HTTPS_DEFAULT_PORT)
        } else {
            None
        },
        None => None,
    }
}

/// `a`, or `b` where `a` is nothing.
pub open spec fn or<T>(a: Option<T>, b: Option<T>) -> Option<T> {
    match a {
        Some(_) => a,
        None => b,
    }
}

/// What the `Forwarded` header of a request says under `name`.
pub open spec fn forwarded_of(entries: Seq<Entry>, name: Seq<u8>) -> Option<Seq<u8>> {
    match lookup(entries, "forwarded"@) {
        Some(value) => forwarded_field(value, name),
        None => None,
    }
}

/// The scheme that the `Forwarded` header of a request gives.
pub open spec fn forwarded_scheme_of(entries: Seq<Entry>) -> Option<Seq<u8>> {
    match lookup(entries, "forwarded"@) {
        Some(value) => forwarded_scheme(value),
        None => None,
    }
}

/// The host that a received request was sent to: what `Forwarded` says,
/// else `X-Forwarded-Host`, else `Host`.
pub open spec fn recv_host(entries: Seq<Entry>) -> Option<Seq<u8>> {
    or(
        forwarded_of(entries, "host=".spec_bytes()),
        or(text_value(entries, "x-forwarded-host"@), text_value(entries, "host"@)),
    )
}

/// The scheme that a received request was sent with: what `Forwarded` says,
/// in lower case, else `X-Forwarded-Proto` as it is written.
pub open spec fn recv_scheme(entries: Seq<Entry>) -> Option<Seq<u8>> {
    or(forwarded_scheme_of(entries), text_value(entries, "x-forwarded-proto"@))
}

/// The address in a host: what stands before its first colon, or all of it.
pub open spec fn host_address(host: Option<Seq<u8>>) -> Option<Seq<u8>> {
    match host {
        Some(h) => match split_once(h, 0x3a) {
            Some((address, _)) => Some(address),
            None => Some(h),
        },
        None => None,
    }
}

/// The port in a host: the number after its first colon, if it fits 16 bits.
pub open spec fn host_port(host: Option<Seq<u8>>) -> Option<u16> {
    match host {
        Some(h) => match split_once(h, 0x3a) {
            Some((_, port)) => match parse_unsigned(port, u16::MAX as nat) {
                Some(n) => Some(n as u16),
                None => None,
            },
            None => None,
        },
        None => None,
    }
}

/// The attributes of a request, texts by their octets.
pub struct Attributes {
    pub url_scheme: Option<Seq<u8>>,
    pub server_address: Option<Seq<u8>>,
    pub server_port: Option<u16>,
}

/// The attributes of a request that was sent: those of its target.
pub open spec fn sent_attributes(uri: Uri) -> Attributes {
    Attributes {
        url_scheme: opt_bytes(uri.scheme),
        server_address: opt_bytes(uri.host),
        server_port: or(uri.port, default_port(opt_bytes(uri.scheme))),
    }
}

/// The attributes of a request that was received: those that its headers
/// give.
pub open spec fn recv_attributes(entries: Seq<Entry>) -> Attributes {
    Attributes {
        url_scheme: recv_scheme(entries),
        server_address: host_address(recv_host(entries)),
        server_port: or(host_port(recv_host(entries)), default_port(recv_scheme(entries))),
    }
}

/// `_OTHER` is no known method, so a name that is reported is reported as
/// itself.
pub proof fn lemma_method_name_idempotent(token: Seq<char>)
    ensures
        method_name(method_name(token)) == method_name(token),
        !is_known_method(token) ==> method_name(token) == "_OTHER"@,
{
    reveal_strlit("_OTHER");
    reveal_strlit("GET");
    reveal_strlit("POST");
    reveal_strlit("PUT");
    reveal_strlit("DELETE");
    reveal_strlit("HEAD");
    reveal_strlit("OPTIONS");
    reveal_strlit("CONNECT");
    reveal_strlit("PATCH");
    reveal_strlit("TRACE");
    assert("_OTHER"@[0] == '_');
    assert(!is_known_method("_OTHER"@));
}

/// Only the last hop of a `Forwarded` value counts: whatever stands before
/// its last comma changes nothing.
pub proof fn lemma_forwarded_last_hop(earlier: Seq<u8>, last: Seq<u8>, name: Seq<u8>)
    requires
        forall|i: int| 0 <= i < last.len() ==> last[i] != 0x2c,
    ensures
        forwarded_field(earlier + seq![0x2cu8] + last, name) == forwarded_field(last, name),
        forwarded_folded(earlier + seq![0x2cu8] + last, name) == forwarded_folded(last, name),
{
    let whole = earlier + seq![0x2cu8] + last;
    lemma_last_index_of(whole, 0x2c, earlier.len() as int);
    lemma_last_index_of(last, 0x2c, -1);
    assert(after_last(whole, 0x2c) =~= last);
    assert(after_last(last, 0x2c) =~= last);
}

/// A directive is recognised by its name in any case: `written`, which is
/// `name` up to the case of its letters, followed by `value`, has that value.
pub proof fn lemma_directive_name_case(written: Seq<u8>, name: Seq<u8>, value: Seq<u8>)
    requires
        same_ignoring_case(written, name),
    ensures
        strip_prefix_ignore_case(written + value, name) == Some(value),
{
    let s = written + value;
    assert forall|i: int| 0 <= i < name.len() implies ascii_lower(s[i])
        == ascii_lower(#[trigger] name[i]) by {
        assert(s[i] == written[i]);
    }
    assert(s.subrange(name.len() as int, s.len() as int) =~= value);
}

/// A last hop that is one directive gives its value, whatever the case of
/// its name: `written` is the name `name` in any case, and `value` holds no
/// separator and ends with no space.
pub proof fn lemma_forwarded_directive(
    earlier: Seq<u8>,
    written: Seq<u8>,
    name: Seq<u8>,
    value: Seq<u8>,
)
    requires
        same_ignoring_case(written, name),
        name.len() > 0,
        forall|i: int| 0 <= i < name.len() ==> name[i] != 0x2c && name[i] != 0x3b,
        !is_ascii_space(name[0]),
        !is_ascii_space(name.last()),
        forall|i: int| 0 <= i < value.len() ==> value[i] != 0x2c && value[i] != 0x3b,
        value.len() > 0 ==> !is_ascii_space(value.last()),
    ensures
        forwarded_field(written + value, name) == as_text(Some(value)),
        forwarded_field(earlier + seq![0x2cu8] + (written + value), name) == as_text(Some(value)),
        forwarded_folded(written + value, name) == as_text(Some(lower_case(value))),
        forwarded_folded(earlier + seq![0x2cu8] + (written + value), name) == as_text(
            Some(lower_case(value)),
        ),
{
    let hop = written + value;
    assert forall|i: int| 0 <= i < hop.len() implies hop[i] != 0x2c && hop[i] != 0x3b by {
        if i < written.len() {
            assert(hop[i] == written[i]);
            assert(ascii_lower(written[i]) == ascii_lower(name[i]));
        } else {
            assert(hop[i] == value[i - written.len()]);
        }
    }
    lemma_forwarded_last_hop(earlier, hop, name);
    lemma_last_index_of(hop, 0x2c, -1);
    assert(after_last(hop, 0x2c) =~= hop);
    lemma_index_of(hop, 0x3b, hop.len() as int);
    assert(split(hop, 0x3b) == seq![hop]);
    assert(hop[0] == written[0]);
    assert(ascii_lower(written[0]) == ascii_lower(name[0]));
    assert(trim_start(hop) == hop);
    if value.len() > 0 {
        assert(hop.last() == value.last());
    } else {
        assert(hop.last() == written[written.len() - 1]);
        assert(ascii_lower(written[name.len() - 1]) == ascii_lower(name[name.len() - 1]));
    }
    assert(trim_end(hop) == hop);
    lemma_directive_name_case(written, name, value);
    reveal_with_fuel(last_directive, 2);
    assert(seq![hop].last() == hop);
}

/// The name under which a method is reported.
pub fn http_method(method: &str) -> (name: &'static str)
    ensures
        name@ == method_name(method@),
        !is_known_method(method@) ==> name@ == "_OTHER"@,
{
    if str_eq(method, "GET") {
        "GET"
    } else if str_eq(method, "POST") {
        "POST"
    } else if str_eq(method, "PUT") {
        "PUT"
    } else if str_eq(method, "DELETE") {
        "DELETE"
    } else if str_eq(method, "HEAD") {
        "HEAD"
    } else if str_eq(method, "OPTIONS") {
        "OPTIONS"
    } else if str_eq(method, "CONNECT") {
        "CONNECT"
    } else if str_eq(method, "PATCH") {
        "PATCH"
    } else if str_eq(method, "TRACE") {
        "TRACE"
    } else {
        "_OTHER"
    }
}

/// The token of a protocol version, where it has one.
pub fn http_version(version: Version) -> (name: Option<&'static str>)
    ensures
        opt_text(name) == version_name(version),
{
    match version {
        Version::Http09 => Some("0.9"),
        Version::Http10 => Some("1.0"),
        Version::Http11 => Some("1.1"),
        Version::Http2 => Some("2"),
        Version::Http3 => Some("3"),
        Version::Other => None,
    }
}

/// The first value filed under the plain name `name`, if it is printable
/// ASCII.
fn named_text<'a>(headers: &'a HeaderMap, name: &str) -> (r: Option<&'a str>)
    requires
        is_plain_name(name@),
    ensures
        opt_bytes(r) == text_value(header_entries(*headers), name@),
{
    proof {
        lemma_plain_name(name);
    }
    header_text(headers, name)
}

/// The size of a body: the number in the `Content-Length` header if there is
/// one, else `hint`.
pub fn message_size(headers: &HeaderMap, hint: Option<u64>) -> (size: Option<u64>)
    ensures
        size == body_size(header_entries(*headers), hint),
{
    proof {
        reveal_strlit("content-length");
    }
    match named_text(headers, "content-length") {
        Some(text) => match parse_decimal(text.as_bytes(), u64::MAX) {
            Some(n) => Some(n),
            None => hint,
        },
        None => hint,
    }
}

/// The size of the body of a request.
pub fn http_request_size(req: &RequestHead) -> (size: Option<u64>)
    ensures
        size == body_size(header_entries(*req.headers), req.body_size),
{
    message_size(req.headers, req.body_size)
}

/// The size of the body of a response.
pub fn http_response_size(res: &ResponseHead) -> (size: Option<u64>)
    ensures
        size == body_size(header_entries(*res.headers), res.body_size),
{
    message_size(res.headers, res.body_size)
}

/// The pattern of the route that matched the request.
pub fn http_route<'a>(req: &RequestHead<'a>) -> (route: Option<&'a str>)
    ensures
        route == req.route,
{
    req.route
}

/// What a `Forwarded` header says of the last hop.
#[derive(Debug)]
pub struct Forwarded<'a> {
    /// The host, as it is written.
    pub host: Option<&'a str>,
    /// The scheme, in lower case.
    pub proto: Option<String>,
}

/// The value of `directive`, if it is named `name`.
fn directive_value<'a>(directive: &'a [u8], name: &str) -> (r: Option<&'a [u8]>)
    ensures
        r is Some <==> strip_prefix_ignore_case(trim(directive@), name.spec_bytes()) is Some,
        r matches Some(value) ==> strip_prefix_ignore_case(trim(directive@), name.spec_bytes())
            == Some(value@),
{
    strip_prefix_ignore_ascii_case(trim_ascii(directive), name.as_bytes())
}

/// `written` in lower case, if that is text.
fn folded_text(written: &[u8]) -> (r: Option<String>)
    ensures
        opt_string_bytes(r) == as_text(Some(lower_case(written@))),
{
    let folded = to_lower_case(written);
    owned(text_of(folded.as_slice()))
}

/// The value of `directive` if it is named `name` and is text; `current` if
/// it has another name.
fn read_directive<'a>(directive: &'a [u8], name: &str, current: Option<&'a str>) -> (r: Option<
    &'a str,
>)
    ensures
        opt_bytes(r) == match strip_prefix_ignore_case(trim(directive@), name.spec_bytes()) {
            Some(value) => as_text(Some(value)),
            None => opt_bytes(current),
        },
{
    match directive_value(directive, name) {
        Some(value) => text_of(value),
        None => current,
    }
}

/// The value of `directive` in lower case if it is named `name` and is
/// text; `current` if it has another name.
fn read_folded(directive: &[u8], name: &str, current: Option<String>) -> (r: Option<String>)
    ensures
        opt_string_bytes(r) == match strip_prefix_ignore_case(trim(directive@), name.spec_bytes()) {
            Some(value) => as_text(Some(lower_case(value))),
            None => opt_string_bytes(current),
        },
{
    match directive_value(directive, name) {
        Some(value) => folded_text(value),
        None => current,
    }
}

impl<'a> Forwarded<'a> {
    /// Reads host and scheme from the last hop of a `Forwarded` value. The
    /// host is given as it is written, the scheme with its ASCII letters in
    /// lower case.
    pub fn parse_header_value(header_value: &'a HeaderValue) -> (r: Self)
        ensures
            opt_bytes(r.host) == forwarded_field(header_value_bytes(*header_value), "host=".spec_bytes()),
            opt_string_bytes(r.proto) == forwarded_scheme(header_value_bytes(*header_value)),
    {
        let proxy = suffix_after_last(header_value.as_bytes(), 0x2c);
        let mut host: Option<&'a str> = None;
        let mut proto: Option<String> = None;
        let mut rest: &'a [u8] = proxy;
        let ghost mut done: Seq<Seq<u8>> = seq![];
        let mut i: usize = find(rest, 0x3b);
        while i < rest.len()
            invariant
                i == index_of(rest@, 0x3b),
                split(proxy@, 0x3b) == done + split(rest@, 0x3b),
                opt_bytes(host) == as_text(last_directive(done, "host=".spec_bytes())),
                opt_string_bytes(proto) == as_text(last_folded(done, "proto=".spec_bytes())),
            decreases rest@.len(),
        {
            let directive = slice_subrange(rest, 0, i);
            host = read_directive(directive, "host=", host);
            proto = read_folded(directive, "proto=", proto);
            proof {
                let tail = rest@.subrange(i + 1, rest@.len() as int);
                assert(split(rest@, 0x3b) == seq![directive@] + split(tail, 0x3b));
                assert(done.push(directive@).drop_last() =~= done);
                assert(done.push(directive@) + split(tail, 0x3b) =~= done + split(rest@, 0x3b));
                done = done.push(directive@);
            }
            rest = slice_subrange(rest, i + 1, rest.len());
            i = find(rest, 0x3b);
        }
        host = read_directive(rest, "host=", host);
        proto = read_folded(rest, "proto=", proto);
        proof {
            assert(split(rest@, 0x3b) == seq![rest@]);
            assert(done.push(rest@).drop_last() =~= done);
            assert(done.push(rest@) =~= split(proxy@, 0x3b));
        }
        Forwarded { host, proto }
    }
}

/// What a request's `Forwarded` header says, if it has one.
fn forwarded<'a>(headers: &'a HeaderMap) -> (r: Forwarded<'a>)
    ensures
        opt_bytes(r.host) == forwarded_of(header_entries(*headers), "host=".spec_bytes()),
        opt_string_bytes(r.proto) == forwarded_scheme_of(header_entries(*headers)),
{
    proof {
        reveal_strlit("forwarded");
        lemma_plain_name("forwarded");
    }
    match header_get(headers, "forwarded") {
        Some(value) => Forwarded::parse_header_value(value),
        None => Forwarded { host: None, proto: None },
    }
}

/// The port that a scheme implies.
fn scheme_port(scheme: Option<&str>) -> (port: Option<u16>)
    ensures
        port == default_port(opt_bytes(scheme)),
{
    match scheme {
        Some(s) => {
            proof {
                lemma_text_of_bytes(s, "http");
                lemma_text_of_bytes(s, "https");
            }
            if str_eq(s, "http") {
                Some(HTTP_DEFAULT_PORT)
            } else if str_eq(s, "https") {
                Some(HTTPS_DEFAULT_PORT)
            } else {
                None
            }
        },
        None => None,
    }
}

/// The scheme that a received request was sent with, as its headers give
/// it: what `Forwarded` says, in lower case, else `X-Forwarded-Proto`.
pub fn http_url_scheme(req: &RequestHead) -> (scheme: Option<String>)
    ensures
        opt_string_bytes(scheme) == recv_scheme(header_entries(*req.headers)),
{
    proof {
        reveal_strlit("x-forwarded-proto");
    }
    match forwarded(req.headers).proto {
        Some(proto) => Some(proto),
        None => owned(named_text(req.headers, "x-forwarded-proto")),
    }
}

/// Scheme, address and port under which a server is reached.
#[derive(Debug)]
pub struct HttpRequestAttributes<'a> {
    pub url_scheme: Option<String>,
    pub server_address: Option<&'a str>,
    pub server_port: Option<u16>,
}

impl<'a> HttpRequestAttributes<'a> {
    /// The attributes with their texts as octets.
    pub open spec fn view(&self) -> Attributes {
        Attributes {
            url_scheme: opt_string_bytes(self.url_scheme),
            server_address: opt_bytes(self.server_address),
            server_port: self.server_port,
        }
    }

    /// The attributes of a request that is sent: scheme, host and port of
    /// its target, the port that the scheme implies where the target names
    /// none.
    pub fn from_sent_request(request: &RequestHead<'a>) -> (r: Self)
        ensures
            r@ == sent_attributes(request.uri),
    {
        let server_address = request.uri.host;
        let server_port = match request.uri.port {
            Some(port) => Some(port),
            None => scheme_port(request.uri.scheme),
        };
        Self { url_scheme: owned(request.uri.scheme), server_address, server_port }
    }

    /// The attributes of a request that was received, as its headers give
    /// them: `Forwarded` before `X-Forwarded-Host` and `X-Forwarded-Proto`,
    /// and these before `Host`.
    pub fn from_recv_request(request: &RequestHead<'a>) -> (r: Self)
        ensures
            r@ == recv_attributes(header_entries(*request.headers)),
    {
        proof {
            reveal_strlit("x-forwarded-host");
            reveal_strlit("x-forwarded-proto");
            reveal_strlit("host");
        }
        let Forwarded { host, proto } = forwarded(request.headers);
        let host = match host {
            Some(h) => Some(h),
            None => match named_text(request.headers, "x-forwarded-host") {
                Some(h) => Some(h),
                None => named_text(request.headers, "host"),
            },
        };
        let url_scheme = match proto {
            Some(p) => Some(p),
            None => owned(named_text(request.headers, "x-forwarded-proto")),
        };
        let (server_address, port_text) = match host {
            Some(h) => match split_once_at(h, 0x3a) {
                Some((address, port)) => (Some(address), Some(port)),
                None => (Some(h), None),
            },
            None => (None, None),
        };
        let parsed = match port_text {
            Some(text) => match parse_decimal(text.as_bytes(), 65535) {
                Some(n) => Some(n as u16),
                None => None,
            },
            None => None,
        };
        let server_port = match parsed {
            Some(port) => Some(port),
            None => scheme_port(borrowed(&url_scheme)),
        };
        Self { url_scheme, server_address, server_port }
    }
}

} // verus!
