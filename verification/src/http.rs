//! Host-side `wasi:http` logic: how an outgoing request's headers are
//! prepared (duplicate `Host` headers, the `Client-Cert` header) and which
//! response headers are withheld from the guest.

use vstd::prelude::*;

use crate::cache::{
    all_visible, as_chars, chars_eq, chars_to_string, lower, lower_chars, string_chars, to_chars, visible_ascii,
};
use crate::error::owned;

verus! {

/// Host-side service for `wasi:http`.
#[derive(Debug)]
pub struct WasiHttp;

/// Default implementation for `wasi:http`.
#[derive(Debug, Clone)]
pub struct HttpDefault;

/// Options used to connect to the outgoing HTTP backend.
#[derive(Debug, Clone)]
pub struct ConnectOptions {
    /// Address of the backend (`HTTP_ADDR`).
    pub addr: String,
}

/// The address used when `HTTP_ADDR` is not set.
pub open spec fn default_addr() -> Seq<char> {
    "http://localhost:8080"@
}

impl ConnectOptions {
    /// Options for the configured address, or the default address when
    /// none is configured.
    pub fn new(addr: Option<String>) -> (res: Self)
        ensures
            match addr {
                Some(a) => res.addr@ == a@,
                None => res.addr@ == default_addr(),
            },
    {
        match addr {
            Some(a) => ConnectOptions { addr: a },
            None => {
                ConnectOptions { addr: owned("http://localhost:8080") }
            },
        }
    }
}

/// An HTTP header: its name and its raw value.
#[derive(Debug, Clone)]
pub struct Header {
    pub name: String,
    pub value: Vec<u8>,
}

impl View for Header {
    type V = (Seq<char>, Seq<u8>);

    open spec fn view(&self) -> (Seq<char>, Seq<u8>) {
        (self.name@, self.value@)
    }
}

impl Header {
    /// A copy of this header.
    pub fn copy(&self) -> (res: Header)
        ensures
            res@ == self@,
    {
        Header { name: self.name.clone(), value: self.value.clone() }
    }
}

/// The view of a list of headers.
pub open spec fn headers_view(hs: Seq<Header>) -> Seq<(Seq<char>, Seq<u8>)> {
    hs.map_values(|h: Header| h@)
}

/// Whether a header's name is `lit`, ignoring ASCII case (header names are
/// case-insensitive).
pub open spec fn named(h: (Seq<char>, Seq<u8>), lit: Seq<char>) -> bool {
    lower(h.0) == lit
}

/// The headers that are not named `lit`, in order.
pub open spec fn without_name(s: Seq<(Seq<char>, Seq<u8>)>, lit: Seq<char>) -> Seq<(Seq<char>, Seq<u8>)>
    decreases s.len(),
{
    if s.len() == 0 {
        s
    } else {
        let rest = without_name(s.drop_last(), lit);
        if named(s.last(), lit) {
            rest
        } else {
            rest.push(s.last())
        }
    }
}

/// The values of the headers named `lit`, in order.
pub open spec fn values_named(s: Seq<(Seq<char>, Seq<u8>)>, lit: Seq<char>) -> Seq<Seq<u8>>
    decreases s.len(),
{
    if s.len() == 0 {
        Seq::empty()
    } else {
        let rest = values_named(s.drop_last(), lit);
        if named(s.last(), lit) {
            rest.push(s.last().1)
        } else {
            rest
        }
    }
}

pub open spec fn host_name() -> Seq<char> {
    "host"@
}

pub open spec fn client_cert_name() -> Seq<char> {
    "client-cert"@
}

/// The headers with duplicate `Host` headers resolved: when there are
/// several, the first is dropped and the others are kept, after the
/// remaining headers.
pub open spec fn dedupe_host_spec(s: Seq<(Seq<char>, Seq<u8>)>) -> Seq<(Seq<char>, Seq<u8>)> {
    let hosts = values_named(s, host_name());
    if hosts.len() > 1 {
        without_name(s, host_name()) + hosts.drop_first().map_values(|v: Seq<u8>| (host_name(), v))
    } else {
        s
    }
}

/// Whether a lowercase header name is one that the guest may not see.
pub open spec fn forbidden_name(l: Seq<char>) -> bool {
    ||| l == "connection"@
    ||| l == host_name()
    ||| l == "proxy-authenticate"@
    ||| l == "proxy-authorization"@
    ||| l == "transfer-encoding"@
    ||| l == "upgrade"@
    ||| l == "keep-alive"@
    ||| l == "proxy-connection"@
    ||| l == "http2-settings"@
}

/// The headers the guest may see, in order.
pub open spec fn permitted(s: Seq<(Seq<char>, Seq<u8>)>) -> Seq<(Seq<char>, Seq<u8>)>
    decreases s.len(),
{
    if s.len() == 0 {
        s
    } else {
        let rest = permitted(s.drop_last());
        if forbidden_name(lower(s.last().0)) {
            rest
        } else {
            rest.push(s.last())
        }
    }
}

proof fn lemma_headers_view_step(hs: Seq<Header>, i: int)
    requires
        0 <= i < hs.len(),
    ensures
        headers_view(hs.take(i + 1)).drop_last() == headers_view(hs.take(i)),
        headers_view(hs.take(i + 1)).last() == hs[i]@,
        headers_view(hs.take(i + 1)).len() == i + 1,
{
    assert(headers_view(hs.take(i + 1)).drop_last() =~= headers_view(hs.take(i)));
}

/// Whether `h` is named `lit`, ignoring ASCII case.
fn is_named(h: &Header, lit: &str) -> (res: bool)
    ensures
        res == named(h@, lit@),
{
    let l = lower_chars(&string_chars(&h.name));
    chars_eq(&l, lit)
}

/// Whether a header name is one the guest may not see.
pub fn is_forbidden(name: &String) -> (res: bool)
    ensures
        res == forbidden_name(lower(name@)),
{
    let l = lower_chars(&string_chars(name));
    let r = chars_eq(&l, "connection") || chars_eq(&l, "host") || chars_eq(&l, "proxy-authenticate")
        || chars_eq(&l, "proxy-authorization") || chars_eq(&l, "transfer-encoding") || chars_eq(&l, "upgrade")
        || chars_eq(&l, "keep-alive") || chars_eq(&l, "proxy-connection") || chars_eq(&l, "http2-settings");
    r
}

/// The headers not named `lit`, in order.
fn drop_named(headers: &Vec<Header>, lit: &str) -> (res: Vec<Header>)
    ensures
        headers_view(res@) == without_name(headers_view(headers@), lit@),
{
    let mut out: Vec<Header> = Vec::new();
    let mut i: usize = 0;
    while i < headers.len()
        invariant
            i <= headers.len(),
            headers_view(out@) == without_name(headers_view(headers@.take(i as int)), lit@),
        decreases headers.len() - i,
    {
        proof {
            lemma_headers_view_step(headers@, i as int);
        }
        if !is_named(&headers[i], lit) {
            let ghost before = out@;
            out.push(headers[i].copy());
            assert(headers_view(out@) =~= headers_view(before).push(headers@[i as int]@));
        }
        i = i + 1;
    }
    assert(headers@.take(headers.len() as int) =~= headers@);
    out
}

/// The values of the headers named `lit`, in order.
fn values_of(headers: &Vec<Header>, lit: &str) -> (res: Vec<Vec<u8>>)
    ensures
        res@.map_values(|v: Vec<u8>| v@) == values_named(headers_view(headers@), lit@),
{
    let mut out: Vec<Vec<u8>> = Vec::new();
    let mut i: usize = 0;
    while i < headers.len()
        invariant
            i <= headers.len(),
            out@.map_values(|v: Vec<u8>| v@) == values_named(headers_view(headers@.take(i as int)), lit@),
        decreases headers.len() - i,
    {
        proof {
            lemma_headers_view_step(headers@, i as int);
        }
        if is_named(&headers[i], lit) {
            let ghost before = out@;
            out.push(headers[i].value.clone());
            assert(out@.map_values(|v: Vec<u8>| v@) =~= before.map_values(|v: Vec<u8>| v@).push(
                headers@[i as int].value@,
            ));
        }
        i = i + 1;
    }
    assert(headers@.take(headers.len() as int) =~= headers@);
    out
}

/// Resolves duplicate `Host` headers: when a request carries several, the
/// first is dropped and the others are kept.
pub fn dedupe_host(headers: Vec<Header>) -> (res: Vec<Header>)
    ensures
        headers_view(res@) == dedupe_host_spec(headers_view(headers@)),
{
    let hosts = values_of(&headers, "host");
    if hosts.len() <= 1 {
        return headers;
    }
    let mut out = drop_named(&headers, "host");
    let ghost kept = headers_view(out@);
    let ghost hv = hosts@.map_values(|v: Vec<u8>| v@);
    let mut i: usize = 1;
    while i < hosts.len()
        invariant
            1 <= i <= hosts.len(),
            hv == hosts@.map_values(|v: Vec<u8>| v@),
            headers_view(out@) == kept + hv.subrange(1, i as int).map_values(
                |v: Seq<u8>| ("host"@, v),
            ),
        decreases hosts.len() - i,
    {
        let ghost before = out@;
        out.push(Header { name: owned("host"), value: hosts[i].clone() });
        assert(headers_view(out@) =~= headers_view(before).push(("host"@, hv[i as int])));
        assert(hv.subrange(1, i + 1).map_values(|v: Seq<u8>| ("host"@, v)) =~= hv.subrange(
            1,
            i as int,
        ).map_values(|v: Seq<u8>| ("host"@, v)).push(("host"@, hv[i as int])));
        i = i + 1;
    }
    assert(hv.subrange(1, hosts.len() as int) =~= hv.drop_first());
    out
}

/// The headers the guest may see: those that `wasmtime-wasi-http` forbids
/// are removed, the others kept in order.
pub fn strip_forbidden(headers: &Vec<Header>) -> (res: Vec<Header>)
    ensures
        headers_view(res@) == permitted(headers_view(headers@)),
{
    let mut out: Vec<Header> = Vec::new();
    let mut i: usize = 0;
    while i < headers.len()
        invariant
            i <= headers.len(),
            headers_view(out@) == permitted(headers_view(headers@.take(i as int))),
        decreases headers.len() - i,
    {
        proof {
            lemma_headers_view_step(headers@, i as int);
        }
        if !is_forbidden(&headers[i].name) {
            let ghost before = out@;
            out.push(headers[i].copy());
            assert(headers_view(out@) =~= headers_view(before).push(headers@[i as int]@));
        }
        i = i + 1;
    }
    assert(headers@.take(headers.len() as int) =~= headers@);
    out
}

/// The `wasi:http` error codes the host reports for an outgoing request.
#[derive(Debug, Clone, PartialEq, Eq)]
pub enum ErrorCode {
    ConnectionTimeout,
    ConnectionRefused,
    HttpRequestUriInvalid,
    InternalError(Option<String>),
}

/// Whether `e` is an internal error with the message `msg`.
pub open spec fn internal_error_is(e: ErrorCode, msg: Seq<char>) -> bool {
    e matches ErrorCode::InternalError(Some(m)) && m@ == msg
}

/// How a failed outgoing request is reported, from what the HTTP client
/// says of the failure: a timeout, a failed connection, a malformed
/// request, or anything else with its message.
pub fn send_error(is_timeout: bool, is_connect: bool, is_request: bool, message: String) -> (res: ErrorCode)
    ensures
        is_timeout ==> res == ErrorCode::ConnectionTimeout,
        !is_timeout && is_connect ==> res == ErrorCode::ConnectionRefused,
        !is_timeout && !is_connect && is_request ==> res == ErrorCode::HttpRequestUriInvalid,
        !is_timeout && !is_connect && !is_request ==> internal_error_is(res, message@),
{
    if is_timeout {
        ErrorCode::ConnectionTimeout
    } else if is_connect {
        ErrorCode::ConnectionRefused
    } else if is_request {
        ErrorCode::HttpRequestUriInvalid
    } else {
        ErrorCode::InternalError(Some(message))
    }
}

/// Why Base64 input could not be decoded.
#[derive(Debug, Clone, Copy, PartialEq, Eq)]
pub enum Base64Failure {
    InvalidEncoding,
    InvalidLength,
}

/// What `base64ct`'s standard (padded) Base64 decoding gives for `input`.
pub uninterp spec fn base64_decode(input: Seq<char>) -> Result<Seq<u8>, Base64Failure>;

/// `<base64ct::Base64 as Encoding>::decode_vec`: the bytes that standard,
/// padded Base64 text encodes, or why it is not valid Base64. The result is
/// taken to depend on the input alone; what it is on given input is left to
/// `base64ct`.
#[verifier::external_body]
fn decode_base64(input: &str) -> (res: Result<Vec<u8>, Base64Failure>)
    ensures
        match res {
            Ok(v) => base64_decode(input@) == Ok::<Seq<u8>, Base64Failure>(v@),
            Err(f) => base64_decode(input@) == Err::<Seq<u8>, Base64Failure>(f),
        },
{
    match <base64ct::Base64 as base64ct::Encoding>::decode_vec(input) {
        Ok(v) => Ok(v),
        Err(base64ct::Error::InvalidEncoding) => Err(Base64Failure::InvalidEncoding),
        Err(base64ct::Error::InvalidLength) => Err(Base64Failure::InvalidLength),
    }
}

/// The message of a Base64 failure.
pub open spec fn failure_message(f: Base64Failure) -> Seq<char> {
    match f {
        Base64Failure::InvalidEncoding => "invalid Base64 encoding"@,
        Base64Failure::InvalidLength => "invalid Base64 length"@,
    }
}

/// The message of a header value that is not visible ASCII text.
pub open spec fn to_str_message() -> Seq<char> {
    "failed to convert header to a str"@
}

/// The outcome of decoding a client certificate: its bytes, or the error
/// reported for the Base64 failure.
pub fn decoded_cert(decoded: Result<Vec<u8>, Base64Failure>) -> (res: Result<Vec<u8>, ErrorCode>)
    ensures
        match decoded {
            Ok(v) => res is Ok && res->Ok_0@ == v@,
            Err(f) => res is Err && internal_error_is(res->Err_0, failure_message(f)),
        },
{
    match decoded {
        Ok(v) => Ok(v),
        Err(Base64Failure::InvalidEncoding) => Err(ErrorCode::InternalError(Some(owned("invalid Base64 encoding")))),
        Err(Base64Failure::InvalidLength) => Err(ErrorCode::InternalError(Some(owned("invalid Base64 length")))),
    }
}

/// Why a `Client-Cert` header value cannot be used, if it cannot: it must be
/// visible ASCII text holding valid Base64.
pub open spec fn cert_failure(raw: Seq<u8>) -> Option<Seq<char>> {
    if !all_visible(raw) {
        Some(to_str_message())
    } else {
        match base64_decode(as_chars(raw)) {
            Ok(_) => None,
            Err(f) => Some(failure_message(f)),
        }
    }
}

/// Decodes the value of a `Client-Cert` header: Base64 text of a PEM
/// certificate and key.
pub fn decode_client_cert(raw: &[u8]) -> (res: Result<Vec<u8>, ErrorCode>)
    ensures
        match cert_failure(raw@) {
            Some(msg) => res is Err && internal_error_is(res->Err_0, msg),
            None => res is Ok && base64_decode(as_chars(raw@)) == Ok::<Seq<u8>, Base64Failure>(res->Ok_0@),
        },
{
    if !visible_ascii(raw) {
        return Err(ErrorCode::InternalError(Some(owned("failed to convert header to a str"))));
    }
    let text = chars_to_string(&to_chars(raw));
    decoded_cert(decode_base64(text.as_str()))
}

/// The headers of an outgoing request once duplicate `Host` headers are
/// resolved and the `Client-Cert` header is taken out.
pub open spec fn prepared_headers(s: Seq<(Seq<char>, Seq<u8>)>) -> Seq<(Seq<char>, Seq<u8>)> {
    without_name(dedupe_host_spec(s), client_cert_name())
}

/// The raw `Client-Cert` value an outgoing request carries: the first, if
/// there are several.
pub open spec fn raw_client_cert(s: Seq<(Seq<char>, Seq<u8>)>) -> Option<Seq<u8>> {
    let certs = values_named(dedupe_host_spec(s), client_cert_name());
    if certs.len() == 0 {
        None
    } else {
        Some(certs[0])
    }
}

/// Prepares an outgoing request's headers: duplicate `Host` headers are
/// resolved, and the `Client-Cert` header, when present, is removed and
/// decoded into the certificate the client presents. Fails when that header
/// is not visible ASCII text or not valid Base64.
pub fn prepare_request(headers: Vec<Header>) -> (res: Result<(Vec<Header>, Option<Vec<u8>>), ErrorCode>)
    ensures
        match raw_client_cert(headers_view(headers@)) {
            None => res is Ok && headers_view(res->Ok_0.0@) == prepared_headers(headers_view(headers@))
                && res->Ok_0.1 is None,
            Some(raw) => match cert_failure(raw) {
                Some(msg) => res is Err && internal_error_is(res->Err_0, msg),
                None => res is Ok && headers_view(res->Ok_0.0@) == prepared_headers(headers_view(headers@))
                    && res->Ok_0.1 is Some
                    && base64_decode(as_chars(raw)) == Ok::<Seq<u8>, Base64Failure>(res->Ok_0.1->Some_0@),
            },
        },
{
    let deduped = dedupe_host(headers);
    let certs = values_of(&deduped, "client-cert");
    let rest = drop_named(&deduped, "client-cert");
    if certs.len() == 0 {
        return Ok((rest, None));
    }
    assert(certs@.map_values(|v: Vec<u8>| v@)[0] == certs@[0]@);
    match decode_client_cert(certs[0].as_slice()) {
        Ok(cert) => Ok((rest, Some(cert))),
        Err(e) => Err(e),
    }
}

// ----------------------------------------------------------------------
// Laws
// ----------------------------------------------------------------------

proof fn lemma_permitted_sound(s: Seq<(Seq<char>, Seq<u8>)>)
    ensures
        forall|i: int| 0 <= i < permitted(s).len() ==> !forbidden_name(lower(#[trigger] permitted(s)[i].0)),
    decreases s.len(),
{
    if s.len() > 0 {
        let t = s.drop_last();
        lemma_permitted_sound(t);
        let r = permitted(t);
        if !forbidden_name(lower(s.last().0)) {
            assert forall|i: int| 0 <= i < permitted(s).len() implies !forbidden_name(
                lower(#[trigger] permitted(s)[i].0),
            ) by {
                if i < r.len() {
                    assert(permitted(s)[i] == r[i]);
                }
            }
        }
    }
}

proof fn lemma_permitted_keeps(s: Seq<(Seq<char>, Seq<u8>)>)
    ensures
        forall|j: int| 0 <= j < s.len() && !forbidden_name(lower(#[trigger] s[j].0)) ==> permitted(s).contains(s[j]),
    decreases s.len(),
{
    if s.len() > 0 {
        let t = s.drop_last();
        lemma_permitted_keeps(t);
        assert forall|j: int| 0 <= j < s.len() && !forbidden_name(lower(#[trigger] s[j].0)) implies permitted(
            s,
        ).contains(s[j]) by {
            if j < s.len() - 1 {
                assert(t[j] == s[j]);
                let k = choose|k: int| 0 <= k < permitted(t).len() && permitted(t)[k] == t[j];
                assert(permitted(s)[k] == s[j]);
            } else {
                assert(permitted(s).last() == s[j]);
            }
        }
    }
}

/// The guest never sees a forbidden response header, and every other
/// response header reaches it.
pub proof fn law_forbidden_headers_withheld(s: Seq<(Seq<char>, Seq<u8>)>)
    ensures
        forall|i: int| 0 <= i < permitted(s).len() ==> !forbidden_name(lower(#[trigger] permitted(s)[i].0)),
        forall|j: int| 0 <= j < s.len() && !forbidden_name(lower(#[trigger] s[j].0)) ==> permitted(s).contains(s[j]),
{
    lemma_permitted_sound(s);
    lemma_permitted_keeps(s);
}

proof fn lemma_values_named_append(a: Seq<(Seq<char>, Seq<u8>)>, b: Seq<(Seq<char>, Seq<u8>)>, lit: Seq<char>)
    ensures
        values_named(a + b, lit) == values_named(a, lit) + values_named(b, lit),
        without_name(a + b, lit) == without_name(a, lit) + without_name(b, lit),
    decreases b.len(),
{
    if b.len() == 0 {
        assert(a + b =~= a);
        assert(values_named(a, lit) + values_named(b, lit) =~= values_named(a, lit));
        assert(without_name(a, lit) + without_name(b, lit) =~= without_name(a, lit));
    } else {
        lemma_values_named_append(a, b.drop_last(), lit);
        assert((a + b).drop_last() =~= a + b.drop_last());
        assert((a + b).last() == b.last());
        assert(values_named(a, lit) + values_named(b.drop_last(), lit).push(b.last().1) =~= (values_named(a, lit)
            + values_named(b.drop_last(), lit)).push(b.last().1));
        assert(without_name(a, lit) + without_name(b.drop_last(), lit).push(b.last()) =~= (without_name(a, lit)
            + without_name(b.drop_last(), lit)).push(b.last()));
    }
}

proof fn lemma_without_name_clears(s: Seq<(Seq<char>, Seq<u8>)>, lit: Seq<char>)
    ensures
        values_named(without_name(s, lit), lit) == Seq::<Seq<u8>>::empty(),
        without_name(without_name(s, lit), lit) == without_name(s, lit),
    decreases s.len(),
{
    if s.len() > 0 {
        lemma_without_name_clears(s.drop_last(), lit);
        let r = without_name(s.drop_last(), lit);
        if !named(s.last(), lit) {
            assert(r.push(s.last()).drop_last() =~= r);
        }
    }
}

proof fn lemma_host_values(vs: Seq<Seq<u8>>)
    ensures
        values_named(vs.map_values(|v: Seq<u8>| (host_name(), v)), host_name()) == vs,
        without_name(vs.map_values(|v: Seq<u8>| (host_name(), v)), host_name()) == Seq::<(Seq<char>, Seq<u8>)>::empty(),
    decreases vs.len(),
{
    reveal_strlit("host");
    assert(lower(host_name()) =~= host_name());
    if vs.len() > 0 {
        lemma_host_values(vs.drop_last());
        assert(vs.map_values(|v: Seq<u8>| (host_name(), v)).drop_last() =~= vs.drop_last().map_values(
            |v: Seq<u8>| (host_name(), v),
        ));
        assert(vs.drop_last().push(vs.last()) =~= vs);
    } else {
        assert(vs.map_values(|v: Seq<u8>| (host_name(), v)) =~= Seq::<(Seq<char>, Seq<u8>)>::empty());
        assert(vs =~= Seq::<Seq<u8>>::empty());
    }
}

/// Resolving duplicate `Host` headers drops exactly the first `Host` value
/// when there are several, keeps a single one, and leaves every other
/// header as it was.
pub proof fn law_dedupe_host(s: Seq<(Seq<char>, Seq<u8>)>)
    ensures
        values_named(dedupe_host_spec(s), host_name()) == (if values_named(s, host_name()).len() > 1 {
            values_named(s, host_name()).drop_first()
        } else {
            values_named(s, host_name())
        }),
        without_name(dedupe_host_spec(s), host_name()) == without_name(s, host_name()),
{
    let hosts = values_named(s, host_name());
    if hosts.len() > 1 {
        let tail = hosts.drop_first().map_values(|v: Seq<u8>| (host_name(), v));
        lemma_values_named_append(without_name(s, host_name()), tail, host_name());
        lemma_without_name_clears(s, host_name());
        lemma_host_values(hosts.drop_first());
        assert(Seq::<Seq<u8>>::empty() + hosts.drop_first() =~= hosts.drop_first());
        assert(without_name(s, host_name()) + Seq::<(Seq<char>, Seq<u8>)>::empty() =~= without_name(
            s,
            host_name(),
        ));
    }
}

/// A prepared request never carries the `Client-Cert` header on to the
/// backend.
pub proof fn law_client_cert_taken_out(s: Seq<(Seq<char>, Seq<u8>)>)
    ensures
        values_named(prepared_headers(s), client_cert_name()) == Seq::<Seq<u8>>::empty(),
{
    lemma_without_name_clears(dedupe_host_spec(s), client_cert_name());
}

/// A response as it is kept in the HTTP cache: its status, its headers as
/// text, and its body.
#[derive(Debug, Clone)]
pub struct Serialized {
    pub status: u16,
    pub headers: Vec<(String, String)>,
    pub body: Vec<u8>,
}

/// The text a header value is cached as: the value itself when it is
/// visible ASCII text, and empty otherwise.
pub open spec fn cached_value(v: Seq<u8>) -> Seq<char> {
    if all_visible(v) {
        as_chars(v)
    } else {
        Seq::empty()
    }
}

impl Serialized {
    /// The cached form of a response with `status`, `headers` and `body`.
    pub fn from_response(status: u16, headers: &Vec<Header>, body: Vec<u8>) -> (res: Serialized)
        ensures
            res.status == status,
            res.body@ == body@,
            res.headers@.len() == headers@.len(),
            forall|i: int|
                0 <= i < headers@.len() ==> (#[trigger] res.headers@[i]).0@ == headers@[i].name@
                    && res.headers@[i].1@ == cached_value(headers@[i].value@),
    {
        let mut out: Vec<(String, String)> = Vec::new();
        let mut i: usize = 0;
        while i < headers.len()
            invariant
                i <= headers.len(),
                out@.len() == i,
                forall|j: int|
                    0 <= j < i ==> (#[trigger] out@[j]).0@ == headers@[j].name@ && out@[j].1@ == cached_value(
                        headers@[j].value@,
                    ),
            decreases headers.len() - i,
        {
            let h = &headers[i];
            let value = if visible_ascii(h.value.as_slice()) {
                chars_to_string(&to_chars(h.value.as_slice()))
            } else {
                String::new()
            };
            out.push((h.name.clone(), value));
            i = i + 1;
        }
        Serialized { status, headers: out, body }
    }
}

/// Whether some header is named `lit`, ignoring ASCII case.
pub fn contains_header(headers: &Vec<Header>, lit: &str) -> (res: bool)
    ensures
        res == (values_named(headers_view(headers@), lit@).len() > 0),
{
    let vs = values_of(headers, lit);
    assert(vs@.map_values(|v: Vec<u8>| v@).len() == vs@.len());
    vs.len() > 0
}

/// The bytes of ASCII text.
pub fn ascii_bytes(s: &str) -> (res: Vec<u8>)
    requires
        forall|i: int| 0 <= i < s@.len() ==> (#[trigger] s@[i] as u32) < 128,
    ensures
        res@ == s@.map_values(|c: char| c as u8),
{
    let n = s.unicode_len();
    let mut out: Vec<u8> = Vec::new();
    let mut i: usize = 0;
    while i < n
        invariant
            n == s@.len(),
            i <= n,
            forall|k: int| 0 <= k < s@.len() ==> (#[trigger] s@[k] as u32) < 128,
            out@ == s@.take(i as int).map_values(|c: char| c as u8),
        decreases n - i,
    {
        let c = s.get_char(i);
        assert((s@[i as int] as u32) < 128);
        let ghost before = out@;
        out.push(c as u8);
        assert(s@.take(i + 1).map_values(|c: char| c as u8) =~= s@.take(i as int).map_values(|c: char| c as u8).push(
            c as u8,
        ));
        i = i + 1;
    }
    assert(s@.take(n as int) =~= s@);
    out
}

/// A cached response keeps each header value that is visible ASCII text
/// exactly as sent, character for byte, so a cache hit replays the same
/// values; any other value is cached as empty text.
pub proof fn law_cached_header_values_unchanged(v: Seq<u8>)
    ensures
        (forall|i: int| 0 <= i < v.len() ==> v[i] == 9 || (32 <= #[trigger] v[i] && v[i] < 127)) ==> {
            &&& cached_value(v).len() == v.len()
            &&& forall|i: int| 0 <= i < v.len() ==> (#[trigger] cached_value(v)[i]) as u32 == v[i] as u32
        },
        (exists|i: int| 0 <= i < v.len() && !(v[i] == 9 || (32 <= #[trigger] v[i] && v[i] < 127))) ==> cached_value(
            v,
        ).len() == 0,
{
}

/// The response headers withheld from the guest are exactly the nine that
/// `wasmtime-wasi-http` forbids, compared without regard to ASCII case:
/// every other header, `content-length` among them, reaches the guest.
pub proof fn law_forbidden_headers_are_the_nine(s: Seq<(Seq<char>, Seq<u8>)>, l: Seq<char>)
    ensures
        forbidden_name(l) <==> set![
            "connection"@,
            "host"@,
            "proxy-authenticate"@,
            "proxy-authorization"@,
            "transfer-encoding"@,
            "upgrade"@,
            "keep-alive"@,
            "proxy-connection"@,
            "http2-settings"@,
        ].contains(l),
        forall|j: int|
            0 <= j < s.len() && !set![
                "connection"@,
                "host"@,
                "proxy-authenticate"@,
                "proxy-authorization"@,
                "transfer-encoding"@,
                "upgrade"@,
                "keep-alive"@,
                "proxy-connection"@,
                "http2-settings"@,
            ].contains(lower(#[trigger] s[j].0)) ==> permitted(s).contains(s[j]),
{
    lemma_permitted_keeps(s);
}

} // verus!
