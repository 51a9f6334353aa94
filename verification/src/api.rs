//! The request API: a client that holds the owning tenant and the provider,
//! and a type-state builder that routes a request to its handler once the
//! owner, the provider and the request are all set.

use std::fmt::Debug;
use std::sync::Arc;
use vstd::prelude::*;

use crate::error::{owned, Error};
use crate::http::{ascii_bytes, contains_header, headers_view, values_named, Header};

verus! {

#[verifier::external_type_specification]
#[verifier::external_body]
#[verifier::reject_recursive_types(T)]
pub struct ExHeaderMap<T>(http::HeaderMap<T>);

/// Whether a header map holds no headers.
pub uninterp spec fn headers_empty(headers: http::HeaderMap<String>) -> bool;

/// `HeaderMap::default()`: a header map with no headers.
#[verifier::external_body]
fn empty_headers() -> (res: http::HeaderMap<String>)
    ensures
        headers_empty(res),
{
    http::HeaderMap::default()
}

/// Types that can provide the capabilities a request handler uses.
pub trait Provider: Send + Sync {}

impl<T: Send + Sync> Provider for T {}

/// Types that can be request and reply bodies.
pub trait Body: Debug + Send + Sync {}

impl<T: Debug + Send + Sync> Body for T {}

/// Implemented by reply bodies to convert themselves into HTTP body bytes.
pub trait IntoBody: Body {
    /// Convert implementing type into an http-compatible body; fails when
    /// the body cannot be encoded.
    fn into_body(self) -> Result<Vec<u8>, Error>;
}

/// Marker type indicating no owner has been set yet.
#[derive(Debug)]
pub struct NoOwner;

/// Marker type indicating the owner has been set.
#[derive(Debug)]
pub struct OwnerSet(pub String);

/// Marker type indicating no provider has been set yet.
#[derive(Debug)]
pub struct NoProvider;

/// Marker type indicating the provider has been set.
#[derive(Debug)]
pub struct ProviderSet<P: Provider>(pub Arc<P>);

/// Marker type indicating no request has been set yet.
#[derive(Debug)]
pub struct NoRequest;

/// Build an API client to execute requests: it holds the owning tenant and
/// the provider used while handling requests.
#[derive(Debug)]
pub struct Client<P> {
    owner: String,
    provider: Arc<P>,
}

impl<P> Client<P> {
    pub closed spec fn owner_view(&self) -> Seq<char> {
        self.owner@
    }

    pub closed spec fn provider_view(&self) -> P {
        *self.provider
    }

    /// The owning tenant/namespace.
    pub fn owner(&self) -> (res: &str)
        ensures
            res@ == self.owner_view(),
    {
        self.owner.as_str()
    }

    /// The provider used while handling requests.
    pub fn provider_ref(&self) -> (res: &P)
        ensures
            *res == self.provider_view(),
    {
        &*self.provider
    }
}

impl Client<NoProvider> {
    /// Start building a new `Client` by setting the owner.
    pub fn new(owner: String) -> (res: Client<NoProvider>)
        ensures
            res.owner_view() == owner@,
    {
        Client { owner, provider: Arc::new(NoProvider) }
    }

    /// Finish building the client by providing the provider implementation.
    pub fn provider<Q: Provider>(self, provider: Q) -> (res: Client<Q>)
        ensures
            res.owner_view() == self.owner_view(),
            res.provider_view() == provider,
    {
        Client { owner: self.owner, provider: Arc::new(provider) }
    }
}

/// Request-scoped context passed to handlers: the owner, the provider and
/// the request headers.
#[derive(Debug, Clone, Copy)]
pub struct Context<'a, P: Provider> {
    /// The owning tenant / namespace for the request.
    pub owner: &'a str,
    /// The provider implementation used to fulfill the request.
    pub provider: &'a P,
    /// Request headers (typed).
    pub headers: &'a http::HeaderMap<String>,
}

/// Request router: routes a request to its handler with the owner,
/// provider and headers set. The type parameters record which of the
/// request, owner and provider have been set.
#[derive(Debug)]
pub struct RequestHandler<R, O, P> {
    request: R,
    headers: http::HeaderMap<String>,
    owner: O,
    provider: P,
}

impl<R, O, P> RequestHandler<R, O, P> {
    pub closed spec fn request_view(&self) -> R {
        self.request
    }

    pub closed spec fn headers_view(&self) -> http::HeaderMap<String> {
        self.headers
    }

    pub closed spec fn owner_view(&self) -> O {
        self.owner
    }

    pub closed spec fn provider_view(&self) -> P {
        self.provider
    }

    /// Set request headers.
    pub fn headers(self, headers: http::HeaderMap<String>) -> (res: Self)
        ensures
            res.request_view() == self.request_view(),
            res.headers_view() == headers,
            res.owner_view() == self.owner_view(),
            res.provider_view() == self.provider_view(),
    {
        RequestHandler { request: self.request, headers, owner: self.owner, provider: self.provider }
    }

    /// The request that will be handled.
    pub fn request_ref(&self) -> (res: &R)
        ensures
            *res == self.request_view(),
    {
        &self.request
    }
}

impl RequestHandler<NoRequest, NoOwner, NoProvider> {
    /// Create a new (default) `RequestHandler`: no request, owner or
    /// provider, and no headers.
    pub fn new() -> (res: Self)
        ensures
            headers_empty(res.headers_view()),
    {
        RequestHandler { request: NoRequest, headers: empty_headers(), owner: NoOwner, provider: NoProvider }
    }
}

impl<R, O> RequestHandler<R, O, NoProvider> {
    /// Set the provider (transitions typestate).
    pub fn provider<Q: Provider>(self, provider: Q) -> (res: RequestHandler<R, O, ProviderSet<Q>>)
        ensures
            res.request_view() == self.request_view(),
            res.headers_view() == self.headers_view(),
            res.owner_view() == self.owner_view(),
            *res.provider_view().0 == provider,
    {
        RequestHandler {
            request: self.request,
            headers: self.headers,
            owner: self.owner,
            provider: ProviderSet(Arc::new(provider)),
        }
    }
}

impl<O, P> RequestHandler<NoRequest, O, P> {
    /// Set the request (transitions typestate).
    pub fn request<Rq>(self, request: Rq) -> (res: RequestHandler<Rq, O, P>)
        ensures
            res.request_view() == request,
            res.headers_view() == self.headers_view(),
            res.owner_view() == self.owner_view(),
            res.provider_view() == self.provider_view(),
    {
        RequestHandler { request, headers: self.headers, owner: self.owner, provider: self.provider }
    }
}

impl<R, P> RequestHandler<R, NoOwner, P> {
    /// Set the owner (transitions typestate).
    pub fn owner(self, owner: String) -> (res: RequestHandler<R, OwnerSet, P>)
        ensures
            res.request_view() == self.request_view(),
            res.headers_view() == self.headers_view(),
            res.owner_view().0@ == owner@,
            res.provider_view() == self.provider_view(),
    {
        RequestHandler {
            request: self.request,
            headers: self.headers,
            owner: OwnerSet(owner),
            provider: self.provider,
        }
    }
}

impl<R, P: Provider> RequestHandler<R, OwnerSet, ProviderSet<P>> {
    /// The context a handler runs with: the owner, the provider and the
    /// headers that were set.
    pub fn context(&self) -> (res: Context<'_, P>)
        ensures
            res.owner@ == self.owner_view().0@,
            *res.provider == *self.provider_view().0,
            *res.headers == self.headers_view(),
    {
        Context { owner: self.owner.0.as_str(), provider: &*self.provider.0, headers: &self.headers }
    }
}

impl<P: Provider> Client<P> {
    /// A request handler for `request`, with this client's owner and
    /// provider and no headers.
    pub fn request<Rq>(&self, request: Rq) -> (res: RequestHandler<Rq, OwnerSet, ProviderSet<P>>)
        ensures
            res.request_view() == request,
            headers_empty(res.headers_view()),
            res.owner_view().0@ == self.owner_view(),
            *res.provider_view().0 == self.provider_view(),
    {
        RequestHandler {
            request,
            headers: empty_headers(),
            owner: OwnerSet(self.owner.clone()),
            provider: ProviderSet(self.provider.clone()),
        }
    }
}

/// The response a reply becomes.
#[derive(Debug, Clone)]
pub enum ReplyResponse {
    /// The reply with its encoded body.
    Encoded { status: u16, headers: Vec<Header>, body: Vec<u8> },
    /// The body could not be encoded: the response is a server error
    /// (status 500) with this message.
    EncodingFailed { message: String },
}

/// The content type a reply is given when it names none.
pub open spec fn default_content_type() -> (Seq<char>, Seq<u8>) {
    ("content-type"@, "text/plain; charset=utf-8"@.map_values(|c: char| c as u8))
}

/// The response for a reply with `status` and `headers` whose body encoded
/// to `body`: the encoded body, with a plain-text content type added when
/// the reply names no content type; or, when the body could not be encoded,
/// a server error saying why.
pub fn reply_response(status: u16, headers: Vec<Header>, body: Result<Vec<u8>, String>) -> (res: ReplyResponse)
    ensures
        match body {
            Err(e) => res matches ReplyResponse::EncodingFailed { message } && message@ == "body encoding error: "@
                + e@,
            Ok(b) => res matches ReplyResponse::Encoded { status: s, headers: hs, body: out } && s == status && out@
                == b@ && headers_view(hs@) == (if values_named(headers_view(headers@), "content-type"@).len() > 0 {
                headers_view(headers@)
            } else {
                headers_view(headers@).push(default_content_type())
            }),
        },
{
    match body {
        Err(e) => {
            let mut message = owned("body encoding error: ");
            message.append(e.as_str());
            ReplyResponse::EncodingFailed { message }
        },
        Ok(b) => {
            let mut hs = headers;
            if !contains_header(&hs, "content-type") {
                proof {
                    reveal_strlit("text/plain; charset=utf-8");
                }
                let value = ascii_bytes("text/plain; charset=utf-8");
                let ghost before = hs@;
                hs.push(Header { name: owned("content-type"), value });
                assert(headers_view(hs@) =~= headers_view(before).push(default_content_type()));
            }
            ReplyResponse::Encoded { status, headers: hs, body: b }
        },
    }
}

} // verus!
