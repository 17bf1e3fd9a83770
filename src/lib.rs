//! An HTTP client core whose I/O is done by an outside executor.
//!
//! Requests are described as data, run through an ordered middleware chain and
//! handed to the executor as an [`HttpRequest`]; its reply comes back through the
//! chain, in reverse order, as a typed [`Response`] or an [`Error`].

use vstd::prelude::*;

pub mod address;
pub mod client;
pub mod codec;
pub mod error;
pub mod method;
pub mod middleware;
pub mod protocol;
pub mod request;
pub mod request_builder;
pub mod response;

pub use client::{Client, Delivery, Sent};
pub use error::Error;
pub use method::Method;
pub use middleware::{Forward, Middleware, Step, Visit};
pub use protocol::{HttpHeader, HttpRequest, HttpResponse, HttpResult};
pub use request::{Body, Request};
pub use request_builder::RequestBuilder;
pub use response::Response;

use address::{parse_url, parsed_url};
use request::materialized;

verus! {

/// What a verb constructor owes for `method` and the URL text `url`: a fresh
/// description with that method and the parsed URL where `url` parses, and a
/// URL error holding `url` where it does not.
pub open spec fn built_for(method: Method, url: Seq<char>, r: Result<RequestBuilder, Error>) -> bool {
    match parsed_url(url) {
        Some(u) => r is Ok && r->Ok_0.spec_request().method == method
            && r->Ok_0.spec_request().url@ == u && r->Ok_0.spec_request().headers@.len() == 0
            && r->Ok_0.spec_request().body is None,
        None => r is Err && r->Err_0 is Url && r->Err_0->Url_0@ == url,
    }
}

/// The entry point of the capability: verb constructors for request
/// descriptions, and the client that sends them.
///
/// A malformed URL makes a verb constructor fail at once with
/// [`Error::Url`], before any request exists.
pub struct Http<M> {
    client: Client<M>,
}

impl<M: Middleware> Http<M> {
    pub closed spec fn spec_client(&self) -> Client<M> {
        self.client
    }

    /// A capability whose requests pass through `chain`, first middleware first.
    pub fn new(chain: Vec<M>) -> (h: Http<M>)
        ensures
            h.spec_client().wf(),
            h.spec_client().spec_chain() == chain@,
            h.spec_client().chain_len() == chain@.len(),
            h.spec_client().spec_next_token() == 0,
            h.spec_client().pending_tokens() == Set::<u64>::empty(),
    {
        Http { client: Client::new(chain) }
    }

    /// A request with any method to `url`.
    pub fn request(&self, method: Method, url: &str) -> (r: Result<RequestBuilder, Error>)
        ensures
            built_for(method, url@, r),
    {
        match parse_url(url) {
            Some(u) => Ok(RequestBuilder::new(method, u)),
            None => Err(Error::Url(url.to_owned())),
        }
    }

    /// A GET request to `url`.
    pub fn get(&self, url: &str) -> (r: Result<RequestBuilder, Error>)
        ensures
            built_for(Method::Get, url@, r),
    {
        self.request(Method::Get, url)
    }

    /// A HEAD request to `url`.
    pub fn head(&self, url: &str) -> (r: Result<RequestBuilder, Error>)
        ensures
            built_for(Method::Head, url@, r),
    {
        self.request(Method::Head, url)
    }

    /// A POST request to `url`.
    pub fn post(&self, url: &str) -> (r: Result<RequestBuilder, Error>)
        ensures
            built_for(Method::Post, url@, r),
    {
        self.request(Method::Post, url)
    }

    /// A PUT request to `url`.
    pub fn put(&self, url: &str) -> (r: Result<RequestBuilder, Error>)
        ensures
            built_for(Method::Put, url@, r),
    {
        self.request(Method::Put, url)
    }

    /// A DELETE request to `url`.
    pub fn delete(&self, url: &str) -> (r: Result<RequestBuilder, Error>)
        ensures
            built_for(Method::Delete, url@, r),
    {
        self.request(Method::Delete, url)
    }

    /// A CONNECT request to `url`.
    pub fn connect(&self, url: &str) -> (r: Result<RequestBuilder, Error>)
        ensures
            built_for(Method::Connect, url@, r),
    {
        self.request(Method::Connect, url)
    }

    /// An OPTIONS request to `url`.
    pub fn options(&self, url: &str) -> (r: Result<RequestBuilder, Error>)
        ensures
            built_for(Method::Options, url@, r),
    {
        self.request(Method::Options, url)
    }

    /// A TRACE request to `url`.
    pub fn trace(&self, url: &str) -> (r: Result<RequestBuilder, Error>)
        ensures
            built_for(Method::Trace, url@, r),
    {
        self.request(Method::Trace, url)
    }

    /// A PATCH request to `url`.
    pub fn patch(&self, url: &str) -> (r: Result<RequestBuilder, Error>)
        ensures
            built_for(Method::Patch, url@, r),
    {
        self.request(Method::Patch, url)
    }

    /// Whether another request can be dispatched: the token counter has room.
    pub fn can_send(&self) -> (r: bool)
        requires
            self.spec_client().wf(),
        ensures
            r == (self.spec_client().spec_next_token() < u64::MAX),
    {
        self.client.has_room()
    }

    /// Whether a reply under `token` is still awaited.
    pub fn is_pending(&self, token: u64) -> (r: bool)
        ensures
            r == self.spec_client().pending_tokens().contains(token),
    {
        self.client.is_pending(token)
    }

    /// Sends a finished request through the chain; see [`Client::send`].
    pub fn send_(&mut self, req: Request) -> (r: Sent)
        requires
            old(self).spec_client().wf(),
            old(self).spec_client().spec_next_token() < u64::MAX,
        ensures
            final(self).spec_client().wf(),
            final(self).spec_client().chain_len() == old(self).spec_client().chain_len(),
            Client::<M>::sent_as(old(self).spec_client(), final(self).spec_client(), req, r),
    {
        self.client.send(req)
    }

    /// Hands back the executor's reply for `token`; see [`Client::resolve`].
    pub fn resolve(&mut self, token: u64, reply: HttpResult) -> (r: Option<Delivery>)
        requires
            old(self).spec_client().wf(),
        ensures
            final(self).spec_client().wf(),
            Client::<M>::resolved_as(old(self).spec_client(), final(self).spec_client(), token, reply, r),
    {
        self.client.resolve(token, reply)
    }
}

/// A verb constructor given a URL that parses yields a description whose
/// operation carries exactly that method and the parsed URL.
pub proof fn lemma_verb_operation(method: Method, url: Seq<char>, r: Result<RequestBuilder, Error>)
    requires
        built_for(method, url, r),
        parsed_url(url) is Some,
    ensures
        r is Ok,
        materialized(r->Ok_0.spec_request()).0 == method::method_name(method),
        materialized(r->Ok_0.spec_request()).1 == parsed_url(url)->0,
{
}

/// A verb constructor given a URL that does not parse fails with a URL error,
/// so there is no description and nothing to dispatch.
pub proof fn lemma_malformed_url(method: Method, url: Seq<char>, r: Result<RequestBuilder, Error>)
    requires
        built_for(method, url, r),
        parsed_url(url) is None,
    ensures
        r is Err,
        r->Err_0 is Url,
{
}

} // verus!
