use vstd::prelude::*;
use vstd::utf8::*;

use crate::client::{Client, Sent};
use crate::middleware::Middleware;
use crate::Http;
use crate::address::{append_query_pair, parse_url, query_fits, url_with_query_pair};
use crate::codec::encode_text;
use crate::method::Method;
use crate::protocol::headers_view;
use crate::request::{content_type_name, materialized, Body, Request};
use crate::codec::lemma_text_round_trip;

verus! {

/// Whether `req` carries a body of exactly these bytes and this content type.
pub open spec fn has_body(req: Request, bytes: Seq<u8>, content_type: Seq<char>) -> bool {
    req.body is Some && req.body->0.bytes@ == bytes && req.body->0.content_type@ == content_type
}

/// Whether `after` is `before` with only its body replaced.
pub open spec fn same_but_body(after: Request, before: Request) -> bool {
    after.method == before.method && after.url == before.url && after.headers == before.headers
}

/// Whether `after` is `before` with `key=value` appended to its URL's query, the
/// URL left as it was where it does not parse.
pub open spec fn query_result(before: Request, key: Seq<char>, value: Seq<char>, after: Request) -> bool {
    &&& after.method == before.method
    &&& after.headers == before.headers
    &&& after.body == before.body
    &&& after.url@ == match url_with_query_pair(before.url@, key, value) {
        Some(u) => u,
        None => before.url@,
    }
}

/// A request being described, one chained call at a time.
#[derive(Debug)]
pub struct RequestBuilder {
    req: Request,
}

impl RequestBuilder {
    /// The request described so far.
    pub closed spec fn spec_request(&self) -> Request {
        self.req
    }

    /// A description with the given method and URL and nothing else.
    pub fn new(method: Method, url: String) -> (b: RequestBuilder)
        ensures
            b.spec_request().method == method,
            b.spec_request().url@ == url@,
            b.spec_request().headers@.len() == 0,
            b.spec_request().body is None,
    {
        RequestBuilder { req: Request::new(method, url) }
    }

    /// Adds a header after those already set.
    pub fn header(self, name: &str, value: &str) -> (b: RequestBuilder)
        ensures
            b.spec_request().method == self.spec_request().method,
            b.spec_request().url == self.spec_request().url,
            b.spec_request().body == self.spec_request().body,
            headers_view(b.spec_request().headers@) == headers_view(
                self.spec_request().headers@,
            ).push((name@, value@)),
    {
        let mut req = self.req;
        req.append_header(name, value);
        RequestBuilder { req }
    }

    /// Whether `key=value` can be appended to the URL's query string.
    pub fn can_query(&self, key: &str, value: &str) -> (r: bool)
        ensures
            r == query_fits(self.spec_request().url@, key@.len(), value@.len()),
    {
        let parsed = match parse_url(self.req.url.as_str()) {
            Some(p) => p,
            None => {
                return true;
            },
        };
        let u = parsed.as_str().unicode_len();
        let k = key.unicode_len();
        let v = value.unicode_len();
        if u > 0x4000_0000 || k > 0x4000_0000 || v > 0x4000_0000 {
            return false;
        }
        let total: u64 = 4 * (u as u64) + 12 * ((k as u64) + (v as u64)) + 2;
        total <= 0xFFFF_FFFF
    }

    /// Appends `key=value` to the URL's query string where it fits (see
    /// [`RequestBuilder::can_query`]); otherwise hands the description back
    /// unchanged as the error.
    pub fn try_query(self, key: &str, value: &str) -> (r: Result<RequestBuilder, RequestBuilder>)
        ensures
            query_fits(self.spec_request().url@, key@.len(), value@.len()) ==> r is Ok && query_result(
                self.spec_request(),
                key@,
                value@,
                r->Ok_0.spec_request(),
            ),
            !query_fits(self.spec_request().url@, key@.len(), value@.len()) ==> r is Err
                && r->Err_0 == self,
    {
        if self.can_query(key, value) {
            Ok(self.query(key, value))
        } else {
            Err(self)
        }
    }

    /// Appends `key=value` to the URL's query string.
    pub fn query(self, key: &str, value: &str) -> (b: RequestBuilder)
        requires
            query_fits(self.spec_request().url@, key@.len(), value@.len()),
        ensures
            query_result(self.spec_request(), key@, value@, b.spec_request()),
    {
        let mut req = self.req;
        match append_query_pair(req.url.as_str(), key, value) {
            Some(u) => {
                req.url = u;
            },
            None => {},
        }
        RequestBuilder { req }
    }

    fn with_body(self, bytes: Vec<u8>, content_type: &str) -> (b: RequestBuilder)
        ensures
            same_but_body(b.spec_request(), self.spec_request()),
            has_body(b.spec_request(), bytes@, content_type@),
    {
        let mut req = self.req;
        req.body = Some(Body { bytes, content_type: content_type.to_owned() });
        RequestBuilder { req }
    }

    /// Sets raw bytes as the body, replacing any earlier body.
    pub fn body_bytes(self, bytes: Vec<u8>) -> (b: RequestBuilder)
        ensures
            same_but_body(b.spec_request(), self.spec_request()),
            has_body(b.spec_request(), bytes@, "application/octet-stream"@),
    {
        self.with_body(bytes, "application/octet-stream")
    }

    /// Sets text, encoded as UTF-8, as the body, replacing any earlier body.
    pub fn body_string(self, text: &str) -> (b: RequestBuilder)
        ensures
            same_but_body(b.spec_request(), self.spec_request()),
            has_body(b.spec_request(), encode_utf8(text@), "text/plain;charset=utf-8"@),
    {
        let bytes = encode_text(text);
        self.with_body(bytes, "text/plain;charset=utf-8")
    }

    /// Sets a serialized JSON document as the body, replacing any earlier body.
    pub fn body_json(self, json: &str) -> (b: RequestBuilder)
        ensures
            same_but_body(b.spec_request(), self.spec_request()),
            has_body(b.spec_request(), encode_utf8(json@), "application/json"@),
    {
        let bytes = encode_text(json);
        self.with_body(bytes, "application/json")
    }

    /// Sends the finished request through `http`'s chain.
    pub fn send<M: Middleware>(self, http: &mut Http<M>) -> (r: Sent)
        requires
            old(http).spec_client().wf(),
            old(http).spec_client().spec_next_token() < u64::MAX,
        ensures
            final(http).spec_client().wf(),
            Client::<M>::sent_as(
                old(http).spec_client(),
                final(http).spec_client(),
                self.spec_request(),
                r,
            ),
    {
        http.send_(self.req)
    }

    /// The finished request.
    pub fn build(self) -> (r: Request)
        ensures
            r == self.spec_request(),
    {
        self.req
    }
}

/// A description with a JSON body yields an operation whose last header
/// declares `application/json` and whose body bytes decode back to the JSON
/// text.
pub proof fn lemma_json_operation(req: Request, json: Seq<char>)
    requires
        has_body(req, encode_utf8(json), "application/json"@),
    ensures
        materialized(req).2.last() == (content_type_name(), "application/json"@),
        materialized(req).3 == encode_utf8(json),
        valid_utf8(materialized(req).3),
        decode_utf8(materialized(req).3) == json,
{
    lemma_text_round_trip(json);
}

} // verus!
