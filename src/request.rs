use vstd::prelude::*;

use crate::codec::copy_bytes;
use crate::method::{method_name, Method};
use crate::protocol::{clone_headers, header, headers_view, HttpHeader, HttpRequest};

verus! {

/// An encoded body with the content type its encoder declared.
#[derive(Debug)]
pub struct Body {
    pub bytes: Vec<u8>,
    pub content_type: String,
}

/// A request as the middleware chain sees it.
#[derive(Debug)]
pub struct Request {
    pub method: Method,
    pub url: String,
    pub headers: Vec<HttpHeader>,
    pub body: Option<Body>,
}

/// An operation as plain values: method token, URL, headers and body bytes.
pub type OperationView = (Seq<char>, Seq<char>, Seq<(Seq<char>, Seq<char>)>, Seq<u8>);

/// The view of an operation handed to the executor.
pub open spec fn operation_view(op: HttpRequest) -> OperationView {
    (op.method@, op.url@, headers_view(op.headers@), op.body@)
}

/// The name of the header that carries a body's content type.
pub open spec fn content_type_name() -> Seq<char> {
    "content-type"@
}

/// The operation a request stands for: its headers, then a content type header
/// where it has a body.
pub open spec fn materialized(req: Request) -> OperationView {
    match req.body {
        Some(b) => (
            method_name(req.method),
            req.url@,
            headers_view(req.headers@).push((content_type_name(), b.content_type@)),
            b.bytes@,
        ),
        None => (method_name(req.method), req.url@, headers_view(req.headers@), Seq::empty()),
    }
}

impl Request {
    /// A request with no headers and no body.
    pub fn new(method: Method, url: String) -> (r: Request)
        ensures
            r.method == method,
            r.url@ == url@,
            r.headers@.len() == 0,
            r.body is None,
    {
        Request { method, url, headers: Vec::new(), body: None }
    }

    /// Appends a header; earlier ones with the same name stay.
    pub fn append_header(&mut self, name: &str, value: &str)
        ensures
            final(self).method == old(self).method,
            final(self).url == old(self).url,
            final(self).body == old(self).body,
            headers_view(final(self).headers@) == headers_view(old(self).headers@).push(
                (name@, value@),
            ),
    {
        let h = header(name, value);
        let ghost before = self.headers@;
        self.headers.push(h);
        assert(headers_view(self.headers@) =~= headers_view(before).push((name@, value@)));
    }

    /// The operation to hand to the executor; the request is left as it was.
    pub fn to_operation(&self) -> (op: HttpRequest)
        ensures
            operation_view(op) == materialized(*self),
    {
        let mut headers = clone_headers(&self.headers);
        let body = match &self.body {
            Some(b) => {
                let ghost before = headers@;
                headers.push(header("content-type", b.content_type.as_str()));
                assert(headers_view(headers@) =~= headers_view(before).push(
                    (content_type_name(), b.content_type@),
                ));
                copy_bytes(&b.bytes)
            },
            None => Vec::new(),
        };
        let op = HttpRequest {
            method: self.method.as_str().to_owned(),
            url: self.url.clone(),
            headers,
            body,
        };
        assert(operation_view(op) =~= materialized(*self));
        op
    }
}

} // verus!
