use vstd::prelude::*;
use vstd::utf8::*;

use crate::codec::{copy_bytes, decode_text, is_text_decode_error};
use crate::error::Error;
use crate::protocol::{clone_headers, headers_view, HttpHeader, HttpResponse};

verus! {

/// Two characters that are equal up to ASCII case.
pub open spec fn chars_match(a: char, b: char) -> bool {
    a == b || ('A' <= a <= 'Z' && b as u32 == a as u32 + 32) || ('A' <= b <= 'Z' && a as u32
        == b as u32 + 32)
}

/// Two header names that are equal up to ASCII case, as HTTP compares them.
pub open spec fn names_match(a: Seq<char>, b: Seq<char>) -> bool {
    a.len() == b.len() && forall|i: int| 0 <= i < a.len() ==> chars_match(a[i], b[i])
}

fn char_matches(a: char, b: char) -> (r: bool)
    ensures
        r == chars_match(a, b),
{
    let x = a as u32;
    let y = b as u32;
    x == y || (65 <= x && x <= 90 && y == x + 32) || (65 <= y && y <= 90 && x == y + 32)
}

/// Compares two header names up to ASCII case.
pub fn name_matches(a: &str, b: &str) -> (r: bool)
    ensures
        r == names_match(a@, b@),
{
    let n = a.unicode_len();
    if n != b.unicode_len() {
        return false;
    }
    let mut i: usize = 0;
    while i < n
        invariant
            n == a@.len() == b@.len(),
            i <= n,
            forall|j: int| 0 <= j < i ==> chars_match(a@[j], b@[j]),
        decreases n - i,
    {
        if !char_matches(a.get_char(i), b.get_char(i)) {
            return false;
        }
        i += 1;
    }
    true
}

/// A response delivered to the caller: status, headers and the raw body, which
/// decoding only reads.
#[derive(Debug)]
pub struct Response {
    status: u16,
    headers: Vec<HttpHeader>,
    body: Vec<u8>,
}

impl Response {
    pub closed spec fn spec_status(&self) -> u16 {
        self.status
    }

    pub closed spec fn spec_headers(&self) -> Seq<(Seq<char>, Seq<char>)> {
        headers_view(self.headers@)
    }

    pub closed spec fn spec_body(&self) -> Seq<u8> {
        self.body@
    }

    /// The response that takes over exactly what the executor reported.
    pub closed spec fn spec_from_http(r: HttpResponse) -> Response {
        Response { status: r.status, headers: r.headers, body: r.body }
    }

    /// The response made of what the executor reported has exactly its
    /// status, headers and body.
    pub proof fn lemma_from_http_fields(r: HttpResponse)
        ensures
            Response::spec_from_http(r).spec_status() == r.status,
            Response::spec_from_http(r).spec_headers() == headers_view(r.headers@),
            Response::spec_from_http(r).spec_body() == r.body@,
    {
    }

    /// Takes over what the executor reported.
    pub fn from_http(r: HttpResponse) -> (res: Response)
        ensures
            res == Response::spec_from_http(r),
            res.spec_status() == r.status,
            res.spec_headers() == headers_view(r.headers@),
            res.spec_body() == r.body@,
    {
        Response { status: r.status, headers: r.headers, body: r.body }
    }

    /// Builds a response directly, as a middleware that answers by itself does.
    pub fn new(status: u16, headers: Vec<HttpHeader>, body: Vec<u8>) -> (res: Response)
        ensures
            res.spec_status() == status,
            res.spec_headers() == headers_view(headers@),
            res.spec_body() == body@,
    {
        Response { status, headers, body }
    }

    /// The status code.
    pub fn status(&self) -> (r: u16)
        ensures
            r == self.spec_status(),
    {
        self.status
    }

    /// A copy of the headers, in order.
    pub fn headers(&self) -> (r: Vec<HttpHeader>)
        ensures
            headers_view(r@) == self.spec_headers(),
    {
        clone_headers(&self.headers)
    }

    /// The value of the first header whose name is `name` up to ASCII case.
    pub fn header(&self, name: &str) -> (r: Option<String>)
        ensures
            match r {
                Some(v) => exists|i: int|
                    0 <= i < self.spec_headers().len() && names_match(
                        self.spec_headers()[i].0,
                        name@,
                    ) && self.spec_headers()[i].1 == v@ && forall|j: int|
                        0 <= j < i ==> !names_match(self.spec_headers()[j].0, name@),
                None => forall|j: int|
                    0 <= j < self.spec_headers().len() ==> !names_match(
                        self.spec_headers()[j].0,
                        name@,
                    ),
            },
    {
        let mut i: usize = 0;
        while i < self.headers.len()
            invariant
                i <= self.headers@.len(),
                forall|j: int| 0 <= j < i ==> !names_match(self.spec_headers()[j].0, name@),
            decreases self.headers@.len() - i,
        {
            if name_matches(self.headers[i].name.as_str(), name) {
                let v = self.headers[i].value.clone();
                assert(self.spec_headers()[i as int].1 == v@);
                return Some(v);
            }
            i += 1;
        }
        None
    }

    /// The declared content type: the value of the first `content-type`
    /// header, its name compared up to ASCII case.
    pub fn content_type(&self) -> (r: Option<String>)
        ensures
            match r {
                Some(v) => exists|i: int|
                    0 <= i < self.spec_headers().len() && names_match(
                        self.spec_headers()[i].0,
                        "content-type"@,
                    ) && self.spec_headers()[i].1 == v@ && forall|j: int|
                        0 <= j < i ==> !names_match(self.spec_headers()[j].0, "content-type"@),
                None => forall|j: int|
                    0 <= j < self.spec_headers().len() ==> !names_match(
                        self.spec_headers()[j].0,
                        "content-type"@,
                    ),
            },
    {
        self.header("content-type")
    }

    /// A copy of the raw body.
    pub fn body_bytes(&self) -> (r: Vec<u8>)
        ensures
            r@ == self.spec_body(),
    {
        copy_bytes(&self.body)
    }

    /// Decodes the body as UTF-8 text; the body itself stays as it was.
    pub fn body_string(&self) -> (r: Result<String, Error>)
        ensures
            match r {
                Ok(s) => valid_utf8(self.spec_body()) && s@ == decode_utf8(self.spec_body()),
                Err(e) => !valid_utf8(self.spec_body()) && is_text_decode_error(
                    e,
                    self.spec_body().len(),
                ),
            },
    {
        decode_text(&self.body)
    }
}

} // verus!
