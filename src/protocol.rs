use vstd::prelude::*;

verus! {

/// One header line; names may repeat and order is kept.
#[derive(Debug, Clone, PartialEq, Eq)]
pub struct HttpHeader {
    pub name: String,
    pub value: String,
}

/// The operation handed to the executor: one outbound request.
#[derive(Debug, Clone, PartialEq, Eq)]
pub struct HttpRequest {
    pub method: String,
    pub url: String,
    pub headers: Vec<HttpHeader>,
    pub body: Vec<u8>,
}

/// A response as the executor reports it.
#[derive(Debug, Clone, PartialEq, Eq)]
pub struct HttpResponse {
    pub status: u16,
    pub headers: Vec<HttpHeader>,
    pub body: Vec<u8>,
}

/// The executor's reply to one operation.
#[derive(Debug, Clone, PartialEq, Eq)]
pub enum HttpResult {
    Response(HttpResponse),
    /// The exchange failed; the message is opaque to the client.
    Failure(String),
}

/// A header as a pair of character sequences.
pub open spec fn header_view(h: HttpHeader) -> (Seq<char>, Seq<char>) {
    (h.name@, h.value@)
}

/// A header list as a sequence of pairs.
pub open spec fn headers_view(hs: Seq<HttpHeader>) -> Seq<(Seq<char>, Seq<char>)> {
    hs.map_values(|h: HttpHeader| header_view(h))
}

/// Builds a header from its name and value.
pub fn header(name: &str, value: &str) -> (r: HttpHeader)
    ensures
        header_view(r) == (name@, value@),
{
    HttpHeader { name: name.to_owned(), value: value.to_owned() }
}

/// Copies a header list, entry by entry.
pub fn clone_headers(hs: &Vec<HttpHeader>) -> (r: Vec<HttpHeader>)
    ensures
        headers_view(r@) == headers_view(hs@),
{
    let mut r: Vec<HttpHeader> = Vec::new();
    let mut i: usize = 0;
    while i < hs.len()
        invariant
            i <= hs@.len(),
            headers_view(r@) == headers_view(hs@.subrange(0, i as int)),
        decreases hs@.len() - i,
    {
        let h = header(hs[i].name.as_str(), hs[i].value.as_str());
        assert(header_view(h) == header_view(hs@[i as int]));
        let ghost before = r@;
        r.push(h);
        assert(headers_view(r@) =~= headers_view(before).push(header_view(h)));
        assert(hs@.subrange(0, i + 1) =~= hs@.subrange(0, i as int).push(hs@[i as int]));
        assert(headers_view(hs@.subrange(0, i + 1)) =~= headers_view(
            hs@.subrange(0, i as int),
        ).push(header_view(hs@[i as int])));
        i += 1;
    }
    assert(hs@.subrange(0, hs@.len() as int) =~= hs@);
    r
}

} // verus!
