use std::cell::RefCell;
use std::rc::Rc;

use crux_http::{
    Error, Forward, Http, HttpHeader, HttpResponse, HttpResult, Method, Middleware, Request, Response,
    Sent, Step, Visit,
};

/// Records every call into a shared journal and passes everything on.
struct Recorder {
    name: &'static str,
    journal: Rc<RefCell<Vec<String>>>,
}

impl Middleware for Recorder {
    fn spec_on_request(&self, req: Request) -> Step {
        Step::Next(req)
    }

    fn spec_on_response(&self, res: Result<Response, Error>) -> Result<Response, Error> {
        res
    }

    fn handle_request(&self, req: Request) -> Step {
        self.journal.borrow_mut().push(format!(
            "{} in {} {}",
            self.name,
            req.method.as_str(),
            req.url
        ));
        Step::Next(req)
    }

    fn handle_response(&self, res: Result<Response, Error>) -> Result<Response, Error> {
        self.journal.borrow_mut().push(format!("{} out", self.name));
        res
    }
}

/// Either records and passes on, or answers by itself with status 304.
enum Stage {
    Pass(Recorder),
    Answer(Recorder),
}

impl Middleware for Stage {
    fn spec_on_request(&self, req: Request) -> Step {
        self.handle_request(req)
    }

    fn spec_on_response(&self, res: Result<Response, Error>) -> Result<Response, Error> {
        res
    }

    fn handle_request(&self, req: Request) -> Step {
        match self {
            Stage::Pass(r) => r.handle_request(req),
            Stage::Answer(r) => {
                r.journal.borrow_mut().push(format!("{} answers", r.name));
                Step::Respond(Ok(Response::new(304, Vec::new(), b"cached".to_vec())))
            }
        }
    }

    fn handle_response(&self, res: Result<Response, Error>) -> Result<Response, Error> {
        match self {
            Stage::Pass(r) | Stage::Answer(r) => r.handle_response(res),
        }
    }
}

fn recorder(name: &'static str, journal: &Rc<RefCell<Vec<String>>>) -> Recorder {
    Recorder { name, journal: journal.clone() }
}

fn ok_reply(status: u16, body: &[u8]) -> HttpResult {
    HttpResult::Response(HttpResponse { status, headers: Vec::new(), body: body.to_vec() })
}

fn dispatched(sent: Sent) -> (u64, crux_http::HttpRequest, Vec<Visit>) {
    match sent {
        Sent::Dispatched { token, operation, log } => (token, operation, log),
        Sent::Answered { .. } => panic!("expected a dispatched request"),
    }
}

#[test]
fn get_through_empty_chain_delivers_response() {
    let mut http: Http<Recorder> = Http::new(Vec::new());
    let builder = http.get("https://example.com/a").unwrap();
    let (token, op, log) = dispatched(builder.send(&mut http));
    assert_eq!(op.method, "GET");
    assert_eq!(op.url, "https://example.com/a");
    assert!(op.headers.is_empty());
    assert!(op.body.is_empty());
    assert!(log.is_empty());
    let delivery = http.resolve(token, ok_reply(200, b"hi")).unwrap();
    let response = delivery.result.unwrap();
    assert_eq!(response.status(), 200);
    assert_eq!(response.body_bytes(), b"hi".to_vec());
    assert_eq!(response.body_string().unwrap(), "hi");
}

#[test]
fn post_json_through_logging_middleware() {
    let journal = Rc::new(RefCell::new(Vec::new()));
    let mut http = Http::new(vec![recorder("log", &journal)]);
    let builder = http.post("https://example.com/items").unwrap().body_json("{\"x\":1}");
    let (_, op, _) = dispatched(builder.send(&mut http));
    assert_eq!(op.method, "POST");
    assert_eq!(op.url, "https://example.com/items");
    assert_eq!(String::from_utf8(op.body.clone()).unwrap(), "{\"x\":1}");
    assert!(op
        .headers
        .iter()
        .any(|h| h.name == "content-type" && h.value == "application/json"));
    assert_eq!(journal.borrow().clone(), vec!["log in POST https://example.com/items".to_string()]);
}

#[test]
fn transport_failure_reaches_caller() {
    let mut http: Http<Recorder> = Http::new(Vec::new());
    let (token, _, _) = dispatched(http.get("https://example.com/a").unwrap().send(&mut http));
    let delivery = http.resolve(token, HttpResult::Failure("connection refused".into())).unwrap();
    match delivery.result {
        Err(Error::Transport(m)) => assert_eq!(m, "connection refused"),
        other => panic!("unexpected {:?}", other.map(|r| r.status())),
    }
}

#[test]
fn verb_constructors_set_method_and_url() {
    let mut http: Http<Recorder> = Http::new(Vec::new());
    let cases = [
        (http.get("https://example.com/x"), "GET"),
        (http.head("https://example.com/x"), "HEAD"),
        (http.post("https://example.com/x"), "POST"),
        (http.put("https://example.com/x"), "PUT"),
        (http.delete("https://example.com/x"), "DELETE"),
        (http.connect("https://example.com/x"), "CONNECT"),
        (http.options("https://example.com/x"), "OPTIONS"),
        (http.trace("https://example.com/x"), "TRACE"),
        (http.patch("https://example.com/x"), "PATCH"),
        (http.request(Method::Patch, "https://example.com/x"), "PATCH"),
    ];
    for (builder, method) in cases {
        let (_, op, _) = dispatched(builder.unwrap().send(&mut http));
        assert_eq!(op.method, method);
        assert_eq!(op.url, "https://example.com/x");
    }
}

#[test]
fn url_is_normalised_by_the_parser() {
    let http: Http<Recorder> = Http::new(Vec::new());
    let req = http.get("HTTPS://Example.COM").unwrap().build();
    assert_eq!(req.url, "https://example.com/");
}

#[test]
fn malformed_url_fails_every_constructor() {
    let http: Http<Recorder> = Http::new(Vec::new());
    for url in ["not a url", "", "/relative/path", "http://[::1"] {
        for r in [
            http.get(url),
            http.head(url),
            http.post(url),
            http.put(url),
            http.delete(url),
            http.connect(url),
            http.options(url),
            http.trace(url),
            http.patch(url),
        ] {
            match r {
                Err(Error::Url(u)) => assert_eq!(u, url),
                _ => panic!("expected a URL error for {:?}", url),
            }
        }
    }
}

#[test]
fn text_body_round_trips() {
    let http: Http<Recorder> = Http::new(Vec::new());
    for text in ["", "hello", "grüße, 世界 🦀"] {
        let req = http.put("https://example.com/").unwrap().body_string(text).build();
        let body = req.body.unwrap();
        assert_eq!(body.content_type, "text/plain;charset=utf-8");
        let response = Response::new(200, Vec::new(), body.bytes);
        assert_eq!(response.body_string().unwrap(), text);
        // decoding again reads the same, unchanged buffer
        assert_eq!(response.body_string().unwrap(), text);
    }
}

#[test]
fn invalid_utf8_body_is_decode_error() {
    let response = Response::new(200, Vec::new(), vec![0x66, 0xff, 0xfe]);
    match response.body_string() {
        Err(Error::Decode { len, .. }) => assert_eq!(len, 3),
        _ => panic!("expected a decode error"),
    }
    assert_eq!(response.body_bytes(), vec![0x66, 0xff, 0xfe]);
}

#[test]
fn middleware_order_in_then_out_reversed() {
    let journal = Rc::new(RefCell::new(Vec::new()));
    let chain = vec![recorder("A", &journal), recorder("B", &journal), recorder("C", &journal)];
    let mut http = Http::new(chain);
    let (token, _, log) = dispatched(http.get("https://example.com/a").unwrap().send(&mut http));
    assert_eq!(log, vec![Visit::Inbound(0), Visit::Inbound(1), Visit::Inbound(2)]);
    let delivery = http.resolve(token, ok_reply(200, b"")).unwrap();
    assert_eq!(delivery.log, vec![Visit::Outbound(2), Visit::Outbound(1), Visit::Outbound(0)]);
    let names: Vec<String> = journal
        .borrow()
        .iter()
        .map(|e| e.split(' ').take(2).collect::<Vec<_>>().join(" "))
        .collect();
    assert_eq!(names, vec!["A in", "B in", "C in", "C out", "B out", "A out"]);
}

#[test]
fn short_circuit_skips_dispatch() {
    let journal = Rc::new(RefCell::new(Vec::new()));
    let chain = vec![
        Stage::Pass(recorder("A", &journal)),
        Stage::Answer(recorder("B", &journal)),
        Stage::Pass(recorder("C", &journal)),
    ];
    let mut http = Http::new(chain);
    match http.get("https://example.com/a").unwrap().send(&mut http) {
        Sent::Answered { result, log } => {
            assert_eq!(log, vec![Visit::Inbound(0), Visit::Inbound(1), Visit::Outbound(0)]);
            let response = result.unwrap();
            assert_eq!(response.status(), 304);
            assert_eq!(response.body_string().unwrap(), "cached");
        }
        Sent::Dispatched { .. } => panic!("nothing should be dispatched"),
    }
    assert_eq!(
        journal.borrow().clone(),
        vec!["A in GET https://example.com/a", "B answers", "A out"]
    );
}

#[test]
fn each_reply_delivered_once_to_its_request() {
    let mut http: Http<Recorder> = Http::new(Vec::new());
    let urls = ["https://example.com/1", "https://example.com/2", "https://example.com/3"];
    let mut tokens = Vec::new();
    for url in urls {
        let (token, op, _) = dispatched(http.get(url).unwrap().send(&mut http));
        assert_eq!(op.url, url);
        tokens.push(token);
    }
    assert_eq!(tokens, vec![0, 1, 2]);
    assert!(tokens.iter().all(|&t| http.is_pending(t)));
    // replies arrive out of order
    for &i in &[2usize, 0, 1] {
        let body = format!("reply {}", i);
        let d = http.resolve(tokens[i], ok_reply(200, body.as_bytes())).unwrap();
        assert_eq!(d.token, tokens[i]);
        assert_eq!(d.result.unwrap().body_string().unwrap(), body);
        assert!(!http.is_pending(tokens[i]));
        assert!(http.resolve(tokens[i], ok_reply(200, b"again")).is_none());
    }
    assert!(http.resolve(99, ok_reply(200, b"stray")).is_none());
}

#[test]
fn headers_keep_order_and_duplicates() {
    let mut http: Http<Recorder> = Http::new(Vec::new());
    let builder = http
        .get("https://example.com/")
        .unwrap()
        .header("accept", "text/plain")
        .header("x-tag", "one")
        .header("x-tag", "two");
    let (_, op, _) = dispatched(builder.send(&mut http));
    let pairs: Vec<(String, String)> =
        op.headers.into_iter().map(|h| (h.name, h.value)).collect();
    assert_eq!(
        pairs,
        vec![
            ("accept".to_string(), "text/plain".to_string()),
            ("x-tag".to_string(), "one".to_string()),
            ("x-tag".to_string(), "two".to_string()),
        ]
    );
}

#[test]
fn query_pairs_are_form_encoded() {
    let http: Http<Recorder> = Http::new(Vec::new());
    let builder = http.get("https://example.com/search").unwrap();
    assert!(builder.can_query("q", "a b&c"));
    let req = builder
        .query("q", "a b&c")
        .query("page", "2")
        .build();
    assert_eq!(req.url, "https://example.com/search?q=a+b%26c&page=2");
}

#[test]
fn second_body_replaces_first() {
    let http: Http<Recorder> = Http::new(Vec::new());
    let req = http
        .post("https://example.com/")
        .unwrap()
        .body_string("first")
        .body_bytes(vec![1, 2, 3])
        .build();
    let body = req.body.unwrap();
    assert_eq!(body.bytes, vec![1, 2, 3]);
    assert_eq!(body.content_type, "application/octet-stream");
}

#[test]
fn response_header_lookup_finds_first() {
    let headers = vec![
        HttpHeader { name: "set-cookie".into(), value: "a=1".into() },
        HttpHeader { name: "set-cookie".into(), value: "b=2".into() },
    ];
    let response = Response::new(200, headers, Vec::new());
    assert_eq!(response.header("set-cookie"), Some("a=1".to_string()));
    assert_eq!(response.header("etag"), None);
    assert_eq!(response.content_type(), None);
    let typed = Response::new(
        200,
        vec![HttpHeader { name: "content-type".into(), value: "text/html".into() }],
        Vec::new(),
    );
    assert_eq!(typed.content_type(), Some("text/html".to_string()));
    let mixed = Response::new(
        200,
        vec![HttpHeader { name: "Content-Type".into(), value: "application/json".into() }],
        Vec::new(),
    );
    assert_eq!(mixed.content_type(), Some("application/json".to_string()));
    assert_eq!(mixed.header("CONTENT-TYPE"), Some("application/json".to_string()));
    assert_eq!(mixed.header("content-typ"), None);
    assert_eq!(response.headers().len(), 2);
}

#[test]
fn method_tokens() {
    assert_eq!(Method::Get.as_str(), "GET");
    assert_eq!(Method::Options.as_str(), "OPTIONS");
    assert_eq!(Method::Patch.as_str(), "PATCH");
}

#[test]
fn can_send_on_fresh_capability() {
    let http: Http<Recorder> = Http::new(Vec::new());
    assert!(http.can_send());
}

#[test]
fn forwarding_chain_sends_request_as_built() {
    let mut http = Http::new(vec![Forward, Forward, Forward]);
    let builder = http.post("https://example.com/items").unwrap().body_json("{\"x\":1}");
    let (token, op, log) = dispatched(builder.send(&mut http));
    assert_eq!(log, vec![Visit::Inbound(0), Visit::Inbound(1), Visit::Inbound(2)]);
    assert_eq!(op.method, "POST");
    assert_eq!(op.body, b"{\"x\":1}".to_vec());
    assert_eq!(op.headers.len(), 1);
    assert_eq!(op.headers[0].name, "content-type");
    assert_eq!(op.headers[0].value, "application/json");
    let delivery = http.resolve(token, ok_reply(201, &op.body)).unwrap();
    let response = delivery.result.unwrap();
    assert_eq!(response.status(), 201);
    assert_eq!(response.body_string().unwrap(), "{\"x\":1}");
}

#[test]
fn try_query_appends_when_it_fits() {
    let http: Http<Recorder> = Http::new(Vec::new());
    let builder = http.get("https://example.com/find?x=1#top").unwrap();
    let req = match builder.try_query("name", "é") {
        Ok(b) => b.build(),
        Err(_) => panic!("a short pair fits"),
    };
    assert_eq!(req.url, "https://example.com/find?x=1&name=%C3%A9#top");
}
