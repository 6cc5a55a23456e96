//! HTTP-shaped exchanges with the providers: the request a connector asks
//! for, the status and body it gets back, and a scripted transport that
//! checks a transcript exchange by exchange.

use vstd::prelude::*;

verus! {

#[derive(Debug, Clone, Copy, PartialEq, Eq, Hash, Structural)]
pub enum HttpMethod {
    Get,
    Post,
    Put,
}

/// A request body: none, or the bytes of a JSON document.
#[derive(Debug, Clone, PartialEq, Eq)]
pub enum RequestBody {
    Empty,
    Json(Vec<u8>),
}

/// The body as a value: `None` when empty.
pub open spec fn body_view(b: RequestBody) -> Option<Seq<u8>> {
    match b {
        RequestBody::Empty => None,
        RequestBody::Json(v) => Some(v@),
    }
}

/// Query pairs as character sequences.
pub open spec fn query_view(q: Seq<(String, String)>) -> Seq<(Seq<char>, Seq<char>)> {
    q.map_values(|p: (String, String)| (p.0@, p.1@))
}

/// The parts of a `GET` of `path` with no query and no body.
pub open spec fn get_parts(path: Seq<char>) -> (HttpMethod, Seq<char>, Seq<(Seq<char>, Seq<char>)>, Option<Seq<u8>>) {
    (HttpMethod::Get, path, Seq::empty(), None)
}

#[derive(Debug, Clone, PartialEq, Eq)]
pub struct HttpRequest {
    pub method: HttpMethod,
    pub path: String,
    pub query: Vec<(String, String)>,
    pub body: RequestBody,
}

impl HttpRequest {
    /// The request as a value: method, path, query pairs and body.
    pub open spec fn spec_parts(self) -> (HttpMethod, Seq<char>, Seq<(Seq<char>, Seq<char>)>, Option<Seq<u8>>) {
        (self.method, self.path@, query_view(self.query@), body_view(self.body))
    }

    /// A `GET` of `path` with no query and no body.
    pub fn get(path: &str) -> (r: Self)
        ensures
            r.spec_parts() == (HttpMethod::Get, path@, Seq::<(Seq<char>, Seq<char>)>::empty(), None::<Seq<u8>>),
    {
        let r = HttpRequest {
            method: HttpMethod::Get,
            path: path.to_owned(),
            query: Vec::new(),
            body: RequestBody::Empty,
        };
        assert(query_view(r.query@) =~= Seq::<(Seq<char>, Seq<char>)>::empty());
        r
    }

    /// The same request with one more query pair at the end.
    pub fn query(self, key: &str, value: &str) -> (r: Self)
        ensures
            r.method == self.method,
            r.path@ == self.path@,
            query_view(r.query@) == query_view(self.query@).push((key@, value@)),
            body_view(r.body) == body_view(self.body),
    {
        let HttpRequest { method, path, query, body } = self;
        let mut query = query;
        let ghost before = query@;
        query.push((key.to_owned(), value.to_owned()));
        assert(query_view(query@) =~= query_view(before).push((key@, value@)));
        HttpRequest { method, path, query, body }
    }

    /// A `POST` of the JSON document `body` to `path`.
    pub fn post_json(path: &str, body: Vec<u8>) -> (r: Self)
        ensures
            r.spec_parts() == (HttpMethod::Post, path@, Seq::<(Seq<char>, Seq<char>)>::empty(), Some(body@)),
    {
        Self::json(HttpMethod::Post, path, body)
    }

    /// A `PUT` of the JSON document `body` to `path`.
    pub fn put_json(path: &str, body: Vec<u8>) -> (r: Self)
        ensures
            r.spec_parts() == (HttpMethod::Put, path@, Seq::<(Seq<char>, Seq<char>)>::empty(), Some(body@)),
    {
        Self::json(HttpMethod::Put, path, body)
    }

    fn json(method: HttpMethod, path: &str, body: Vec<u8>) -> (r: Self)
        ensures
            r.spec_parts() == (method, path@, Seq::<(Seq<char>, Seq<char>)>::empty(), Some(body@)),
    {
        let r = HttpRequest {
            method,
            path: path.to_owned(),
            query: Vec::new(),
            body: RequestBody::Json(body),
        };
        assert(query_view(r.query@) =~= Seq::<(Seq<char>, Seq<char>)>::empty());
        r
    }
}

fn same_bytes(a: &[u8], b: &[u8]) -> (r: bool)
    ensures
        r == (a@ == b@),
{
    if a.len() != b.len() {
        return false;
    }
    let mut i: usize = 0;
    while i < a.len()
        invariant
            a@.len() == b@.len(),
            i <= a@.len(),
            forall|j: int| 0 <= j < i ==> a@[j] == b@[j],
        decreases a@.len() - i,
    {
        if a[i] != b[i] {
            return false;
        }
        i = i + 1;
    }
    assert(a@ =~= b@);
    true
}

fn same_string(a: &String, b: &String) -> (r: bool)
    ensures
        r == (a@ == b@),
{
    crate::text::same_text(a.as_str(), b.as_str())
}

fn same_method(a: HttpMethod, b: HttpMethod) -> (r: bool)
    ensures
        r == (a == b),
{
    a == b
}

/// A copy of `r`.
pub fn clone_request(r: &HttpRequest) -> (c: HttpRequest)
    ensures
        c.spec_parts() == r.spec_parts(),
{
    let mut query: Vec<(String, String)> = Vec::new();
    let mut i: usize = 0;
    while i < r.query.len()
        invariant
            i <= r.query@.len(),
            query_view(query@) == query_view(r.query@).take(i as int),
        decreases r.query@.len() - i,
    {
        let ghost before = query@;
        query.push((r.query[i].0.clone(), r.query[i].1.clone()));
        assert(query_view(query@) =~= query_view(before).push(query_view(r.query@)[i as int]));
        assert(query_view(r.query@).take(i + 1) =~= query_view(r.query@).take(i as int).push(
            query_view(r.query@)[i as int],
        ));
        i = i + 1;
    }
    assert(query_view(r.query@).take(r.query@.len() as int) =~= query_view(r.query@));
    let body = match &r.body {
        RequestBody::Empty => RequestBody::Empty,
        RequestBody::Json(b) => {
            let c = b.clone();
            assert(c@ =~= b@);
            RequestBody::Json(c)
        },
    };
    HttpRequest { method: r.method, path: r.path.clone(), query, body }
}

/// `true` when the two requests are the same exchange.
pub fn same_request(a: &HttpRequest, b: &HttpRequest) -> (r: bool)
    ensures
        r == (a.spec_parts() == b.spec_parts()),
{
    if !same_method(a.method, b.method) || !same_string(&a.path, &b.path) {
        return false;
    }
    if a.query.len() != b.query.len() {
        assert(query_view(a.query@).len() != query_view(b.query@).len());
        return false;
    }
    let mut i: usize = 0;
    while i < a.query.len()
        invariant
            a.query@.len() == b.query@.len(),
            i <= a.query@.len(),
            forall|j: int| 0 <= j < i ==> #[trigger] query_view(a.query@)[j] == query_view(b.query@)[j],
        decreases a.query@.len() - i,
    {
        if !same_string(&a.query[i].0, &b.query[i].0) || !same_string(&a.query[i].1, &b.query[i].1) {
            assert(query_view(a.query@)[i as int] != query_view(b.query@)[i as int]);
            return false;
        }
        i = i + 1;
    }
    assert(query_view(a.query@) =~= query_view(b.query@));
    match (&a.body, &b.body) {
        (RequestBody::Empty, RequestBody::Empty) => true,
        (RequestBody::Json(x), RequestBody::Json(y)) => same_bytes(x.as_slice(), y.as_slice()),
        _ => false,
    }
}

/// An HTTP status code in `100..=599`.
#[derive(Debug, Clone, Copy, PartialEq, Eq, Structural)]
pub struct HttpStatus(u16);

impl HttpStatus {
    #[verifier::type_invariant]
    spec fn in_range(self) -> bool {
        100 <= self.0 <= 599
    }

    pub closed spec fn view(self) -> u16 {
        self.0
    }

    pub fn parse(code: u16) -> (r: Result<Self, TransportError>)
        ensures
            100 <= code <= 599 ==> (r matches Ok(s) && s@ == code),
            !(100 <= code <= 599) ==> (r matches Err(TransportError::InvalidStatus(c)) && c == code),
    {
        if 100 <= code && code <= 599 {
            Ok(HttpStatus(code))
        } else {
            Err(TransportError::InvalidStatus(code))
        }
    }

    pub fn code(self) -> (c: u16)
        ensures
            c == self@,
            100 <= c <= 599,
    {
        proof {
            use_type_invariant(&self);
        }
        self.0
    }

    /// A 2xx status.
    pub fn is_success(self) -> (r: bool)
        ensures
            r == (200 <= self@ < 300),
    {
        self.0 >= 200 && self.0 < 300
    }
}

/// A response: its status and raw body.
#[derive(Debug, Clone, PartialEq, Eq)]
pub struct HttpResponse {
    pub status: HttpStatus,
    pub body: Vec<u8>,
}

impl HttpResponse {
    /// The body of a successful response; any other status is an error.
    pub fn success_body(&self) -> (r: Result<&[u8], TransportError>)
        ensures
            200 <= self.status@ < 300 ==> (r matches Ok(b) && b@ == self.body@),
            !(200 <= self.status@ < 300) ==> (r matches Err(TransportError::Http(s)) && s == self.status),
    {
        if !self.status.is_success() {
            return Err(TransportError::Http(self.status));
        }
        Ok(self.body.as_slice())
    }
}

/// Why an HTTP exchange could not be used.
#[derive(Debug, Clone, PartialEq, Eq)]
pub enum TransportError {
    InvalidStatus(u16),
    /// A scripted response body could not be written as JSON; the text
    /// says why.
    FixtureJson(String),
    /// A response body was not the JSON document expected; the text says
    /// why.
    ResponseJson(String),
    Http(HttpStatus),
    UnexpectedRequest(Box<HttpRequest>),
    RequestMismatch { expected: Box<HttpRequest>, actual: Box<HttpRequest> },
    UnconsumedExchanges(usize),
}

/// The name of a method as written in messages.
pub open spec fn method_name(m: HttpMethod) -> Seq<char> {
    match m {
        HttpMethod::Get => "Get"@,
        HttpMethod::Post => "Post"@,
        HttpMethod::Put => "Put"@,
    }
}

fn push_method(s: &mut String, m: HttpMethod)
    ensures
        final(s)@ == old(s)@ + method_name(m),
{
    match m {
        HttpMethod::Get => crate::text::append(s, "Get"),
        HttpMethod::Post => crate::text::append(s, "Post"),
        HttpMethod::Put => crate::text::append(s, "Put"),
    }
}

/// What a transport error says.
pub open spec fn transport_message(e: TransportError) -> Seq<char> {
    match e {
        TransportError::InvalidStatus(code) => "invalid HTTP status "@ + crate::text::decimal(code as nat),
        TransportError::FixtureJson(why) => "could not encode mock JSON: "@ + why@,
        TransportError::ResponseJson(why) => "could not decode response JSON: "@ + why@,
        TransportError::Http(status) => "provider returned HTTP "@ + crate::text::decimal(status@ as nat),
        TransportError::UnexpectedRequest(r) => "unexpected request "@ + method_name(r.method) + " "@ + r.path@,
        TransportError::RequestMismatch { expected, actual } => "request mismatch: expected "@ + method_name(
            expected.method,
        ) + " "@ + expected.path@ + ", got "@ + method_name(actual.method) + " "@ + actual.path@,
        TransportError::UnconsumedExchanges(n) => crate::text::decimal(n as nat) + " mock HTTP exchanges were not consumed"@,
    }
}

impl TransportError {
    /// The error as a sentence.
    pub fn message(&self) -> (m: String)
        ensures
            m@ == transport_message(*self),
    {
        let mut s = String::new();
        match self {
            TransportError::InvalidStatus(code) => {
                crate::text::append(&mut s, "invalid HTTP status ");
                crate::text::push_decimal(&mut s, *code as u64);
            },
            TransportError::FixtureJson(why) => {
                crate::text::append(&mut s, "could not encode mock JSON: ");
                crate::text::append(&mut s, why.as_str());
            },
            TransportError::ResponseJson(why) => {
                crate::text::append(&mut s, "could not decode response JSON: ");
                crate::text::append(&mut s, why.as_str());
            },
            TransportError::Http(status) => {
                crate::text::append(&mut s, "provider returned HTTP ");
                crate::text::push_decimal(&mut s, status.code() as u64);
            },
            TransportError::UnexpectedRequest(r) => {
                crate::text::append(&mut s, "unexpected request ");
                push_method(&mut s, r.method);
                crate::text::append(&mut s, " ");
                crate::text::append(&mut s, r.path.as_str());
            },
            TransportError::RequestMismatch { expected, actual } => {
                crate::text::append(&mut s, "request mismatch: expected ");
                push_method(&mut s, expected.method);
                crate::text::append(&mut s, " ");
                crate::text::append(&mut s, expected.path.as_str());
                crate::text::append(&mut s, ", got ");
                push_method(&mut s, actual.method);
                crate::text::append(&mut s, " ");
                crate::text::append(&mut s, actual.path.as_str());
            },
            TransportError::UnconsumedExchanges(n) => {
                crate::text::push_decimal(&mut s, *n as u64);
                crate::text::append(&mut s, " mock HTTP exchanges were not consumed");
            },
        }
        assert(s@ =~= transport_message(*self));
        s
    }
}

/// A synchronous HTTP client, implemented by the embedding program.
pub trait HttpTransport {
    fn execute(&mut self, request: HttpRequest) -> Result<HttpResponse, TransportError>;
}

/// One scripted exchange: the request expected and the response given.
#[derive(Debug, Clone)]
struct Exchange {
    request: HttpRequest,
    response: HttpResponse,
}

/// A transport that plays a script: each request must equal the next
/// expected one, and every expected exchange must be used.
#[derive(Debug)]
pub struct MockHttp {
    exchanges: Vec<Exchange>,
    next: usize,
    observed: Vec<HttpRequest>,
}

impl MockHttp {
    #[verifier::type_invariant]
    spec fn cursor_in_script(self) -> bool {
        self.next <= self.exchanges@.len()
    }

    /// The requests still expected, in order.
    pub closed spec fn expected(&self) -> Seq<(HttpMethod, Seq<char>, Seq<(Seq<char>, Seq<char>)>, Option<Seq<u8>>)> {
        self.exchanges@.skip(self.next as int).map_values(|e: Exchange| e.request.spec_parts())
    }

    /// The status and body of each response still scripted, in order.
    pub closed spec fn responses(&self) -> Seq<(u16, Seq<u8>)> {
        self.exchanges@.skip(self.next as int).map_values(|e: Exchange| (e.response.status@, e.response.body@))
    }

    /// The requests received and answered so far.
    pub closed spec fn observed(&self) -> Seq<(HttpMethod, Seq<char>, Seq<(Seq<char>, Seq<char>)>, Option<Seq<u8>>)> {
        self.observed@.map_values(|r: HttpRequest| r.spec_parts())
    }

    pub fn new() -> (r: Self)
        ensures
            r.expected().len() == 0,
            r.observed().len() == 0,
    {
        let r = MockHttp { exchanges: Vec::new(), next: 0, observed: Vec::new() };
        assert(r.expected() =~= Seq::empty());
        assert(r.observed() =~= Seq::empty());
        r
    }

    /// Script one more exchange: `request` answered with `status` and the
    /// JSON document `body`.
    pub fn expect_json(&mut self, request: HttpRequest, status: u16, body: Vec<u8>) -> (r: Result<(), TransportError>)
        ensures
            100 <= status <= 599 ==> r is Ok && final(self).expected() == old(self).expected().push(request.spec_parts()),
            !(100 <= status <= 599) ==> (r matches Err(TransportError::InvalidStatus(c)) && c == status
                && final(self).expected() == old(self).expected()),
            final(self).observed() == old(self).observed(),
    {
        let status = match HttpStatus::parse(status) {
            Ok(s) => s,
            Err(e) => {
                return Err(e);
            },
        };
        let mut current = MockHttp { exchanges: Vec::new(), next: 0, observed: Vec::new() };
        std::mem::swap(self, &mut current);
        proof {
            use_type_invariant(&current);
        }
        let MockHttp { mut exchanges, next, observed } = current;
        let ghost before = exchanges@;
        exchanges.push(Exchange { request, response: HttpResponse { status, body } });
        assert(exchanges@.skip(next as int) =~= before.skip(next as int).push(exchanges@.last()));
        *self = MockHttp { exchanges, next, observed };
        assert(self.expected() =~= old(self).expected().push(request.spec_parts()));
        assert(self.observed() =~= old(self).observed());
        Ok(())
    }

    /// All requests received, in order, provided the whole script was used.
    pub fn finish(self) -> (r: Result<Vec<HttpRequest>, TransportError>)
        ensures
            self.expected().len() == 0 ==> (r matches Ok(v) && v@.map_values(|q: HttpRequest| q.spec_parts()) == self.observed()),
            self.expected().len() > 0 ==> (r matches Err(TransportError::UnconsumedExchanges(n)) && n == self.expected().len()),
    {
        proof {
            use_type_invariant(&self);
        }
        if self.next < self.exchanges.len() {
            return Err(TransportError::UnconsumedExchanges(self.exchanges.len() - self.next));
        }
        Ok(self.observed)
    }
}

impl HttpTransport for MockHttp {
    /// Answer with the next scripted response when `request` is the next
    /// scripted request; the scripted exchange is used up either way.
    fn execute(&mut self, request: HttpRequest) -> (r: Result<HttpResponse, TransportError>)
        ensures
            old(self).expected().len() == 0 ==> (r matches Err(TransportError::UnexpectedRequest(q))
                && q.spec_parts() == request.spec_parts() && final(self).expected() == old(self).expected()
                && final(self).observed() == old(self).observed()),
            old(self).expected().len() > 0 ==> final(self).expected() == old(self).expected().drop_first()
                && final(self).responses() == old(self).responses().drop_first(),
            old(self).expected().len() > 0 && old(self).expected()[0] == request.spec_parts() ==> (r matches Ok(resp)
                && (resp.status@, resp.body@) == old(self).responses()[0]
                && final(self).observed() == old(self).observed().push(request.spec_parts())),
            old(self).expected().len() > 0 && old(self).expected()[0] != request.spec_parts() ==> (r matches Err(
                TransportError::RequestMismatch { expected, actual },
            ) && expected.spec_parts() == old(self).expected()[0] && actual.spec_parts() == request.spec_parts()
                && final(self).observed() == old(self).observed()),
    {
        proof {
            use_type_invariant(&*self);
        }
        if self.next >= self.exchanges.len() {
            return Err(TransportError::UnexpectedRequest(Box::new(request)));
        }
        let mut current = MockHttp { exchanges: Vec::new(), next: 0, observed: Vec::new() };
        std::mem::swap(self, &mut current);
        let MockHttp { exchanges, next, mut observed } = current;
        let i = next;
        proof {
            assert(exchanges@.skip(i + 1) =~= old(self).exchanges@.skip(i as int).drop_first());
            assert(old(self).expected()[0] == exchanges@[i as int].request.spec_parts());
        }
        if !same_request(&exchanges[i].request, &request) {
            let expected = clone_request(&exchanges[i].request);
            *self = MockHttp { exchanges, next: i + 1, observed };
            assert(self.expected() =~= old(self).expected().drop_first());
            assert(self.responses() =~= old(self).responses().drop_first());
            return Err(TransportError::RequestMismatch { expected: Box::new(expected), actual: Box::new(request) });
        }
        let status = exchanges[i].response.status;
        let body = exchanges[i].response.body.clone();
        proof {
            assert(body@ =~= exchanges@[i as int].response.body@);
        }
        let ghost seen = observed@;
        observed.push(request);
        *self = MockHttp { exchanges, next: i + 1, observed };
        proof {
            assert(self.expected() =~= old(self).expected().drop_first());
            assert(self.responses() =~= old(self).responses().drop_first());
            assert(self.observed() =~= old(self).observed().push(request.spec_parts())) by {
                assert(self.observed@ =~= seen.push(request));
            }
        }
        Ok(HttpResponse { status, body })
    }
}

} // verus!
