//! HTTP/1.1 protocol types: [`Method`], [`Version`], and request/response
//! values with fluent builders.

use vstd::prelude::*;
use crate::text::{owned, utf8_text, bytes_equal};

verus! {

/// HTTP request method.
#[derive(Debug, Clone, Hash)]
pub enum Method {
    /// GET
    Get,
    /// HEAD
    Head,
    /// POST
    Post,
    /// PUT
    Put,
    /// DELETE
    Delete,
    /// CONNECT
    Connect,
    /// OPTIONS
    Options,
    /// TRACE
    Trace,
    /// PATCH
    Patch,
    /// Extension method not covered by the standard set.
    Extension(String),
}

/// ASCII bytes of a character sequence.
pub open spec fn ascii_bytes(s: Seq<char>) -> Seq<u8> {
    s.map_values(|c: char| c as u8)
}

impl Method {
    /// The method's text (`GET`, ..., or the extension token itself).
    pub open spec fn text(self) -> Seq<char> {
        match self {
            Method::Get => seq!['G', 'E', 'T'],
            Method::Head => seq!['H', 'E', 'A', 'D'],
            Method::Post => seq!['P', 'O', 'S', 'T'],
            Method::Put => seq!['P', 'U', 'T'],
            Method::Delete => seq!['D', 'E', 'L', 'E', 'T', 'E'],
            Method::Connect => seq!['C', 'O', 'N', 'N', 'E', 'C', 'T'],
            Method::Options => seq!['O', 'P', 'T', 'I', 'O', 'N', 'S'],
            Method::Trace => seq!['T', 'R', 'A', 'C', 'E'],
            Method::Patch => seq!['P', 'A', 'T', 'C', 'H'],
            Method::Extension(s) => s@,
        }
    }

    /// Whether two methods are the same method.
    pub open spec fn same(self, other: Method) -> bool {
        match (self, other) {
            (Method::Extension(a), Method::Extension(b)) => a@ == b@,
            (Method::Extension(_), _) => false,
            (_, Method::Extension(_)) => false,
            _ => self == other,
        }
    }

    /// Parse a method from its ASCII representation.
    ///
    /// The nine standard tokens map to their variants; any other valid UTF-8
    /// becomes an extension method; invalid UTF-8 gives `None`.
    pub fn from_bytes(src: &[u8]) -> (r: Option<Method>)
        ensures
            standard_method(src@) matches Some(m) ==> r == Some(m),
            standard_method(src@) is None ==> {
                &&& (r is Some <==> vstd::utf8::valid_utf8(src@))
                &&& (r matches Some(m) ==> m is Extension && m.text() == vstd::utf8::decode_utf8(src@))
            },
            r matches Some(m) ==> parses_to(src@, m),
    {
        let get: [u8; 3] = [71, 69, 84];
        let head: [u8; 4] = [72, 69, 65, 68];
        let post: [u8; 4] = [80, 79, 83, 84];
        let put: [u8; 3] = [80, 85, 84];
        let delete: [u8; 6] = [68, 69, 76, 69, 84, 69];
        let connect: [u8; 7] = [67, 79, 78, 78, 69, 67, 84];
        let options: [u8; 7] = [79, 80, 84, 73, 79, 78, 83];
        let trace: [u8; 5] = [84, 82, 65, 67, 69];
        let patch: [u8; 5] = [80, 65, 84, 67, 72];
        if bytes_equal(src, &get) {
            assert(get@ =~= ascii_bytes(Method::Get.text()));
            Some(Method::Get)
        } else if bytes_equal(src, &head) {
            assert(head@ =~= ascii_bytes(Method::Head.text()));
            Some(Method::Head)
        } else if bytes_equal(src, &post) {
            assert(post@ =~= ascii_bytes(Method::Post.text()));
            Some(Method::Post)
        } else if bytes_equal(src, &put) {
            assert(put@ =~= ascii_bytes(Method::Put.text()));
            Some(Method::Put)
        } else if bytes_equal(src, &delete) {
            assert(delete@ =~= ascii_bytes(Method::Delete.text()));
            Some(Method::Delete)
        } else if bytes_equal(src, &connect) {
            assert(connect@ =~= ascii_bytes(Method::Connect.text()));
            Some(Method::Connect)
        } else if bytes_equal(src, &options) {
            assert(options@ =~= ascii_bytes(Method::Options.text()));
            Some(Method::Options)
        } else if bytes_equal(src, &trace) {
            assert(trace@ =~= ascii_bytes(Method::Trace.text()));
            Some(Method::Trace)
        } else if bytes_equal(src, &patch) {
            assert(patch@ =~= ascii_bytes(Method::Patch.text()));
            Some(Method::Patch)
        } else {
            assert(get@ =~= ascii_bytes(Method::Get.text()));
            assert(head@ =~= ascii_bytes(Method::Head.text()));
            assert(post@ =~= ascii_bytes(Method::Post.text()));
            assert(put@ =~= ascii_bytes(Method::Put.text()));
            assert(delete@ =~= ascii_bytes(Method::Delete.text()));
            assert(connect@ =~= ascii_bytes(Method::Connect.text()));
            assert(options@ =~= ascii_bytes(Method::Options.text()));
            assert(trace@ =~= ascii_bytes(Method::Trace.text()));
            assert(patch@ =~= ascii_bytes(Method::Patch.text()));
            match utf8_text(src) {
                Some(s) => Some(Method::Extension(s)),
                None => None,
            }
        }
    }

    /// Returns the method as a string slice.
    pub fn as_str(&self) -> (r: &str)
        ensures
            r@ == self.text(),
    {
        match self {
            Method::Get => { proof { reveal_strlit("GET"); } "GET" },
            Method::Head => { proof { reveal_strlit("HEAD"); } "HEAD" },
            Method::Post => { proof { reveal_strlit("POST"); } "POST" },
            Method::Put => { proof { reveal_strlit("PUT"); } "PUT" },
            Method::Delete => { proof { reveal_strlit("DELETE"); } "DELETE" },
            Method::Connect => { proof { reveal_strlit("CONNECT"); } "CONNECT" },
            Method::Options => { proof { reveal_strlit("OPTIONS"); } "OPTIONS" },
            Method::Trace => { proof { reveal_strlit("TRACE"); } "TRACE" },
            Method::Patch => { proof { reveal_strlit("PATCH"); } "PATCH" },
            Method::Extension(s) => s.as_str(),
        }
    }

    /// The method's text as an owned string.
    pub fn to_string(&self) -> (r: String)
        ensures
            r@ == self.text(),
    {
        owned(self.as_str())
    }
}

/// The standard method whose ASCII token is `b`, if any.
pub open spec fn standard_method(b: Seq<u8>) -> Option<Method> {
    if b == ascii_bytes(Method::Get.text()) {
        Some(Method::Get)
    } else if b == ascii_bytes(Method::Head.text()) {
        Some(Method::Head)
    } else if b == ascii_bytes(Method::Post.text()) {
        Some(Method::Post)
    } else if b == ascii_bytes(Method::Put.text()) {
        Some(Method::Put)
    } else if b == ascii_bytes(Method::Delete.text()) {
        Some(Method::Delete)
    } else if b == ascii_bytes(Method::Connect.text()) {
        Some(Method::Connect)
    } else if b == ascii_bytes(Method::Options.text()) {
        Some(Method::Options)
    } else if b == ascii_bytes(Method::Trace.text()) {
        Some(Method::Trace)
    } else if b == ascii_bytes(Method::Patch.text()) {
        Some(Method::Patch)
    } else {
        None
    }
}

/// `m` is what `Method::from_bytes` gives for `b`: the standard method
/// whose token `b` is, else an extension holding the UTF-8 text of `b`.
pub open spec fn parses_to(b: Seq<u8>, m: Method) -> bool {
    match standard_method(b) {
        Some(s) => m == s,
        None => vstd::utf8::valid_utf8(b) && m is Extension && m.text() == vstd::utf8::decode_utf8(b),
    }
}

impl PartialEq for Method {
    fn eq(&self, other: &Self) -> (r: bool) {
        match (self, other) {
            (Method::Get, Method::Get) => true,
            (Method::Head, Method::Head) => true,
            (Method::Post, Method::Post) => true,
            (Method::Put, Method::Put) => true,
            (Method::Delete, Method::Delete) => true,
            (Method::Connect, Method::Connect) => true,
            (Method::Options, Method::Options) => true,
            (Method::Trace, Method::Trace) => true,
            (Method::Patch, Method::Patch) => true,
            (Method::Extension(a), Method::Extension(b)) => *a == *b,
            _ => false,
        }
    }
}

impl vstd::std_specs::cmp::PartialEqSpecImpl for Method {
    open spec fn obeys_eq_spec() -> bool {
        true
    }

    open spec fn eq_spec(&self, other: &Method) -> bool {
        self.same(*other)
    }
}

impl Eq for Method {}

/// HTTP version.
#[derive(Debug, Clone, Copy, PartialEq, Eq, Hash, Structural)]
pub enum Version {
    /// HTTP/1.0
    Http10,
    /// HTTP/1.1
    Http11,
}

impl Version {
    /// The version's text (`HTTP/1.0` or `HTTP/1.1`).
    pub open spec fn text(self) -> Seq<char> {
        match self {
            Version::Http10 => seq!['H', 'T', 'T', 'P', '/', '1', '.', '0'],
            Version::Http11 => seq!['H', 'T', 'T', 'P', '/', '1', '.', '1'],
        }
    }

    /// Parse a version from its ASCII representation (e.g. `HTTP/1.1`).
    pub fn from_bytes(src: &[u8]) -> (r: Option<Version>)
        ensures
            r == (if src@ == ascii_bytes(Version::Http10.text()) {
                Some(Version::Http10)
            } else if src@ == ascii_bytes(Version::Http11.text()) {
                Some(Version::Http11)
            } else {
                None
            }),
    {
        let v10: [u8; 8] = [72, 84, 84, 80, 47, 49, 46, 48];
        let v11: [u8; 8] = [72, 84, 84, 80, 47, 49, 46, 49];
        assert(v10@ =~= ascii_bytes(Version::Http10.text()));
        assert(v11@ =~= ascii_bytes(Version::Http11.text()));
        if bytes_equal(src, &v10) {
            Some(Version::Http10)
        } else if bytes_equal(src, &v11) {
            Some(Version::Http11)
        } else {
            None
        }
    }

    /// Returns the version as a string slice.
    pub fn as_str(&self) -> (r: &str)
        ensures
            r@ == self.text(),
    {
        match self {
            Version::Http10 => { proof { reveal_strlit("HTTP/1.0"); } "HTTP/1.0" },
            Version::Http11 => { proof { reveal_strlit("HTTP/1.1"); } "HTTP/1.1" },
        }
    }

    /// The version's text as an owned string.
    pub fn to_string(&self) -> (r: String)
        ensures
            r@ == self.text(),
    {
        owned(self.as_str())
    }
}


/// A header or trailer: a name and a value.
pub open spec fn field_view(f: (String, String)) -> (Seq<char>, Seq<char>) {
    (f.0@, f.1@)
}

/// Views of a list of header fields.
pub open spec fn fields_view(fs: Seq<(String, String)>) -> Seq<(Seq<char>, Seq<char>)> {
    fs.map_values(|f: (String, String)| field_view(f))
}

/// A header field built from two string slices.
fn make_field(name: &str, value: &str) -> (f: (String, String))
    ensures
        f.0@ == name@,
        f.1@ == value@,
{
    (owned(name), owned(value))
}

proof fn lemma_fields_push(fs: Seq<(String, String)>, f: (String, String))
    ensures
        fields_view(fs.push(f)) == fields_view(fs).push(field_view(f)),
{
    assert(fields_view(fs.push(f)) =~= fields_view(fs).push(field_view(f)));
}

/// Parsed HTTP/1.1 request (request line + headers + body).
#[derive(Debug, Clone)]
pub struct Request {
    /// HTTP method (GET, POST, etc.).
    pub method: Method,
    /// Request URI (e.g. `/path?query`).
    pub uri: String,
    /// HTTP version.
    pub version: Version,
    /// Request headers as name-value pairs.
    pub headers: Vec<(String, String)>,
    /// Request body bytes.
    pub body: Vec<u8>,
    /// Trailing headers (only valid for chunked transfer-encoding).
    pub trailers: Vec<(String, String)>,
    /// Remote peer address for the connection (if known), in its textual
    /// `host:port` form.
    pub peer_addr: Option<String>,
}

impl Request {
    /// Create a request builder for the provided method and URI.
    pub fn builder(method: Method, uri: &str) -> (b: RequestBuilder)
        ensures
            b.fresh(method, uri@),
    {
        RequestBuilder::new(method, uri)
    }

    /// Create a `GET` request builder.
    pub fn get(uri: &str) -> (b: RequestBuilder)
        ensures
            b.fresh(Method::Get, uri@),
    {
        RequestBuilder::new(Method::Get, uri)
    }

    /// Create a `POST` request builder.
    pub fn post(uri: &str) -> (b: RequestBuilder)
        ensures
            b.fresh(Method::Post, uri@),
    {
        RequestBuilder::new(Method::Post, uri)
    }

    /// Create a `PUT` request builder.
    pub fn put(uri: &str) -> (b: RequestBuilder)
        ensures
            b.fresh(Method::Put, uri@),
    {
        RequestBuilder::new(Method::Put, uri)
    }

    /// Create a `DELETE` request builder.
    pub fn delete(uri: &str) -> (b: RequestBuilder)
        ensures
            b.fresh(Method::Delete, uri@),
    {
        RequestBuilder::new(Method::Delete, uri)
    }
}

/// Fluent builder for [`Request`].
#[derive(Debug, Clone)]
pub struct RequestBuilder {
    request: Request,
}

impl RequestBuilder {
    /// The request under construction.
    pub closed spec fn req(self) -> Request {
        self.request
    }

    /// The builder holds a fresh HTTP/1.1 request for `method` and `uri`
    /// with no headers, body, trailers or peer address.
    pub open spec fn fresh(self, method: Method, uri: Seq<char>) -> bool {
        &&& self.req().method == method
        &&& self.req().uri@ == uri
        &&& self.req().version == Version::Http11
        &&& self.req().headers@.len() == 0
        &&& self.req().body@.len() == 0
        &&& self.req().trailers@.len() == 0
        &&& self.req().peer_addr is None
    }

    /// Create a builder with HTTP/1.1 defaults.
    pub fn new(method: Method, uri: &str) -> (b: Self)
        ensures
            b.fresh(method, uri@),
    {
        RequestBuilder {
            request: Request {
                method,
                uri: owned(uri),
                version: Version::Http11,
                headers: Vec::new(),
                body: Vec::new(),
                trailers: Vec::new(),
                peer_addr: None,
            },
        }
    }

    /// Set the request method.
    pub fn method(self, method: Method) -> (b: Self)
        ensures
            b.req() == (Request { method, ..self.req() }),
    {
        let mut b = self;
        b.request.method = method;
        b
    }

    /// Set the request URI.
    pub fn uri(self, uri: &str) -> (b: Self)
        ensures
            b.req().uri@ == uri@,
            b.req().method == self.req().method,
            b.req().version == self.req().version,
            b.req().headers == self.req().headers,
            b.req().body == self.req().body,
            b.req().trailers == self.req().trailers,
            b.req().peer_addr == self.req().peer_addr,
    {
        let mut b = self;
        b.request.uri = owned(uri);
        b
    }

    /// Set the HTTP version.
    pub fn version(self, version: Version) -> (b: Self)
        ensures
            b.req() == (Request { version, ..self.req() }),
    {
        let mut b = self;
        b.request.version = version;
        b
    }

    /// Add a header.
    pub fn header(self, name: &str, value: &str) -> (b: Self)
        ensures
            fields_view(b.req().headers@) == fields_view(self.req().headers@).push((name@, value@)),
            b.req() == (Request { headers: b.req().headers, ..self.req() }),
    {
        let mut b = self;
        let f = make_field(name, value);
        proof { lemma_fields_push(b.request.headers@, f); }
        b.request.headers.push(f);
        b
    }

    /// Add multiple headers, in order.
    pub fn headers(self, fields: Vec<(String, String)>) -> (b: Self)
        ensures
            b.req().headers@ == self.req().headers@ + fields@,
            b.req() == (Request { headers: b.req().headers, ..self.req() }),
    {
        let mut b = self;
        let mut fields = fields;
        b.request.headers.append(&mut fields);
        b
    }

    /// Set request body bytes.
    pub fn body(self, body: Vec<u8>) -> (b: Self)
        ensures
            b.req() == (Request { body, ..self.req() }),
    {
        let mut b = self;
        b.request.body = body;
        b
    }

    /// Add a trailer header.
    pub fn trailer(self, name: &str, value: &str) -> (b: Self)
        ensures
            fields_view(b.req().trailers@) == fields_view(self.req().trailers@).push((name@, value@)),
            b.req() == (Request { trailers: b.req().trailers, ..self.req() }),
    {
        let mut b = self;
        let f = make_field(name, value);
        proof { lemma_fields_push(b.request.trailers@, f); }
        b.request.trailers.push(f);
        b
    }

    /// Set remote peer address metadata.
    pub fn peer_addr(self, peer_addr: &str) -> (b: Self)
        ensures
            b.req().peer_addr matches Some(a) && a@ == peer_addr@,
            b.req() == (Request { peer_addr: b.req().peer_addr, ..self.req() }),
    {
        let mut b = self;
        b.request.peer_addr = Some(owned(peer_addr));
        b
    }

    /// Build the request.
    pub fn build(self) -> (r: Request)
        ensures
            r == self.req(),
    {
        self.request
    }
}

/// Parsed HTTP/1.1 response (status line + headers + body).
#[derive(Debug, Clone)]
pub struct Response {
    /// HTTP version.
    pub version: Version,
    /// Status code (e.g. 200, 404).
    pub status: u16,
    /// Reason phrase (e.g. "OK", "Not Found").
    pub reason: String,
    /// Response headers as name-value pairs.
    pub headers: Vec<(String, String)>,
    /// Response body bytes.
    pub body: Vec<u8>,
    /// Trailing headers (only valid for chunked transfer-encoding).
    pub trailers: Vec<(String, String)>,
}

impl Response {
    /// Create a simple HTTP/1.1 response with the given status, reason, and
    /// body, and no headers or trailers.
    pub fn new(status: u16, reason: &str, body: Vec<u8>) -> (r: Self)
        ensures
            r.version == Version::Http11,
            r.status == status,
            r.reason@ == reason@,
            r.headers@.len() == 0,
            r.body == body,
            r.trailers@.len() == 0,
    {
        Response {
            version: Version::Http11,
            status,
            reason: owned(reason),
            headers: Vec::new(),
            body,
            trailers: Vec::new(),
        }
    }

    /// Add a header.
    pub fn with_header(self, name: &str, value: &str) -> (r: Self)
        ensures
            fields_view(r.headers@) == fields_view(self.headers@).push((name@, value@)),
            r == (Response { headers: r.headers, ..self }),
    {
        let mut r = self;
        let f = make_field(name, value);
        proof { lemma_fields_push(r.headers@, f); }
        r.headers.push(f);
        r
    }

    /// Create a response builder using the standard reason phrase for `status`.
    pub fn builder(status: u16) -> (b: ResponseBuilder)
        ensures
            b.fresh(status),
    {
        ResponseBuilder::new(status)
    }

    /// Add a trailer header.
    ///
    /// Trailers are only valid with `Transfer-Encoding: chunked`.
    pub fn with_trailer(self, name: &str, value: &str) -> (r: Self)
        ensures
            fields_view(r.trailers@) == fields_view(self.trailers@).push((name@, value@)),
            r == (Response { trailers: r.trailers, ..self }),
    {
        let mut r = self;
        let f = make_field(name, value);
        proof { lemma_fields_push(r.trailers@, f); }
        r.trailers.push(f);
        r
    }
}

/// Fluent builder for [`Response`].
#[derive(Debug, Clone)]
pub struct ResponseBuilder {
    response: Response,
}

impl ResponseBuilder {
    /// The response under construction.
    pub closed spec fn resp(self) -> Response {
        self.response
    }

    /// The builder holds a fresh HTTP/1.1 response for `status` with the
    /// standard reason phrase and nothing else.
    pub open spec fn fresh(self, status: u16) -> bool {
        &&& self.resp().version == Version::Http11
        &&& self.resp().status == status
        &&& self.resp().reason@ == reason_text(status)
        &&& self.resp().headers@.len() == 0
        &&& self.resp().body@.len() == 0
        &&& self.resp().trailers@.len() == 0
    }

    /// Create a builder with HTTP/1.1 defaults and the standard reason phrase.
    pub fn new(status: u16) -> (b: Self)
        ensures
            b.fresh(status),
    {
        ResponseBuilder {
            response: Response {
                version: Version::Http11,
                status,
                reason: owned(default_reason(status)),
                headers: Vec::new(),
                body: Vec::new(),
                trailers: Vec::new(),
            },
        }
    }

    /// Set response status and reset the reason phrase to the default for
    /// that code.
    pub fn status(self, status: u16) -> (b: Self)
        ensures
            b.resp().status == status,
            b.resp().reason@ == reason_text(status),
            b.resp() == (Response { status, reason: b.resp().reason, ..self.resp() }),
    {
        let mut b = self;
        b.response.status = status;
        b.response.reason = owned(default_reason(status));
        b
    }

    /// Set response reason phrase.
    pub fn reason(self, reason: &str) -> (b: Self)
        ensures
            b.resp().reason@ == reason@,
            b.resp() == (Response { reason: b.resp().reason, ..self.resp() }),
    {
        let mut b = self;
        b.response.reason = owned(reason);
        b
    }

    /// Set HTTP version.
    pub fn version(self, version: Version) -> (b: Self)
        ensures
            b.resp() == (Response { version, ..self.resp() }),
    {
        let mut b = self;
        b.response.version = version;
        b
    }

    /// Add a header.
    pub fn header(self, name: &str, value: &str) -> (b: Self)
        ensures
            fields_view(b.resp().headers@) == fields_view(self.resp().headers@).push((name@, value@)),
            b.resp() == (Response { headers: b.resp().headers, ..self.resp() }),
    {
        let mut b = self;
        let f = make_field(name, value);
        proof { lemma_fields_push(b.response.headers@, f); }
        b.response.headers.push(f);
        b
    }

    /// Add multiple headers, in order.
    pub fn headers(self, fields: Vec<(String, String)>) -> (b: Self)
        ensures
            b.resp().headers@ == self.resp().headers@ + fields@,
            b.resp() == (Response { headers: b.resp().headers, ..self.resp() }),
    {
        let mut b = self;
        let mut fields = fields;
        b.response.headers.append(&mut fields);
        b
    }

    /// Set response body bytes.
    pub fn body(self, body: Vec<u8>) -> (b: Self)
        ensures
            b.resp() == (Response { body, ..self.resp() }),
    {
        let mut b = self;
        b.response.body = body;
        b
    }

    /// Add a trailer header.
    pub fn trailer(self, name: &str, value: &str) -> (b: Self)
        ensures
            fields_view(b.resp().trailers@) == fields_view(self.resp().trailers@).push((name@, value@)),
            b.resp() == (Response { trailers: b.resp().trailers, ..self.resp() }),
    {
        let mut b = self;
        let f = make_field(name, value);
        proof { lemma_fields_push(b.response.trailers@, f); }
        b.response.trailers.push(f);
        b
    }

    /// Build the response.
    pub fn build(self) -> (r: Response)
        ensures
            r == self.resp(),
    {
        self.response
    }
}

/// The standard reason phrase for a status code (`Unknown` for codes
/// without one).
pub open spec fn reason_text(status: u16) -> Seq<char> {
    if status == 100 { "Continue"@ }
    else if status == 200 { "OK"@ }
    else if status == 201 { "Created"@ }
    else if status == 204 { "No Content"@ }
    else if status == 301 { "Moved Permanently"@ }
    else if status == 302 { "Found"@ }
    else if status == 304 { "Not Modified"@ }
    else if status == 400 { "Bad Request"@ }
    else if status == 401 { "Unauthorized"@ }
    else if status == 403 { "Forbidden"@ }
    else if status == 404 { "Not Found"@ }
    else if status == 405 { "Method Not Allowed"@ }
    else if status == 408 { "Request Timeout"@ }
    else if status == 411 { "Length Required"@ }
    else if status == 413 { "Payload Too Large"@ }
    else if status == 414 { "URI Too Long"@ }
    else if status == 417 { "Expectation Failed"@ }
    else if status == 431 { "Request Header Fields Too Large"@ }
    else if status == 500 { "Internal Server Error"@ }
    else if status == 501 { "Not Implemented"@ }
    else if status == 502 { "Bad Gateway"@ }
    else if status == 503 { "Service Unavailable"@ }
    else { "Unknown"@ }
}

/// Returns the standard reason phrase for a status code.
pub fn default_reason(status: u16) -> (r: &'static str)
    ensures
        r@ == reason_text(status),
{
    match status {
        100 => "Continue",
        200 => "OK",
        201 => "Created",
        204 => "No Content",
        301 => "Moved Permanently",
        302 => "Found",
        304 => "Not Modified",
        400 => "Bad Request",
        401 => "Unauthorized",
        403 => "Forbidden",
        404 => "Not Found",
        405 => "Method Not Allowed",
        408 => "Request Timeout",
        411 => "Length Required",
        413 => "Payload Too Large",
        414 => "URI Too Long",
        417 => "Expectation Failed",
        431 => "Request Header Fields Too Large",
        500 => "Internal Server Error",
        501 => "Not Implemented",
        502 => "Bad Gateway",
        503 => "Service Unavailable",
        _ => "Unknown",
    }
}

/// A parsed method's text gives back its bytes, so the bytes of
/// `as_str()` parse to the same method again: standard tokens are ASCII and
/// an extension's text is the UTF-8 decoding of the bytes it came from.
pub proof fn law_method_bytes_round_trip(b: Seq<u8>, m: Method)
    requires
        parses_to(b, m),
    ensures
        vstd::utf8::encode_utf8(m.text()) == b,
        parses_to(vstd::utf8::encode_utf8(m.text()), m),
{
    broadcast use vstd::utf8::group_utf8_lib;
    if standard_method(b) is Some {
        let t = m.text();
        assert(vstd::utf8::is_ascii_chars(t));
        vstd::utf8::is_ascii_chars_encode_utf8(t);
        assert(vstd::utf8::encode_utf8(t) =~= ascii_bytes(t));
    }
}

} // verus!
