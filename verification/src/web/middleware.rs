//! Middleware decisions for HTTP handlers.
//!
//! A middleware wraps an inner handler.  This module holds what each layer
//! decides: which methods a retry layer may repeat, and how a CORS layer
//! answers a request (pass it through untouched, answer a preflight itself,
//! or let the inner handler answer and add CORS headers to its response).
//! Header names are compared without regard to ASCII case.

use std::time::Duration;
use vstd::prelude::*;
use crate::messaging::service::{duration_from_secs, duration_nanos, duration_secs};
use crate::text::{copy_string, decimal, decimal_text, join, joined, owned, str_chars, str_eq};

verus! {

// ─── Method classes ────────────────────────────────────────────────────────

/// What `str::to_uppercase` returns for a text (Unicode upper-case
/// mapping, which may change the length of the text).
pub uninterp spec fn upper_case(s: Seq<char>) -> Seq<char>;

/// Trusted: calls `str::to_uppercase`, a function of the text alone; the
/// contract only names its result.
#[verifier::external_body]
fn to_upper_case(s: &str) -> (u: String)
    ensures
        u@ == upper_case(s@),
{
    s.to_uppercase()
}

/// Upper-case method names a retry may repeat.
pub open spec fn idempotent_name(m: Seq<char>) -> bool {
    ||| m == "GET"@
    ||| m == "HEAD"@
    ||| m == "OPTIONS"@
    ||| m == "PUT"@
    ||| m == "DELETE"@
    ||| m == "TRACE"@
}

/// Whether an upper-case method name is idempotent.
pub fn is_idempotent_name(upper: &str) -> (b: bool)
    ensures
        b == idempotent_name(upper@),
{
    str_eq(upper, "GET") || str_eq(upper, "HEAD") || str_eq(upper, "OPTIONS") || str_eq(upper, "PUT")
        || str_eq(upper, "DELETE") || str_eq(upper, "TRACE")
}

/// Whether a request method is idempotent: its upper-case form is `GET`,
/// `HEAD`, `OPTIONS`, `PUT`, `DELETE` or `TRACE`.
pub fn is_idempotent(method: &str) -> (b: bool)
    ensures
        b == idempotent_name(upper_case(method@)),
{
    let upper = to_upper_case(method);
    is_idempotent_name(upper.as_str())
}

// ─── ASCII case folding ────────────────────────────────────────────────────

/// Code of a character with ASCII upper-case letters folded to lower case.
pub open spec fn fold(c: char) -> u32 {
    let u = c as u32;
    if 65 <= u <= 90 { (u + 32) as u32 } else { u }
}

/// Equality of texts up to ASCII case.
pub open spec fn same_ignoring_ascii_case(a: Seq<char>, b: Seq<char>) -> bool {
    a.len() == b.len() && forall|i: int| 0 <= i < a.len() ==> #[trigger] fold(a[i]) == fold(b[i])
}

fn fold_code(c: char) -> (u: u32)
    ensures
        u == fold(c),
{
    let u = c as u32;
    if 65 <= u && u <= 90 {
        u + 32
    } else {
        u
    }
}

/// Whether two texts are equal up to ASCII case.
pub fn eq_ignoring_ascii_case(a: &str, b: &str) -> (r: bool)
    ensures
        r == same_ignoring_ascii_case(a@, b@),
{
    let x = str_chars(a);
    let y = str_chars(b);
    if x.len() != y.len() {
        return false;
    }
    let mut i: usize = 0;
    while i < x.len()
        invariant
            x@ == a@,
            y@ == b@,
            x.len() == y.len(),
            i <= x.len(),
            forall|j: int| 0 <= j < i ==> #[trigger] fold(x@[j]) == fold(y@[j]),
        decreases x.len() - i,
    {
        if fold_code(x[i]) != fold_code(y[i]) {
            return false;
        }
        i = i + 1;
    }
    true
}

// ─── Headers ───────────────────────────────────────────────────────────────

/// Text views of a list of header pairs.
pub open spec fn header_view(h: Seq<(String, String)>) -> Seq<(Seq<char>, Seq<char>)> {
    h.map_values(|p: (String, String)| (p.0@, p.1@))
}

/// Value of the first header whose name equals `name` up to ASCII case.
pub open spec fn header_lookup(h: Seq<(Seq<char>, Seq<char>)>, name: Seq<char>) -> Option<Seq<char>>
    decreases h.len(),
{
    if h.len() == 0 {
        None
    } else if same_ignoring_ascii_case(h[0].0, name) {
        Some(h[0].1)
    } else {
        header_lookup(h.drop_first(), name)
    }
}

proof fn lemma_lookup_skip(h: Seq<(Seq<char>, Seq<char>)>, i: int, name: Seq<char>)
    requires
        0 <= i < h.len(),
        !same_ignoring_ascii_case(h[i].0, name),
    ensures
        header_lookup(h.skip(i), name) == header_lookup(h.skip(i + 1), name),
{
    assert(h.skip(i).drop_first() =~= h.skip(i + 1));
}

/// Value of the first header named `name` (up to ASCII case).
pub fn header_value(headers: &Vec<(String, String)>, name: &str) -> (v: Option<String>)
    ensures
        v matches Some(s) ==> header_lookup(header_view(headers@), name@) == Some(s@),
        v is None ==> header_lookup(header_view(headers@), name@) is None,
{
    let ghost h = header_view(headers@);
    let mut i: usize = 0;
    assert(h.skip(0) =~= h);
    while i < headers.len()
        invariant
            h == header_view(headers@),
            h.len() == headers.len(),
            i <= headers.len(),
            header_lookup(h.skip(i as int), name@) == header_lookup(h, name@),
        decreases headers.len() - i,
    {
        assert(h[i as int] == (headers@[i as int].0@, headers@[i as int].1@));
        if eq_ignoring_ascii_case(headers[i].0.as_str(), name) {
            assert(h.skip(i as int)[0] == h[i as int]);
            return Some(copy_string(&headers[i].1));
        }
        proof {
            lemma_lookup_skip(h, i as int, name@);
        }
        i = i + 1;
    }
    assert(h.skip(headers.len() as int) =~= Seq::<(Seq<char>, Seq<char>)>::empty());
    None
}

// ─── CORS policy ───────────────────────────────────────────────────────────

/// Origin matching policy for CORS headers.
#[derive(Debug, Clone, PartialEq, Eq)]
pub enum CorsAllowOrigin {
    /// Allow any origin (`*`).
    Any,
    /// Allow only the provided set of explicit origins.
    Exact(Vec<String>),
}

/// CORS policy configuration.
#[derive(Debug, Clone, PartialEq, Eq)]
pub struct CorsPolicy {
    /// Allowed origins.
    pub allow_origin: CorsAllowOrigin,
    /// Allowed methods for preflight responses.
    pub allow_methods: Vec<String>,
    /// Allowed headers for preflight responses.
    pub allow_headers: Vec<String>,
    /// Exposed headers for non-preflight responses.
    pub expose_headers: Vec<String>,
    /// Optional max-age for preflight cache.
    pub max_age: Option<Duration>,
    /// Whether credentials are allowed.
    pub allow_credentials: bool,
}

/// Text views of a list of strings.
pub open spec fn texts(v: Seq<String>) -> Seq<Seq<char>> {
    v.map_values(|s: String| s@)
}

/// The default method list: `GET`, `POST`, `PUT`, `PATCH`, `DELETE`,
/// `HEAD`, `OPTIONS`.
pub open spec fn default_methods() -> Seq<Seq<char>> {
    seq!["GET"@, "POST"@, "PUT"@, "PATCH"@, "DELETE"@, "HEAD"@, "OPTIONS"@]
}

fn default_policy() -> (p: CorsPolicy)
    ensures
        p.allow_origin == CorsAllowOrigin::Any,
        texts(p.allow_methods@) == default_methods(),
        texts(p.allow_headers@) == seq!["*"@],
        p.expose_headers@.len() == 0,
        p.max_age matches Some(d) && duration_nanos(d) == 600_000_000_000,
        !p.allow_credentials,
{
    let methods = vec![
        owned("GET"),
        owned("POST"),
        owned("PUT"),
        owned("PATCH"),
        owned("DELETE"),
        owned("HEAD"),
        owned("OPTIONS"),
    ];
    let headers = vec![owned("*")];
    assert(texts(methods@) =~= default_methods());
    assert(texts(headers@) =~= seq!["*"@]);
    CorsPolicy {
        allow_origin: CorsAllowOrigin::Any,
        allow_methods: methods,
        allow_headers: headers,
        expose_headers: Vec::new(),
        max_age: Some(duration_from_secs(600)),
        allow_credentials: false,
    }
}

impl Default for CorsPolicy {
    /// Any origin, the common methods, any header, nothing exposed, a
    /// ten-minute preflight cache and no credentials.
    fn default() -> (p: Self)
        ensures
            p.allow_origin == CorsAllowOrigin::Any,
            texts(p.allow_methods@) == default_methods(),
            texts(p.allow_headers@) == seq!["*"@],
            p.expose_headers@.len() == 0,
            p.max_age matches Some(d) && duration_nanos(d) == 600_000_000_000,
            !p.allow_credentials,
    {
        default_policy()
    }
}

impl CorsPolicy {
    /// The default policy restricted to the given origins.
    pub fn with_exact_origins(origins: Vec<String>) -> (p: Self)
        ensures
            p.allow_origin == CorsAllowOrigin::Exact(origins),
            texts(p.allow_methods@) == default_methods(),
            texts(p.allow_headers@) == seq!["*"@],
            p.expose_headers@.len() == 0,
            p.max_age matches Some(d) && duration_nanos(d) == 600_000_000_000,
            !p.allow_credentials,
    {
        let base = default_policy();
        CorsPolicy { allow_origin: CorsAllowOrigin::Exact(origins), ..base }
    }
}

// ─── CORS decisions ────────────────────────────────────────────────────────

/// First entry of `l` equal to `origin` up to ASCII case.
pub open spec fn first_matching(l: Seq<Seq<char>>, origin: Seq<char>) -> Option<Seq<char>>
    decreases l.len(),
{
    if l.len() == 0 {
        None
    } else if same_ignoring_ascii_case(l[0], origin) {
        Some(l[0])
    } else {
        first_matching(l.drop_first(), origin)
    }
}

/// Value of the allow-origin header for a request origin, if the origin is
/// allowed: under `Any`, `*`, or the origin itself when credentials are
/// allowed; under `Exact`, the first listed origin equal to it up to ASCII
/// case.
pub open spec fn allowed_origin(p: CorsPolicy, origin: Seq<char>) -> Option<Seq<char>> {
    match p.allow_origin {
        CorsAllowOrigin::Any => if p.allow_credentials { Some(origin) } else { Some("*"@) },
        CorsAllowOrigin::Exact(list) => first_matching(texts(list@), origin),
    }
}

/// Headers added to every CORS response, in insertion order.
pub open spec fn common_headers(p: CorsPolicy, allow: Seq<char>) -> Seq<(Seq<char>, Seq<char>)> {
    seq![("access-control-allow-origin"@, allow), ("vary"@, "origin"@)]
        + (if p.allow_credentials {
            seq![("access-control-allow-credentials"@, "true"@)]
        } else {
            Seq::empty()
        })
        + (if p.expose_headers@.len() > 0 {
            seq![("access-control-expose-headers"@, joined(texts(p.expose_headers@), ", "@))]
        } else {
            Seq::empty()
        })
}

/// Headers of a preflight answer, in insertion order (a later header of
/// the same name replaces an earlier one).
pub open spec fn preflight_headers(p: CorsPolicy, allow: Seq<char>) -> Seq<(Seq<char>, Seq<char>)> {
    common_headers(p, allow)
        + seq![("access-control-allow-methods"@, joined(texts(p.allow_methods@), ", "@)),
            ("access-control-allow-headers"@, joined(texts(p.allow_headers@), ", "@))]
        + (match p.max_age {
            Some(d) => seq![("access-control-max-age"@, decimal((duration_nanos(d) / 1_000_000_000) as nat))],
            None => Seq::empty(),
        })
        + seq![("vary"@, "origin, access-control-request-method, access-control-request-headers"@)]
}

/// A preflight: an `OPTIONS` request (up to ASCII case) carrying both an
/// origin and a requested method.
pub open spec fn preflight(method: Seq<char>, h: Seq<(Seq<char>, Seq<char>)>) -> bool {
    &&& same_ignoring_ascii_case(method, "OPTIONS"@)
    &&& header_lookup(h, "origin"@) is Some
    &&& header_lookup(h, "access-control-request-method"@) is Some
}

/// What a CORS layer does with a request.
pub enum CorsPlan {
    /// Hand the request to the inner handler and return its response.
    PassThrough,
    /// Answer `204 No Content` with these headers without calling the inner
    /// handler.
    Preflight(Seq<(Seq<char>, Seq<char>)>),
    /// Call the inner handler and insert these headers into its response.
    Decorate(Seq<(Seq<char>, Seq<char>)>),
}

/// The CORS plan for a request: requests without an allowed origin pass
/// through untouched; a preflight is answered directly; any other request
/// is decorated.
pub open spec fn cors_plan(p: CorsPolicy, method: Seq<char>, h: Seq<(Seq<char>, Seq<char>)>) -> CorsPlan {
    match header_lookup(h, "origin"@) {
        None => CorsPlan::PassThrough,
        Some(origin) => match allowed_origin(p, origin) {
            None => CorsPlan::PassThrough,
            Some(allow) => if preflight(method, h) {
                CorsPlan::Preflight(preflight_headers(p, allow))
            } else {
                CorsPlan::Decorate(common_headers(p, allow))
            },
        },
    }
}

/// What a CORS layer does with a request, with the headers to set.
#[derive(Debug, Clone, PartialEq, Eq)]
pub enum CorsAction {
    /// Hand the request to the inner handler and return its response.
    PassThrough,
    /// Answer `204 No Content` with these headers without calling the inner
    /// handler.
    Preflight {
        /// Headers to insert, in order.
        headers: Vec<(String, String)>,
    },
    /// Call the inner handler and insert these headers into its response.
    Decorate {
        /// Headers to insert, in order.
        headers: Vec<(String, String)>,
    },
}

impl CorsAction {
    /// The plan this action carries out.
    pub open spec fn plan(self) -> CorsPlan {
        match self {
            CorsAction::PassThrough => CorsPlan::PassThrough,
            CorsAction::Preflight { headers } => CorsPlan::Preflight(header_view(headers@)),
            CorsAction::Decorate { headers } => CorsPlan::Decorate(header_view(headers@)),
        }
    }
}

fn push_header(v: &mut Vec<(String, String)>, name: &str, value: String)
    ensures
        header_view(final(v)@) == header_view(old(v)@).push((name@, value@)),
{
    v.push((owned(name), value));
    assert(header_view(v@) =~= header_view(old(v)@).push((name@, value@)));
}

fn joined_list(parts: &Vec<String>) -> (s: String)
    ensures
        s@ == joined(texts(parts@), ", "@),
{
    assert(parts.deep_view() =~= texts(parts@));
    join(parts, ", ")
}

fn first_matching_origin(list: &Vec<String>, origin: &str) -> (r: Option<String>)
    ensures
        r matches Some(s) ==> first_matching(texts(list@), origin@) == Some(s@),
        r is None ==> first_matching(texts(list@), origin@) is None,
{
    let ghost t = texts(list@);
    let mut i: usize = 0;
    assert(t.skip(0) =~= t);
    while i < list.len()
        invariant
            t == texts(list@),
            t.len() == list.len(),
            i <= list.len(),
            first_matching(t.skip(i as int), origin@) == first_matching(t, origin@),
        decreases list.len() - i,
    {
        assert(t.skip(i as int)[0] == list@[i as int]@);
        if eq_ignoring_ascii_case(list[i].as_str(), origin) {
            return Some(copy_string(&list[i]));
        }
        assert(t.skip(i as int).drop_first() =~= t.skip(i + 1));
        i = i + 1;
    }
    assert(t.skip(list.len() as int) =~= Seq::<Seq<char>>::empty());
    None
}

/// Middleware that applies a CORS policy and answers preflight requests.
pub struct CorsMiddleware<H> {
    inner: H,
    policy: CorsPolicy,
}

impl<H> CorsMiddleware<H> {
    /// Wraps a handler with a CORS policy.
    pub fn new(inner: H, policy: CorsPolicy) -> (m: Self)
        ensures
            m.inner() == inner,
            m.policy() == policy,
    {
        CorsMiddleware { inner, policy }
    }

    /// The wrapped handler.
    pub closed spec fn inner(self) -> H {
        self.inner
    }

    /// The policy applied.
    pub closed spec fn policy(self) -> CorsPolicy {
        self.policy
    }

    /// The wrapped handler.
    pub fn inner_handler(&self) -> (h: &H)
        ensures
            *h == self.inner(),
    {
        &self.inner
    }

    /// Value of the allow-origin header for a request origin, if allowed.
    pub fn allowed_origin_value(&self, origin: &str) -> (r: Option<String>)
        ensures
            r matches Some(s) ==> allowed_origin(self.policy(), origin@) == Some(s@),
            r is None ==> allowed_origin(self.policy(), origin@) is None,
    {
        match &self.policy.allow_origin {
            CorsAllowOrigin::Any => if self.policy.allow_credentials {
                Some(owned(origin))
            } else {
                Some(owned("*"))
            },
            CorsAllowOrigin::Exact(origins) => first_matching_origin(origins, origin),
        }
    }

    fn common_headers(&self, allow: &str) -> (v: Vec<(String, String)>)
        ensures
            header_view(v@) == common_headers(self.policy(), allow@),
    {
        let mut v: Vec<(String, String)> = Vec::new();
        push_header(&mut v, "access-control-allow-origin", owned(allow));
        push_header(&mut v, "vary", owned("origin"));
        if self.policy.allow_credentials {
            push_header(&mut v, "access-control-allow-credentials", owned("true"));
        }
        if self.policy.expose_headers.len() > 0 {
            push_header(&mut v, "access-control-expose-headers", joined_list(&self.policy.expose_headers));
        }
        assert(header_view(v@) =~= common_headers(self.policy(), allow@));
        v
    }

    /// What the layer does with a request of this method and headers.
    pub fn decide(&self, method: &str, headers: &Vec<(String, String)>) -> (a: CorsAction)
        ensures
            a.plan() == cors_plan(self.policy(), method@, header_view(headers@)),
    {
        let origin = match header_value(headers, "origin") {
            None => return CorsAction::PassThrough,
            Some(o) => o,
        };
        let allow = match self.allowed_origin_value(origin.as_str()) {
            None => return CorsAction::PassThrough,
            Some(a) => a,
        };
        let is_preflight = eq_ignoring_ascii_case(method, "OPTIONS")
            && header_value(headers, "origin").is_some()
            && header_value(headers, "access-control-request-method").is_some();
        let mut v = self.common_headers(allow.as_str());
        if !is_preflight {
            return CorsAction::Decorate { headers: v };
        }
        push_header(&mut v, "access-control-allow-methods", joined_list(&self.policy.allow_methods));
        push_header(&mut v, "access-control-allow-headers", joined_list(&self.policy.allow_headers));
        match &self.policy.max_age {
            Some(d) => {
                let secs = duration_secs(d);
                push_header(&mut v, "access-control-max-age", decimal_text(secs));
            },
            None => {},
        }
        push_header(&mut v, "vary", owned("origin, access-control-request-method, access-control-request-headers"));
        assert(header_view(v@) =~= preflight_headers(self.policy(), allow@));
        CorsAction::Preflight { headers: v }
    }
}

/// Middleware that enforces a request deadline.
pub struct TimeoutMiddleware<H> {
    inner: H,
    timeout: Duration,
}

impl<H> TimeoutMiddleware<H> {
    /// Wraps a handler with a timeout.
    pub fn new(inner: H, timeout: Duration) -> (m: Self)
        ensures
            m.inner() == inner,
            m.timeout() == timeout,
    {
        TimeoutMiddleware { inner, timeout }
    }

    /// The wrapped handler.
    pub closed spec fn inner(self) -> H {
        self.inner
    }

    /// The deadline.
    pub closed spec fn timeout(self) -> Duration {
        self.timeout
    }

    /// The deadline.
    pub fn deadline(&self) -> (d: Duration)
        ensures
            d == self.timeout(),
    {
        self.timeout
    }

    /// Whether a handler that ran for `elapsed` overran the deadline.
    pub fn overran(&self, elapsed: &Duration) -> (b: bool)
        ensures
            b == (duration_nanos(*elapsed) > duration_nanos(self.timeout())),
    {
        crate::messaging::service::nanos_of(elapsed) > crate::messaging::service::nanos_of(&self.timeout)
    }
}

/// Builder that composes middleware layers around a handler, the layer
/// added last being the outermost.
pub struct MiddlewareStack<H> {
    inner: H,
}

impl<H> MiddlewareStack<H> {
    /// Starts a stack around a handler.
    pub fn new(inner: H) -> (s: Self)
        ensures
            s.handler() == inner,
    {
        MiddlewareStack { inner }
    }

    /// The handler built so far.
    pub closed spec fn handler(self) -> H {
        self.inner
    }

    /// Wraps the stack in a timeout layer.
    pub fn with_timeout(self, timeout: Duration) -> (s: MiddlewareStack<TimeoutMiddleware<H>>)
        ensures
            s.handler().inner() == self.handler(),
            s.handler().timeout() == timeout,
    {
        MiddlewareStack { inner: TimeoutMiddleware::new(self.inner, timeout) }
    }

    /// Wraps the stack in a CORS layer.
    pub fn with_cors(self, policy: CorsPolicy) -> (s: MiddlewareStack<CorsMiddleware<H>>)
        ensures
            s.handler().inner() == self.handler(),
            s.handler().policy() == policy,
    {
        MiddlewareStack { inner: CorsMiddleware::new(self.inner, policy) }
    }

    /// The composed handler.
    pub fn build(self) -> (h: H)
        ensures
            h == self.handler(),
    {
        self.inner
    }
}

/// A request without an origin header, or whose origin the policy does not
/// allow, is handed to the inner handler untouched.
pub proof fn law_disallowed_origin_passes_through(p: CorsPolicy, method: Seq<char>, h: Seq<(Seq<char>, Seq<char>)>)
    requires
        header_lookup(h, "origin"@) matches Some(o) ==> allowed_origin(p, o) is None,
    ensures
        cors_plan(p, method, h) == CorsPlan::PassThrough,
{
}

/// A preflight from an allowed origin is answered without the inner
/// handler, and every CORS answer first sets the allowed origin and
/// `vary: origin`.
pub proof fn law_allowed_origin_is_answered(p: CorsPolicy, method: Seq<char>, h: Seq<(Seq<char>, Seq<char>)>, o: Seq<char>, allow: Seq<char>)
    requires
        header_lookup(h, "origin"@) == Some(o),
        allowed_origin(p, o) == Some(allow),
    ensures
        preflight(method, h) ==> cors_plan(p, method, h) is Preflight,
        !preflight(method, h) ==> cors_plan(p, method, h) is Decorate,
        cors_plan(p, method, h) matches CorsPlan::Preflight(hs) ==> hs[0] == ("access-control-allow-origin"@, allow)
            && hs[1] == ("vary"@, "origin"@),
        cors_plan(p, method, h) matches CorsPlan::Decorate(hs) ==> hs[0] == ("access-control-allow-origin"@, allow)
            && hs[1] == ("vary"@, "origin"@),
{
}

} // verus!
