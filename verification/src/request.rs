//! The request context and the clonable request handle.
//!
//! A context holds the immutable wire-derived data of one request plus
//! its two mutable slots: the take-once body stream and the
//! populate-once derived-value caches. Handles share one context by
//! reference count; every mutation goes through a lock whose invariant
//! ties each cached value to the context's immutable fields, so every
//! holder observes the same committed computation.
use vstd::prelude::*;
use vstd::rwlock::{RwLock, RwLockPredicate};
use vstd::string::{StringExecFns, StrSliceExecFns};

use crate::conninfo::{opt_str_view, spec_host, spec_scheme, ConnectionInfo};
use crate::cookies::{
    clone_entries, entry_views, find_cookie, find_entry, parse_cookie_header_values,
    parse_cookie_headers, str_views, CookieEntry,
};
use crate::error::{CookieParseError, UrlGenerationError};
use crate::extensions::Extensions;
use crate::headers::{values_for, HeaderList};
use crate::payload::Payload;
use crate::query::{form_pairs_of, pairs_map, parse_query, QueryMap};
use crate::router::{spec_resource_path, Params, Resource, Router};
use crate::urlgen::{url_normalized, GeneratedUrl};
use crate::strutil::{find_char, find_char_in};

verus! {

/// The protocol version a request arrived under.
#[derive(Clone, Copy, Debug, PartialEq, Eq, Structural)]
pub enum Version {
    Http09,
    Http10,
    Http11,
    H2,
    H3,
}

impl Version {
    /// The conventional rendering of the version.
    pub fn as_str(&self) -> (r: &str)
        ensures
            r@ == self.spec_str(),
    {
        match self {
            Version::Http09 => "HTTP/0.9",
            Version::Http10 => "HTTP/1.0",
            Version::Http11 => "HTTP/1.1",
            Version::H2 => "HTTP/2.0",
            Version::H3 => "HTTP/3.0",
        }
    }

    pub open spec fn spec_str(self) -> Seq<char> {
        match self {
            Version::Http09 => "HTTP/0.9"@,
            Version::Http10 => "HTTP/1.0"@,
            Version::Http11 => "HTTP/1.1"@,
            Version::H2 => "HTTP/2.0"@,
            Version::H3 => "HTTP/3.0"@,
        }
    }
}

/// The request path of a target: everything before the first `?`.
pub open spec fn uri_path(t: Seq<char>) -> Seq<char> {
    match find_char(t, '?') {
        None => t,
        Some(j) => t.take(j),
    }
}

/// The raw query string of a target: everything after the first `?`,
/// empty when the target has none.
pub open spec fn uri_query(t: Seq<char>) -> Seq<char> {
    match find_char(t, '?') {
        None => Seq::empty(),
        Some(j) => t.skip(j + 1),
    }
}

/// The view of an optional payload, by its chunk contents alone.
pub open spec fn payload_chunks(p: Option<Payload>) -> Option<Seq<Seq<u8>>> {
    match p {
        Some(x) => Some(x@.chunks),
        None => None,
    }
}

/// The mutable slots of a context, guarded by its lock.
pub struct CtxCaches {
    /// The body stream, until it is taken.
    pub payload: Option<Payload>,
    /// Whether the body stream has been extracted already.
    pub payload_taken: bool,
    /// The decoded query map, once computed.
    pub query_cache: Option<QueryMap>,
    /// The parsed cookie list, once computed successfully.
    pub cookie_cache: Option<Vec<CookieEntry>>,
    /// The derived connection info, once computed.
    pub info_cache: Option<ConnectionInfo>,
    /// Arbitrary user-attached values.
    pub extensions: Extensions,
}

/// The lock invariant of a context: whatever is cached is the one value
/// the immutable request data determines, and the body slot still holds
/// the original stream until it is taken.
pub struct CachePred {
    pub headers: Seq<(Seq<char>, Seq<char>)>,
    pub query: Seq<char>,
    pub peer: Option<Seq<char>>,
    pub payload: Option<Seq<Seq<u8>>>,
}

impl RwLockPredicate<CtxCaches> for CachePred {
    open spec fn inv(self, c: CtxCaches) -> bool {
        &&& (match c.cookie_cache {
            Some(cs) => parse_cookie_headers(values_for(self.headers, "cookie"@)) == Ok::<
                _,
                Seq<char>,
            >(entry_views(cs@)),
            None => true,
        })
        &&& (match c.query_cache {
            Some(q) => q@ == pairs_map(form_pairs_of(self.query)),
            None => true,
        })
        &&& (match c.info_cache {
            Some(ci) => ci@ == (spec_scheme(self.headers), spec_host(self.headers, self.peer)),
            None => true,
        })
        &&& (if c.payload_taken {
            c.payload is None
        } else {
            payload_chunks(c.payload) == self.payload
        })
    }
}

/// Immutable wire-derived data of one request, plus the locked slots.
/// Created once per inbound request and shared by every handle clone.
pub struct RequestContext {
    headers: HeaderList,
    method: String,
    version: Version,
    target: String,
    peer: Option<String>,
    params: Params,
    caches: RwLock<CtxCaches, CachePred>,
}

impl RequestContext {
    /// The lock's invariant speaks of this context's own fields.
    pub closed spec fn wf(&self) -> bool {
        &&& self.caches.pred().headers == self.headers@
        &&& self.caches.pred().query == uri_query(self.target@)
        &&& self.caches.pred().peer == opt_str_view(self.peer)
    }

    pub closed spec fn spec_headers(&self) -> Seq<(Seq<char>, Seq<char>)> {
        self.headers@
    }

    pub closed spec fn spec_method(&self) -> Seq<char> {
        self.method@
    }

    pub closed spec fn spec_version(&self) -> Version {
        self.version
    }

    pub closed spec fn spec_target(&self) -> Seq<char> {
        self.target@
    }

    pub closed spec fn spec_peer(&self) -> Option<Seq<char>> {
        opt_str_view(self.peer)
    }

    pub closed spec fn spec_params(&self) -> Seq<(Seq<char>, Seq<char>)> {
        self.params@
    }

    /// The chunks the body stream was created with, if one was supplied.
    pub closed spec fn original_chunks(&self) -> Option<Seq<Seq<u8>>> {
        self.caches.pred().payload
    }

    /// Assemble a context from already-parsed wire data. The transport
    /// supplies the body stream here, or none for a bodiless request.
    pub fn new(
        headers: HeaderList,
        method: String,
        version: Version,
        target: String,
        peer: Option<String>,
        params: Params,
        payload: Option<Payload>,
    ) -> (r: RequestContext)
        ensures
            r.wf(),
            r.spec_headers() == headers@,
            r.spec_method() == method@,
            r.spec_version() == version,
            r.spec_target() == target@,
            r.spec_peer() == opt_str_view(peer),
            r.spec_params() == params@,
            r.original_chunks() == payload_chunks(payload),
    {
        let ghost pred = CachePred {
            headers: headers@,
            query: uri_query(target@),
            peer: opt_str_view(peer),
            payload: payload_chunks(payload),
        };
        let slots = CtxCaches {
            payload,
            payload_taken: false,
            query_cache: None,
            cookie_cache: None,
            info_cache: None,
            extensions: Extensions::new(),
        };
        let caches = RwLock::new(slots, Ghost(pred));
        RequestContext { headers, method, version, target, peer, params, caches }
    }
}

/// Per-application data a handle carries beside the context: the shared
/// application state, the routing table, and the matched route, if any.
pub struct RequestState<S> {
    state: S,
    router: Router,
    resource: Option<Resource>,
}

impl<S> RequestState<S> {
    pub closed spec fn spec_state(&self) -> S {
        self.state
    }

    pub closed spec fn spec_router(&self) -> Router {
        self.router
    }

    pub closed spec fn spec_resource(&self) -> Option<Resource> {
        self.resource
    }

    /// Whether the routing table's own invariant holds.
    pub open spec fn wf(&self) -> bool {
        self.spec_router().inv()
    }

    pub fn new(state: S, router: Router, resource: Option<Resource>) -> (r: RequestState<S>)
        requires
            router.inv(),
        ensures
            r.spec_state() == state,
            r.spec_router() == router,
            r.spec_resource() == resource,
            r.wf(),
    {
        RequestState { state, router, resource }
    }
}

/// Relies on `std::rc::Rc::clone`: the clone shares the allocation of
/// the original, so it denotes the same value; no data is copied.
#[verifier::external_body]
fn rc_clone<T>(rc: &std::rc::Rc<T>) -> (r: std::rc::Rc<T>)
    ensures
        r == *rc,
{
    std::rc::Rc::clone(rc)
}

/// The request handle handed to application code: a shared reference to
/// the request context plus a shared reference to the per-application
/// state. Cloning copies the two references, never the data.
pub struct HttpRequest<S> {
    msg: std::rc::Rc<RequestContext>,
    state: std::rc::Rc<RequestState<S>>,
}

impl<S> HttpRequest<S> {
    /// The shared context this handle refers to.
    pub closed spec fn ctx(&self) -> RequestContext {
        *self.msg
    }

    /// The shared per-application data this handle refers to.
    pub closed spec fn app(&self) -> RequestState<S> {
        *self.state
    }

    /// Both shared parts satisfy their invariants.
    pub open spec fn wf(&self) -> bool {
        self.ctx().wf() && self.app().wf()
    }

    /// Wrap a context and application state into a handle.
    pub fn from_state(msg: RequestContext, state: RequestState<S>) -> (r: HttpRequest<S>)
        requires
            msg.wf(),
            state.wf(),
        ensures
            r.ctx() == msg,
            r.app() == state,
            r.wf(),
    {
        HttpRequest { msg: std::rc::Rc::new(msg), state: std::rc::Rc::new(state) }
    }

    /// Shared application state.
    pub fn state(&self) -> (r: &S)
        ensures
            r == self.app().spec_state(),
    {
        &self.state.state
    }

    /// The routing table the application was configured with.
    pub fn router(&self) -> (r: &Router)
        ensures
            r == self.app().spec_router(),
    {
        &self.state.router
    }

    /// The matched route descriptor, if the router recorded one.
    pub fn resource(&self) -> (r: Option<&Resource>)
        ensures
            match r {
                Some(res) => self.app().spec_resource() == Some(*res),
                None => self.app().spec_resource() is None,
            },
    {
        match &self.state.resource {
            Some(res) => Some(res),
            None => None,
        }
    }

    /// Read-only view of the request headers.
    pub fn headers(&self) -> (r: &HeaderList)
        ensures
            r@ == self.ctx().spec_headers(),
    {
        &self.msg.headers
    }

    /// The request method.
    pub fn method(&self) -> (r: &str)
        ensures
            r@ == self.ctx().spec_method(),
    {
        self.msg.method.as_str()
    }

    /// The request version.
    pub fn version(&self) -> (r: Version)
        ensures
            r == self.ctx().spec_version(),
    {
        self.msg.version
    }

    /// The raw request target, path and query as received.
    pub fn uri(&self) -> (r: &str)
        ensures
            r@ == self.ctx().spec_target(),
    {
        self.msg.target.as_str()
    }

    /// The target path of this request: the target up to the first `?`.
    pub fn path(&self) -> (r: &str)
        ensures
            r@ == uri_path(self.ctx().spec_target()),
    {
        let t = self.msg.target.as_str();
        match find_char_in(t, '?') {
            None => t,
            Some(j) => {
                proof {
                    crate::strutil::lemma_find_char(t@, '?');
                }
                t.substring_char(0, j)
            },
        }
    }

    /// The query string in the target, empty when there is none.
    pub fn query_string(&self) -> (r: &str)
        ensures
            r@ == uri_query(self.ctx().spec_target()),
    {
        let t = self.msg.target.as_str();
        let n = t.unicode_len();
        match find_char_in(t, '?') {
            None => {
                let r = "";
                proof {
                    reveal_strlit("");
                    assert(r@ =~= Seq::<char>::empty());
                }
                r
            },
            Some(j) => {
                proof {
                    crate::strutil::lemma_find_char(t@, '?');
                }
                t.substring_char(j + 1, n)
            },
        }
    }

    /// Peer socket endpoint, if the transport supplied one.
    pub fn peer_addr(&self) -> (r: Option<&String>)
        ensures
            match r {
                Some(p) => self.ctx().spec_peer() == Some(p@),
                None => self.ctx().spec_peer() is None,
            },
    {
        match &self.msg.peer {
            Some(p) => Some(p),
            None => None,
        }
    }

    /// Path parameters matched out of the request path.
    pub fn match_info(&self) -> (r: &Params)
        ensures
            r@ == self.ctx().spec_params(),
    {
        &self.msg.params
    }

    /// Extract the body stream. The first extraction over the shared
    /// context yields the stream the context was created with; the slot
    /// is emptied, so every later extraction, from whichever clone of
    /// the handle, yields the exhausted stream.
    pub fn take_payload(&self) -> (r: Payload)
        requires
            self.wf(),
        ensures
            match self.ctx().original_chunks() {
                Some(ch) => r@.chunks == ch || r@.chunks.len() == 0,
                None => r@.chunks.len() == 0,
            },
    {
        let (c, handle) = self.msg.caches.acquire_write();
        let (after, r) = extract_payload(c);
        handle.release_write(after);
        r
    }

    /// Forward a buffering hint to the body stream; once the payload has
    /// been taken there is nothing left to hint and the call does
    /// nothing. The stream's data is never affected.
    pub fn set_read_buffer_capacity(&self, cap: usize)
        requires
            self.wf(),
    {
        let (c, handle) = self.msg.caches.acquire_write();
        let CtxCaches { payload, payload_taken, query_cache, cookie_cache, info_cache, extensions }
            = c;
        let payload = match payload {
            Some(mut p) => {
                p.set_read_buffer_capacity(cap);
                Some(p)
            },
            None => None,
        };
        let after = CtxCaches {
            payload,
            payload_taken,
            query_cache,
            cookie_cache,
            info_cache,
            extensions,
        };
        handle.release_write(after);
    }
}

/// What URL generation yields for a handle: the named route is
/// resolved; a resolved path (leading `/`) is made absolute with the
/// connection's scheme and host, an already-absolute resolved value is
/// kept as it stands; the result is the normalized parse of that
/// string, and any resolution or syntax failure is the corresponding
/// error.
pub open spec fn spec_url_for<S>(
    req: HttpRequest<S>,
    name: Seq<char>,
    vals: Seq<Seq<char>>,
) -> Result<Seq<char>, UrlGenerationError> {
    match spec_resource_path(req.app().spec_router()@, name, vals) {
        Err(e) => Err(e),
        Ok(path) => {
            let full = if path.len() > 0 && path[0] == '/' {
                spec_scheme(req.ctx().spec_headers()) + "://"@ + spec_host(
                    req.ctx().spec_headers(),
                    req.ctx().spec_peer(),
                ) + path
            } else {
                path
            };
            match url_normalized(full) {
                Some(u) => Ok(u),
                None => Err(UrlGenerationError::UrlParse),
            }
        },
    }
}

/// One rendered `name: value` line per entry, indented, in order.
pub open spec fn dump_pairs(s: Seq<(Seq<char>, Seq<char>)>) -> Seq<char>
    decreases s.len(),
{
    if s.len() == 0 {
        Seq::empty()
    } else {
        "    "@ + s[0].0 + ": "@ + s[0].1 + "\n"@ + dump_pairs(s.skip(1))
    }
}

/// The diagnostic rendering of a handle: version, method and path on
/// the first line, then the query string, the path parameters and the
/// headers, each when present. Meant for logs, not for the wire.
pub open spec fn spec_debug_dump<S>(req: HttpRequest<S>) -> Seq<char> {
    let head = "\nHttpRequest "@ + req.ctx().spec_version().spec_str() + " "@
        + req.ctx().spec_method() + ":"@ + uri_path(req.ctx().spec_target()) + "\n"@;
    let q = uri_query(req.ctx().spec_target());
    let qpart = if q.len() > 0 {
        "  query: ?"@ + q + "\n"@
    } else {
        Seq::<char>::empty()
    };
    let ppart = if req.ctx().spec_params().len() > 0 {
        "  params:\n"@ + dump_pairs(req.ctx().spec_params())
    } else {
        Seq::<char>::empty()
    };
    head + qpart + ppart + "  headers:\n"@ + dump_pairs(req.ctx().spec_headers())
}

fn dump_headers_from(h: &HeaderList, i: usize) -> (r: String)
    requires
        i <= h@.len(),
    ensures
        r@ == dump_pairs(h@.skip(i as int)),
    decreases h@.len() - i,
{
    if i == h.len() {
        let r = String::new();
        proof {
            assert(h@.skip(i as int) =~= Seq::<(Seq<char>, Seq<char>)>::empty());
        }
        r
    } else {
        proof {
            assert(h@.skip(i as int)[0] == h@[i as int]);
            assert(h@.skip(i as int).skip(1) =~= h@.skip(i as int + 1));
        }
        let mut out = "    ".to_owned();
        out.append(h.name_at(i).as_str());
        out.append(": ");
        out.append(h.value_at(i).as_str());
        out.append("\n");
        let rest = dump_headers_from(h, i + 1);
        out.append(rest.as_str());
        proof {
            assert(out@ =~= dump_pairs(h@.skip(i as int)));
        }
        out
    }
}

fn dump_params_from(p: &Params, i: usize) -> (r: String)
    requires
        i <= p@.len(),
    ensures
        r@ == dump_pairs(p@.skip(i as int)),
    decreases p@.len() - i,
{
    if i == p.len() {
        let r = String::new();
        proof {
            assert(p@.skip(i as int) =~= Seq::<(Seq<char>, Seq<char>)>::empty());
        }
        r
    } else {
        proof {
            assert(p@.skip(i as int)[0] == p@[i as int]);
            assert(p@.skip(i as int).skip(1) =~= p@.skip(i as int + 1));
        }
        let mut out = "    ".to_owned();
        out.append(p.key_at(i).as_str());
        out.append(": ");
        out.append(p.value_at(i).as_str());
        out.append("\n");
        let rest = dump_params_from(p, i + 1);
        out.append(rest.as_str());
        proof {
            assert(out@ =~= dump_pairs(p@.skip(i as int)));
        }
        out
    }
}

impl<S> HttpRequest<S> {
    /// Connection scheme and host, computed from the forwarding
    /// headers, the `Host` header and the peer address, and cached on
    /// the shared context once computed.
    pub fn connection_info(&self) -> (r: ConnectionInfo)
        requires
            self.wf(),
        ensures
            r@ == (
                spec_scheme(self.ctx().spec_headers()),
                spec_host(self.ctx().spec_headers(), self.ctx().spec_peer()),
            ),
    {
        let (c, handle) = self.msg.caches.acquire_write();
        let CtxCaches { payload, payload_taken, query_cache, cookie_cache, info_cache, extensions }
            = c;
        let (r, info_cache) = match info_cache {
            Some(ci) => {
                let r = ci.clone();
                (r, Some(ci))
            },
            None => {
                let ci = ConnectionInfo::derive(&self.msg.headers, &self.msg.peer);
                let r = ci.clone();
                (r, Some(ci))
            },
        };
        let after = CtxCaches {
            payload,
            payload_taken,
            query_cache,
            cookie_cache,
            info_cache,
            extensions,
        };
        handle.release_write(after);
        r
    }

    /// The parsed cookie list of this request: all `Cookie` header
    /// values in header order, split, trimmed and decoded. A successful
    /// parse is computed once per context and cached; a failure is
    /// returned and never cached, so a later call may retry.
    pub fn cookies(&self) -> (r: Result<Vec<CookieEntry>, CookieParseError>)
        requires
            self.wf(),
        ensures
            match r {
                Ok(cs) => parse_cookie_headers(values_for(self.ctx().spec_headers(), "cookie"@))
                    == Ok::<_, Seq<char>>(entry_views(cs@)),
                Err(e) => parse_cookie_headers(values_for(self.ctx().spec_headers(), "cookie"@))
                    == Err::<Seq<(Seq<char>, Seq<char>)>, _>(e.segment@),
            },
    {
        let (c, handle) = self.msg.caches.acquire_write();
        let CtxCaches { payload, payload_taken, query_cache, cookie_cache, info_cache, extensions }
            = c;
        match cookie_cache {
            Some(cs) => {
                let r = clone_entries(&cs);
                let after = CtxCaches {
                    payload,
                    payload_taken,
                    query_cache,
                    cookie_cache: Some(cs),
                    info_cache,
                    extensions,
                };
                handle.release_write(after);
                Ok(r)
            },
            None => {
                let vals = self.msg.headers.get_all("cookie");
                proof {
                    assert(str_views(vals@) =~= values_for(self.ctx().spec_headers(), "cookie"@));
                }
                match parse_cookie_header_values(&vals) {
                    Ok(cs) => {
                        let r = clone_entries(&cs);
                        let after = CtxCaches {
                            payload,
                            payload_taken,
                            query_cache,
                            cookie_cache: Some(cs),
                            info_cache,
                            extensions,
                        };
                        handle.release_write(after);
                        Ok(r)
                    },
                    Err(e) => {
                        let after = CtxCaches {
                            payload,
                            payload_taken,
                            query_cache,
                            cookie_cache: None,
                            info_cache,
                            extensions,
                        };
                        handle.release_write(after);
                        Err(e)
                    },
                }
            },
        }
    }

    /// The first cookie named `name` (exact, case-sensitive), or none
    /// when no such cookie exists or the cookie headers do not parse.
    pub fn cookie(&self, name: &str) -> (r: Option<CookieEntry>)
        requires
            self.wf(),
        ensures
            match r {
                Some(c) => parse_cookie_headers(values_for(self.ctx().spec_headers(), "cookie"@))
                    is Ok && find_cookie(
                    parse_cookie_headers(values_for(self.ctx().spec_headers(), "cookie"@))->Ok_0,
                    name@,
                ) == Some(c@),
                None => parse_cookie_headers(values_for(self.ctx().spec_headers(), "cookie"@))
                    is Err || find_cookie(
                    parse_cookie_headers(values_for(self.ctx().spec_headers(), "cookie"@))->Ok_0,
                    name@,
                ) is None,
            },
    {
        match self.cookies() {
            Ok(cs) => match find_entry(&cs, name) {
                Some(c) => Some(c.clone()),
                None => None,
            },
            Err(_) => None,
        }
    }

    /// The decoded query map of this request, computed from the query
    /// string once per context and cached; duplicate keys resolve to
    /// the last occurrence.
    pub fn query(&self) -> (r: QueryMap)
        requires
            self.wf(),
        ensures
            r@ == pairs_map(form_pairs_of(uri_query(self.ctx().spec_target()))),
    {
        let (c, handle) = self.msg.caches.acquire_write();
        let CtxCaches { payload, payload_taken, query_cache, cookie_cache, info_cache, extensions }
            = c;
        let (r, query_cache) = match query_cache {
            Some(q) => {
                let r = q.clone();
                (r, Some(q))
            },
            None => {
                let q = parse_query(self.query_string());
                let r = q.clone();
                (r, Some(q))
            },
        };
        let after = CtxCaches {
            payload,
            payload_taken,
            query_cache,
            cookie_cache,
            info_cache,
            extensions,
        };
        handle.release_write(after);
        r
    }

    /// A snapshot of the user property bag. The bag is shared state on
    /// the context: the snapshot is one consistent value of it, and
    /// writes from any clone are visible to later readers.
    pub fn extensions(&self) -> (r: Extensions)
        requires
            self.wf(),
    {
        let (c, handle) = self.msg.caches.acquire_write();
        let r = c.extensions.clone();
        handle.release_write(c);
        r
    }

    /// Store a user value on the shared context, shadowing any earlier
    /// value under the same tag.
    pub fn extensions_insert(&self, tag: u64, value: Vec<u8>)
        requires
            self.wf(),
    {
        let (c, handle) = self.msg.caches.acquire_write();
        let CtxCaches { payload, payload_taken, query_cache, cookie_cache, info_cache, extensions }
            = c;
        let mut extensions = extensions;
        extensions.insert(tag, value);
        let after = CtxCaches {
            payload,
            payload_taken,
            query_cache,
            cookie_cache,
            info_cache,
            extensions,
        };
        handle.release_write(after);
    }

    /// Generate the URL of the named route from positional segment
    /// values, exactly as [`spec_url_for`] states.
    pub fn url_for(&self, name: &str, elements: &Vec<String>) -> (r: Result<
        GeneratedUrl,
        UrlGenerationError,
    >)
        requires
            self.wf(),
        ensures
            match r {
                Ok(u) => spec_url_for(*self, name@, str_views(elements@)) == Ok::<
                    _,
                    UrlGenerationError,
                >(u@),
                Err(e) => spec_url_for(*self, name@, str_views(elements@)) == Err::<Seq<char>, _>(
                    e,
                ),
            },
    {
        match self.state.router.resource_path(name, elements) {
            Err(e) => Err(e),
            Ok(path) => {
                let n = path.as_str().unicode_len();
                let absolute_path = n > 0 && path.as_str().get_char(0) == '/';
                let full: String = if absolute_path {
                    let conn = self.connection_info();
                    let mut f = conn.scheme().to_owned();
                    f.append("://");
                    f.append(conn.host());
                    f.append(path.as_str());
                    f
                } else {
                    path
                };
                match crate::urlgen::parse_url(full.as_str()) {
                    Some(u) => Ok(GeneratedUrl::from_string(u)),
                    None => Err(UrlGenerationError::UrlParse),
                }
            },
        }
    }

    /// Generate the URL of a named route that takes no segment values:
    /// the same as [`Self::url_for`] with an empty value list.
    pub fn url_for_static(&self, name: &str) -> (r: Result<GeneratedUrl, UrlGenerationError>)
        requires
            self.wf(),
        ensures
            match r {
                Ok(u) => spec_url_for(*self, name@, Seq::<Seq<char>>::empty()) == Ok::<
                    _,
                    UrlGenerationError,
                >(u@),
                Err(e) => spec_url_for(*self, name@, Seq::<Seq<char>>::empty()) == Err::<
                    Seq<char>,
                    _,
                >(e),
            },
    {
        let vals: Vec<String> = Vec::new();
        let r = self.url_for(name, &vals);
        proof {
            assert(str_views(vals@) =~= Seq::<Seq<char>>::empty());
        }
        r
    }

    /// The human-readable multi-line rendering of this request, for
    /// logs: exactly [`spec_debug_dump`].
    pub fn debug_dump(&self) -> (r: String)
        ensures
            r@ == spec_debug_dump(*self),
    {
        let mut out = "\nHttpRequest ".to_owned();
        out.append(self.version().as_str());
        out.append(" ");
        out.append(self.method());
        out.append(":");
        out.append(self.path());
        out.append("\n");
        let q = self.query_string();
        if q.unicode_len() > 0 {
            out.append("  query: ?");
            out.append(q);
            out.append("\n");
        }
        let params = self.match_info();
        if !params.is_empty() {
            out.append("  params:\n");
            let p = dump_params_from(params, 0);
            out.append(p.as_str());
            proof {
                assert(self.ctx().spec_params().skip(0) =~= self.ctx().spec_params());
            }
        }
        out.append("  headers:\n");
        let h = dump_headers_from(self.headers(), 0);
        out.append(h.as_str());
        proof {
            assert(self.ctx().spec_headers().skip(0) =~= self.ctx().spec_headers());
            assert(out@ =~= spec_debug_dump(*self));
        }
        out
    }
}

/// The one transition a body extraction performs on the shared slots:
/// it leaves exactly [`after_take`] of what it found, and hands back
/// the stream that was in the slot, or the exhausted stream when the
/// slot was already empty.
fn extract_payload(c: CtxCaches) -> (res: (CtxCaches, Payload))
    ensures
        res.0 == after_take(c),
        match c.payload {
            Some(p) => res.1 == p,
            None => res.1@.chunks.len() == 0,
        },
{
    let CtxCaches { payload, payload_taken, query_cache, cookie_cache, info_cache, extensions } = c;
    let r = match payload {
        Some(p) => p,
        None => Payload::empty(),
    };
    let after = CtxCaches {
        payload: None,
        payload_taken: true,
        query_cache,
        cookie_cache,
        info_cache,
        extensions,
    };
    (after, r)
}

/// The state of the shared slots after a body extraction, whatever it
/// found.
pub open spec fn after_take(c: CtxCaches) -> CtxCaches {
    CtxCaches {
        payload: None,
        payload_taken: true,
        query_cache: c.query_cache,
        cookie_cache: c.cookie_cache,
        info_cache: c.info_cache,
        extensions: c.extensions,
    }
}

/// Take-once: in any context state the lock can hold, a first
/// extraction finds exactly the body stream the context was created
/// with; the state it leaves satisfies the invariant again, holds no
/// stream, and hands every later extraction nothing — whichever handle
/// clone performs each call.
pub proof fn lemma_take_once(pred: CachePred, c: CtxCaches)
    requires
        pred.inv(c),
        !c.payload_taken,
    ensures
        payload_chunks(c.payload) == pred.payload,
        pred.inv(after_take(c)),
        after_take(c).payload is None,
        after_take(after_take(c)).payload is None,
{
}

/// Clones of one handle share one context, so the cookie lists any two
/// of them obtain are equal by value: each is the one parse of the
/// shared headers.
pub proof fn lemma_cookies_agree<S>(
    h1: HttpRequest<S>,
    h2: HttpRequest<S>,
    cs1: Seq<(Seq<char>, Seq<char>)>,
    cs2: Seq<(Seq<char>, Seq<char>)>,
)
    requires
        h1.ctx() == h2.ctx(),
        parse_cookie_headers(values_for(h1.ctx().spec_headers(), "cookie"@)) == Ok::<_, Seq<char>>(
            cs1,
        ),
        parse_cookie_headers(values_for(h2.ctx().spec_headers(), "cookie"@)) == Ok::<_, Seq<char>>(
            cs2,
        ),
    ensures
        cs1 == cs2,
{
}

/// Populate-once: any two cookie lists the cache may ever hold under
/// one context's invariant are equal by value — the cache commits a
/// single computation, whatever the interleaving of clones.
pub proof fn lemma_cache_single_value(pred: CachePred, c1: CtxCaches, c2: CtxCaches)
    requires
        pred.inv(c1),
        pred.inv(c2),
        c1.cookie_cache is Some,
        c2.cookie_cache is Some,
    ensures
        entry_views(c1.cookie_cache->0@) == entry_views(c2.cookie_cache->0@),
{
}

/// A route whose template has no variables generates the same URL for
/// every supplied value list as for the empty one, so the dedicated
/// no-values entry point is equivalent to the general one there.
pub proof fn lemma_url_for_static_equiv<S>(
    req: HttpRequest<S>,
    name: Seq<char>,
    vals: Seq<Seq<char>>,
)
    requires
        match crate::router::find_resource(req.app().spec_router()@.resources, name) {
            Some(res) => crate::router::var_count(crate::router::parse_template(res.pattern)) == 0,
            None => true,
        },
    ensures
        spec_url_for(req, name, vals) == spec_url_for(req, name, Seq::<Seq<char>>::empty()),
{
    match crate::router::find_resource(req.app().spec_router()@.resources, name) {
        Some(res) => {
            crate::router::lemma_resolve_no_vars(
                crate::router::parse_template(res.pattern),
                vals,
            );
        },
        None => {
        },
    }
}

impl<S> Clone for HttpRequest<S> {
    /// Cloning is shallow: the clone shares the same context and the
    /// same application state, by reference count alone.
    fn clone(&self) -> (r: Self)
        ensures
            r.ctx() == self.ctx(),
            r.app() == self.app(),
    {
        HttpRequest { msg: rc_clone(&self.msg), state: rc_clone(&self.state) }
    }
}

} // verus!
