//! Request routing state: the queue-to-shard routing map, queue-id
//! extraction, shard resolution, and the response-driven routing-map update.
//!
//! The routing map is a concurrent map from queue-id to shard port, held in a
//! `dashmap::DashMap` behind trusted wrappers. A queue is bound to the shard
//! that confirmed its creation and stays bound until the backend confirms its
//! deletion; every request that names the queue is routed back to that shard.

use vstd::prelude::*;
use vstd::string::StringExecFns;
use vstd::utf8::encode_utf8;
use crate::form::{find_queue_id, spec_find_queue_id};
use crate::handler::BackendPool;
use crate::health::Healthiness;
use crate::text::{
    ascii_chars,
    bytes_to_string_lossy,
    is_header_text,
    lossy_utf8,
    parse_u16,
    spec_decimal_digits,
    spec_header_text,
    spec_parse_u16,
    u16_to_string,
};

verus! {

#[verifier::external_type_specification]
#[verifier::external_body]
#[verifier::reject_recursive_types(K)]
#[verifier::reject_recursive_types(V)]
#[verifier::reject_recursive_types(S)]
pub struct ExDashMap<K, V, S>(dashmap::DashMap<K, V, S>);

/// The routing map: a concurrent map from queue-id to shard port.
pub type QueueMap = dashmap::DashMap<String, u16>;

/// What a routing map holds: the queue-ids it knows, each with its shard
/// port.
pub uninterp spec fn queue_map_contents(m: QueueMap) -> Map<Seq<char>, u16>;

/// Relies on `dashmap::DashMap::new`: a freshly created map is empty.
#[verifier::external_body]
pub fn queue_map_new() -> (r: QueueMap)
    ensures
        ({
            let fresh = r;
            queue_map_contents(fresh) == Map::<Seq<char>, u16>::empty()
        }),
{
    dashmap::DashMap::new()
}

/// Relies on `dashmap::DashMap::insert`: maps the key to the value and
/// returns the value the key was mapped to before, if any.
#[verifier::external_body]
pub(crate) fn queue_map_insert(m: &mut QueueMap, key: String, value: u16) -> (prev:
    Option<u16>)
    ensures
        queue_map_contents(*final(m)) == queue_map_contents(*old(m)).insert(key@, value),
        prev == (if queue_map_contents(*old(m)).contains_key(key@) {
            Some(queue_map_contents(*old(m))[key@])
        } else {
            None::<u16>
        }),
{
    m.insert(key, value)
}

/// Relies on `dashmap::DashMap::remove`: removes the key's entry and returns
/// its value, if the key was present.
#[verifier::external_body]
pub(crate) fn queue_map_remove(m: &mut QueueMap, key: &String) -> (removed: Option<
    u16,
>)
    ensures
        queue_map_contents(*final(m)) == queue_map_contents(*old(m)).remove(key@),
        removed == (if queue_map_contents(*old(m)).contains_key(key@) {
            Some(queue_map_contents(*old(m))[key@])
        } else {
            None::<u16>
        }),
{
    m.remove(key).map(|entry| entry.1)
}

/// Relies on `dashmap::DashMap::get`: returns the value the key is mapped to,
/// if any.
#[verifier::external_body]
pub fn queue_map_get(m: &QueueMap, key: &String) -> (r: Option<u16>)
    ensures
        r == (if queue_map_contents(*m).contains_key(key@) {
            Some(queue_map_contents(*m)[key@])
        } else {
            None::<u16>
        }),
{
    m.get(key).map(|entry| *entry)
}

/// Why a request could not be routed to a backend.
#[derive(Debug)]
pub enum BadBackendError {
    /// The client supplied a malformed routing signal: bad shard header, bad
    /// method, unreadable body, or no query string.
    BadRequest(String),
    /// The target backend is configured but its health cell is not `Healthy`.
    UnhealthyHost(String),
    /// The derived backend address is not in the configured pool.
    UnknownHost(String),
    /// The queue-id is missing from the form or query, or is not in the
    /// routing map.
    UnknownQueue(String),
}

/// The mathematical shape of a routing error: the same four variants over
/// character sequences.
pub enum BadBackendErrorView {
    BadRequest(Seq<char>),
    UnhealthyHost(Seq<char>),
    UnknownHost(Seq<char>),
    UnknownQueue(Seq<char>),
}

impl View for BadBackendError {
    type V = BadBackendErrorView;

    open spec fn view(&self) -> BadBackendErrorView {
        match self {
            BadBackendError::BadRequest(msg) => BadBackendErrorView::BadRequest(msg@),
            BadBackendError::UnhealthyHost(addr) => BadBackendErrorView::UnhealthyHost(addr@),
            BadBackendError::UnknownHost(addr) => BadBackendErrorView::UnknownHost(addr@),
            BadBackendError::UnknownQueue(q) => BadBackendErrorView::UnknownQueue(q@),
        }
    }
}

pub open spec fn spec_error_text(e: BadBackendErrorView) -> Seq<char> {
    match e {
        BadBackendErrorView::BadRequest(msg) => "Bad request: "@ + msg,
        BadBackendErrorView::UnhealthyHost(addr) => "Unhealthy backend: "@ + addr,
        BadBackendErrorView::UnknownHost(addr) => "Unknown backend: "@ + addr,
        BadBackendErrorView::UnknownQueue(q) => "Unknown queue-id: "@ + q,
    }
}

impl BadBackendError {
    /// The human-readable form of the error, as it appears in log lines.
    pub fn describe(&self) -> (r: String)
        ensures
            r@ == spec_error_text(self@),
    {
        match self {
            BadBackendError::BadRequest(msg) => String::from_str("Bad request: ").concat(
                msg.as_str(),
            ),
            BadBackendError::UnhealthyHost(addr) => String::from_str("Unhealthy backend: ").concat(
                addr.as_str(),
            ),
            BadBackendError::UnknownHost(addr) => String::from_str("Unknown backend: ").concat(
                addr.as_str(),
            ),
            BadBackendError::UnknownQueue(q) => String::from_str("Unknown queue-id: ").concat(
                q.as_str(),
            ),
        }
    }
}

/// An HTTP method as the routing logic distinguishes them: only `GET` and
/// `DELETE` carry queue-ids; any other method is named so it can be reported.
#[derive(Debug)]
pub enum Method {
    Get,
    Delete,
    Other(String),
}

/// Everything of an incoming HTTP request that routing reads: the method, the
/// URI path and query, the `x-tornado-shard` header value if present, all
/// header pairs (names lower-case), and the materialized body bytes — `None`
/// when the body could not be read.
pub struct ProxyRequest {
    pub method: Method,
    pub path: String,
    pub query: Option<String>,
    pub shard_header: Option<Vec<u8>>,
    pub headers: Vec<(Vec<u8>, Vec<u8>)>,
    pub body: Option<Vec<u8>>,
}

/// The queue-id lookup shared by the `GET` and `DELETE` paths: find the first
/// `queue_id` pair in the given bytes, then look the decoded value up in the
/// routing map.
pub open spec fn spec_lookup_queue(m: Map<Seq<char>, u16>, bytes: Seq<u8>) -> Result<
    u16,
    BadBackendErrorView,
> {
    match spec_find_queue_id(bytes) {
        None => Err(BadBackendErrorView::UnknownQueue("(missing)"@)),
        Some(qb) => {
            let q = lossy_utf8(qb);
            if m.contains_key(q) {
                Ok(m[q])
            } else {
                Err(BadBackendErrorView::UnknownQueue(q))
            }
        },
    }
}

/// The shard a request must go to, per the routing rules: a request for the
/// queue-creation path declares its shard in the `x-tornado-shard` header;
/// any other request names an existing queue in its query string (`GET`) or
/// form body (`DELETE`), and that queue's entry in the routing map decides.
pub open spec fn spec_get_port(m: Map<Seq<char>, u16>, req: ProxyRequest) -> Result<
    u16,
    BadBackendErrorView,
> {
    if req.path@ == "/api/v1/events/internal"@ {
        match req.shard_header {
            None => Err(BadBackendErrorView::BadRequest("No x-tornado-shard header"@)),
            Some(h) => if !spec_header_text(h@) {
                Err(BadBackendErrorView::BadRequest("Cannot convert header to string"@))
            } else {
                match spec_parse_u16(h@) {
                    None => Err(BadBackendErrorView::BadRequest("Failed to parse port as int"@)),
                    Some(port) => Ok(port),
                }
            },
        }
    } else {
        match req.method {
            Method::Delete => match req.body {
                None => Err(BadBackendErrorView::BadRequest("Failed to read request body"@)),
                Some(b) => spec_lookup_queue(m, b@),
            },
            Method::Get => match req.query {
                None => Err(BadBackendErrorView::BadRequest("No query string"@)),
                Some(q) => spec_lookup_queue(m, encode_utf8(q@)),
            },
            Method::Other(name) => Err(
                BadBackendErrorView::BadRequest("Unknown method "@ + name@),
            ),
        }
    }
}

pub open spec fn spec_result_view(r: Result<u16, BadBackendError>) -> Result<
    u16,
    BadBackendErrorView,
> {
    match r {
        Ok(port) => Ok(port),
        Err(e) => Err(e@),
    }
}

/// Resolves the shard port for a request, per `spec_get_port`.
pub fn get_port(queue_map: &QueueMap, request: &ProxyRequest) -> (r: Result<
    u16,
    BadBackendError,
>)
    ensures
        spec_result_view(r) == spec_get_port(queue_map_contents(*queue_map), *request),
{
    let internal = String::from_str("/api/v1/events/internal");
    if request.path == internal {
        match &request.shard_header {
            None => Err(BadBackendError::BadRequest(String::from_str("No x-tornado-shard header"))),
            Some(h) => {
                if !is_header_text(h.as_slice()) {
                    Err(
                        BadBackendError::BadRequest(
                            String::from_str("Cannot convert header to string"),
                        ),
                    )
                } else {
                    match parse_u16(h.as_slice()) {
                        None => Err(
                            BadBackendError::BadRequest(
                                String::from_str("Failed to parse port as int"),
                            ),
                        ),
                        Some(port) => Ok(port),
                    }
                }
            },
        }
    } else {
        let found = match &request.method {
            Method::Delete => match &request.body {
                None => {
                    return Err(
                        BadBackendError::BadRequest(String::from_str("Failed to read request body")),
                    );
                },
                Some(b) => find_queue_id(b.as_slice()),
            },
            Method::Get => match &request.query {
                None => {
                    return Err(BadBackendError::BadRequest(String::from_str("No query string")));
                },
                Some(q) => find_queue_id(q.as_str().as_bytes()),
            },
            Method::Other(name) => {
                return Err(
                    BadBackendError::BadRequest(
                        String::from_str("Unknown method ").concat(name.as_str()),
                    ),
                );
            },
        };
        match found {
            None => Err(BadBackendError::UnknownQueue(String::from_str("(missing)"))),
            Some(qb) => {
                let q = bytes_to_string_lossy(qb.as_slice());
                match queue_map_get(queue_map, &q) {
                    Some(port) => Ok(port),
                    None => Err(BadBackendError::UnknownQueue(q)),
                }
            },
        }
    }
}

/// The loopback address of a shard.
pub open spec fn spec_backend_address(port: u16) -> Seq<char> {
    "127.0.0.1:"@ + spec_decimal_digits(port as int)
}

/// Renders the loopback address of a shard.
pub fn backend_address(port: u16) -> (r: String)
    ensures
        r@ == spec_backend_address(port),
{
    let digits = u16_to_string(port);
    String::from_str("127.0.0.1:").concat(digits.as_str())
}

/// Resolves a request to `(shard port, backend address)`, or to the one
/// routing error that applies. Resolver totality: for every request this
/// returns either a well-formed pair whose address is in the configured pool,
/// or exactly the error below — the port resolution outcome is pinned by
/// `spec_get_port`, and when it yields a port, the result is `Ok` or
/// `UnhealthyHost` depending on the health value read from the backend's
/// cell, `UnknownHost` if the address is not configured. A request is never
/// routed to an address outside the pool.
pub fn choose_backend(
    pool: &BackendPool,
    queue_map: &QueueMap,
    request: &ProxyRequest,
) -> (r: Result<(u16, String), BadBackendError>)
    ensures
        ({
            let resolved = spec_get_port(queue_map_contents(*queue_map), *request);
            match resolved {
                Err(e) => r matches Err(err) && err@ == e,
                Ok(port) => {
                    let addr = spec_backend_address(port);
                    match r {
                        Ok((p, a)) => p == port && a@ == addr && pool.spec_has_addr(addr),
                        Err(err) => err@ == (if pool.spec_has_addr(addr) {
                            BadBackendErrorView::UnhealthyHost(addr)
                        } else {
                            BadBackendErrorView::UnknownHost(addr)
                        }),
                    }
                },
            }
        }),
{
    let port = match get_port(queue_map, request) {
        Ok(port) => port,
        Err(e) => {
            return Err(e);
        },
    };
    let backend = backend_address(port);
    match pool.find_cell(&backend) {
        None => Err(BadBackendError::UnknownHost(backend)),
        Some(cell) => {
            let health = cell.load();
            if !(health == Healthiness::Healthy) {
                // Backend is down, stall for time?
                Err(BadBackendError::UnhealthyHost(backend))
            } else {
                Ok((port, backend))
            }
        },
    }
}

/// What the forwarder observed of the backend's answer: the status code, and
/// the `x-tornado-queue-id` header value if the response carried one.
pub struct UpstreamResponse {
    pub status: u16,
    pub queue_id_header: Option<Vec<u8>>,
}

/// How a backend response changes the routing map: a success response that
/// names a queue binds it to the responding shard — or unbinds it when the
/// request was a `DELETE`. Everything else leaves the map alone.
pub open spec fn spec_store_backend(
    m: Map<Seq<char>, u16>,
    method: Method,
    resp: UpstreamResponse,
    port: u16,
) -> Map<Seq<char>, u16> {
    if 200 <= resp.status < 300 {
        match resp.queue_id_header {
            Some(h) => if spec_header_text(h@) {
                let q = ascii_chars(h@);
                if method is Delete {
                    m.remove(q)
                } else {
                    m.insert(q, port)
                }
            } else {
                m
            },
            None => m,
        }
    } else {
        m
    }
}

/// Applies a backend response to the routing map, per `spec_store_backend`.
/// Removal of an entry the map never held is ignored: the upstream has
/// authority over queue lifetimes.
pub fn store_backend(
    queue_map: &mut QueueMap,
    method: Method,
    resp: &UpstreamResponse,
    port: u16,
)
    ensures
        queue_map_contents(*final(queue_map)) == spec_store_backend(
            queue_map_contents(*old(queue_map)),
            method,
            *resp,
            port,
        ),
{
    if 200 <= resp.status && resp.status < 300 {
        if let Some(h) = &resp.queue_id_header {
            if is_header_text(h.as_slice()) {
                proof {
                    assert forall|i: int| 0 <= i < h@.len() implies #[trigger] h@[i] < 128 by {
                        assert(crate::text::is_header_text_byte(h@[i]));
                    }
                }
                let q = bytes_to_string_lossy(h.as_slice());
                if let Method::Delete = method {
                    queue_map_remove(queue_map, &q);
                } else {
                    queue_map_insert(queue_map, q, port);
                }
            }
        }
    }
}

/// Sticky routing: while the routing map binds a queue-id to a shard, every
/// `GET` or `DELETE` that names that queue resolves to that shard; and once a
/// success `DELETE` response for the queue is observed, the binding is gone
/// and the same request is refused as an unknown queue.
pub proof fn lemma_sticky_routing(
    m: Map<Seq<char>, u16>,
    port: u16,
    req: ProxyRequest,
    resp: UpstreamResponse,
    h: Seq<u8>,
    qb: Seq<u8>,
)
    requires
        // the response that confirms the deletion names the queue
        200 <= resp.status < 300,
        resp.queue_id_header matches Some(hv) && hv@ == h,
        spec_header_text(h),
        // the request carries the same queue-id in its query or body
        req.path@ != "/api/v1/events/internal"@,
        match req.method {
            Method::Get => req.query matches Some(q) && spec_find_queue_id(encode_utf8(q@))
                == Some(qb),
            Method::Delete => req.body matches Some(b) && spec_find_queue_id(b@) == Some(qb),
            Method::Other(_) => false,
        },
        lossy_utf8(qb) == ascii_chars(h),
        // the map currently binds the queue to the shard
        m.contains_key(ascii_chars(h)),
        m[ascii_chars(h)] == port,
    ensures
        spec_get_port(m, req) == Ok::<u16, BadBackendErrorView>(port),
        spec_get_port(spec_store_backend(m, Method::Delete, resp, port), req) == Err::<
            u16,
            BadBackendErrorView,
        >(BadBackendErrorView::UnknownQueue(ascii_chars(h))),
{
}

/// A success response to a queue-creation request binds the queue: the
/// routing map afterwards maps the announced queue-id to the shard that
/// answered.
pub proof fn lemma_create_binds(
    m: Map<Seq<char>, u16>,
    method: Method,
    resp: UpstreamResponse,
    port: u16,
    h: Seq<u8>,
)
    requires
        !(method is Delete),
        200 <= resp.status < 300,
        resp.queue_id_header matches Some(hv) && hv@ == h,
        spec_header_text(h),
    ensures
        spec_store_backend(m, method, resp, port) == m.insert(ascii_chars(h), port),
        spec_store_backend(m, method, resp, port)[ascii_chars(h)] == port,
{
}

/// The whole sticky-routing story at the level of the routing map: a success
/// create-response binds the announced queue to the shard that answered;
/// while the binding stands, every `GET` or `DELETE` naming that queue
/// resolves to that shard; a success delete-response removes the binding,
/// after which the same request is refused as an unknown queue.
pub proof fn lemma_sticky_round_trip(
    m: Map<Seq<char>, u16>,
    create_method: Method,
    resp: UpstreamResponse,
    port: u16,
    req: ProxyRequest,
    h: Seq<u8>,
    qb: Seq<u8>,
)
    requires
        // the create-response: a success answer that names the queue
        !(create_method is Delete),
        200 <= resp.status < 300,
        resp.queue_id_header matches Some(hv) && hv@ == h,
        spec_header_text(h),
        // the follow-up request carries the same queue-id
        req.path@ != "/api/v1/events/internal"@,
        match req.method {
            Method::Get => req.query matches Some(q) && spec_find_queue_id(encode_utf8(q@))
                == Some(qb),
            Method::Delete => req.body matches Some(b) && spec_find_queue_id(b@) == Some(qb),
            Method::Other(_) => false,
        },
        lossy_utf8(qb) == ascii_chars(h),
    ensures
        spec_get_port(spec_store_backend(m, create_method, resp, port), req) == Ok::<
            u16,
            BadBackendErrorView,
        >(port),
        spec_get_port(
            spec_store_backend(
                spec_store_backend(m, create_method, resp, port),
                Method::Delete,
                resp,
                port,
            ),
            req,
        ) == Err::<u16, BadBackendErrorView>(BadBackendErrorView::UnknownQueue(ascii_chars(h))),
{
    let m1 = spec_store_backend(m, create_method, resp, port);
    lemma_create_binds(m, create_method, resp, port, h);
    lemma_sticky_routing(m1, port, req, resp, h, qb);
}

} // verus!
