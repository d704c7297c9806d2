//! The backend pool and the forwarding model.
//!
//! A pool snapshot is the immutable set of configured backend addresses, each
//! with its health cell, plus the health-probe settings and the connection
//! settings of the shared upstream HTTP client. Forwarding rewrites a request
//! for its chosen backend: `http` scheme, backend authority, path and query
//! preserved verbatim, headers copied with `x-forwarded-for` rewritten to
//! name the client, and the body passed through untouched.

use vstd::prelude::*;
use vstd::slice::slice_to_vec;
use vstd::string::StringExecFns;
use crate::configuration::BackendConnectionConfig;
use crate::health::{HealthCell, HealthConfig};
use crate::state::ProxyRequest;
use crate::text::{
    extend_bytes,
    is_header_text,
    spec_decimal_bytes,
    spec_header_text,
    spec_hex_bytes,
    u16_to_decimal_bytes,
    u16_to_hex_bytes,
};

verus! {

/// One immutable snapshot of the backend set: every configured address with
/// its health cell, the probe settings, and the upstream client settings.
pub struct BackendPool {
    pub addresses: Vec<(String, HealthCell)>,
    pub health_config: HealthConfig,
    pub client: BackendConnectionConfig,
}

impl BackendPool {
    /// The configured addresses are mutually distinct.
    pub open spec fn spec_wf(&self) -> bool {
        forall|i: int, j: int|
            0 <= i < j < self.addresses@.len() ==> (#[trigger] self.addresses@[i]).0@ != (
            #[trigger] self.addresses@[j]).0@
    }

    /// Whether an address is in the configured backend set.
    pub open spec fn spec_has_addr(&self, a: Seq<char>) -> bool {
        exists|i: int| 0 <= i < self.addresses@.len() && (#[trigger] self.addresses@[i]).0@ == a
    }

    /// Looks an address up in the pool: the lookup succeeds exactly for
    /// configured addresses, and the cell it returns is the one paired with
    /// the matched address.
    pub fn find_cell(&self, address: &String) -> (r: Option<&HealthCell>)
        ensures
            r is Some <==> self.spec_has_addr(address@),
            r matches Some(cell) ==> exists|i: int|
                0 <= i < self.addresses@.len() && (#[trigger] self.addresses@[i]).0@ == address@
                    && self.addresses@[i].1 == *cell,
    {
        let n = self.addresses.len();
        let mut i: usize = 0;
        while i < n
            invariant
                i <= n,
                n == self.addresses@.len(),
                forall|j: int| 0 <= j < i ==> (#[trigger] self.addresses@[j]).0@ != address@,
            decreases n - i,
        {
            let entry = &self.addresses[i];
            if entry.0 == *address {
                assert(self.addresses@[i as int].0@ == address@ && self.addresses@[i as int].1
                    == entry.1);
                return Some(&entry.1);
            }
            i = i + 1;
        }
        None
    }
}

/// Accumulates the parts of a backend pool; the upstream client settings are
/// optional.
pub struct BackendPoolBuilder {
    addresses: Vec<(String, HealthCell)>,
    health_config: HealthConfig,
    pool_idle_timeout: Option<u64>,
    pool_max_idle_per_host: Option<usize>,
}

impl BackendPoolBuilder {
    pub closed spec fn spec_addresses(&self) -> Vec<(String, HealthCell)> {
        self.addresses
    }

    pub closed spec fn spec_health_config(&self) -> HealthConfig {
        self.health_config
    }

    pub closed spec fn spec_pool_idle_timeout(&self) -> Option<u64> {
        self.pool_idle_timeout
    }

    pub closed spec fn spec_pool_max_idle_per_host(&self) -> Option<usize> {
        self.pool_max_idle_per_host
    }

    pub fn new(addresses: Vec<(String, HealthCell)>, health_config: HealthConfig) -> (r:
        BackendPoolBuilder)
        ensures
            r.spec_addresses() == addresses,
            r.spec_health_config() == health_config,
            r.spec_pool_idle_timeout() is None,
            r.spec_pool_max_idle_per_host() is None,
    {
        BackendPoolBuilder { addresses, health_config, pool_idle_timeout: None, pool_max_idle_per_host: None }
    }

    /// Sets the idle timeout, in milliseconds, of the upstream client's
    /// connection pool.
    pub fn pool_idle_timeout(&mut self, timeout: u64)
        ensures
            final(self).spec_pool_idle_timeout() == Some(timeout),
            final(self).spec_addresses() == old(self).spec_addresses(),
            final(self).spec_health_config() == old(self).spec_health_config(),
            final(self).spec_pool_max_idle_per_host() == old(self).spec_pool_max_idle_per_host(),
    {
        self.pool_idle_timeout = Some(timeout);
    }

    /// Sets how many idle upstream connections may be kept per backend.
    pub fn pool_max_idle_per_host(&mut self, max_idle: usize)
        ensures
            final(self).spec_pool_max_idle_per_host() == Some(max_idle),
            final(self).spec_addresses() == old(self).spec_addresses(),
            final(self).spec_health_config() == old(self).spec_health_config(),
            final(self).spec_pool_idle_timeout() == old(self).spec_pool_idle_timeout(),
    {
        self.pool_max_idle_per_host = Some(max_idle);
    }

    pub fn build(self) -> (pool: BackendPool)
        ensures
            pool.addresses == self.spec_addresses(),
            pool.health_config == self.spec_health_config(),
            pool.client.pool_idle_timeout == self.spec_pool_idle_timeout(),
            pool.client.pool_max_idle_per_host == self.spec_pool_max_idle_per_host(),
    {
        BackendPool {
            addresses: self.addresses,
            health_config: self.health_config,
            client: BackendConnectionConfig {
                pool_idle_timeout: self.pool_idle_timeout,
                pool_max_idle_per_host: self.pool_max_idle_per_host,
            },
        }
    }
}

/// Whether a request asks for the metrics page rather than for proxying.
pub fn is_metrics_path(path: &String) -> (r: bool)
    ensures
        r == (path@ == "/metrics"@),
{
    let metrics = String::from_str("/metrics");
    *path == metrics
}

/// The peer address of the client's TCP connection, as the forwarder reads
/// it: four IPv4 octets, or eight IPv6 groups.
pub enum ClientIp {
    V4([u8; 4]),
    V6([u16; 8]),
}

/// Textual IPv4 address from four octet values.
pub open spec fn spec_ipv4_bytes(a: int, b: int, c: int, d: int) -> Seq<u8> {
    spec_decimal_bytes(a) + seq![46u8] + spec_decimal_bytes(b) + seq![46u8] + spec_decimal_bytes(c)
        + seq![46u8] + spec_decimal_bytes(d)
}

/// Whether eight IPv6 groups form an IPv4-mapped or IPv4-compatible address,
/// whose last two groups carry the four IPv4 octets.
pub open spec fn spec_v6_has_v4_form(g: Seq<u16>) -> bool {
    g[0] == 0 && g[1] == 0 && g[2] == 0 && g[3] == 0 && g[4] == 0 && (g[5] == 0 || g[5] == 0xffff)
}

/// The length of the run of zero groups starting at `i`.
pub open spec fn spec_zero_run_len(g: Seq<u16>, i: int) -> int
    decreases g.len() - i,
{
    if i < 0 || i >= g.len() || g[i] != 0 {
        0
    } else {
        1 + spec_zero_run_len(g, i + 1)
    }
}

/// The longest run of zero groups at or after `i` — the leftmost of the
/// longest — as its start and its length.
pub open spec fn spec_best_zero_run(g: Seq<u16>, i: int) -> (int, int)
    decreases g.len() - i,
{
    if i >= g.len() {
        (i, 0)
    } else {
        let here = spec_zero_run_len(g, i);
        let rest = spec_best_zero_run(g, i + 1);
        if here >= rest.1 {
            (i, here)
        } else {
            rest
        }
    }
}

/// The hex groups `g[from..to]`, colon-separated.
pub open spec fn spec_hex_groups(g: Seq<u16>, from: int, to: int) -> Seq<u8>
    decreases to - from,
{
    if to <= from {
        Seq::<u8>::empty()
    } else if to == from + 1 {
        spec_hex_bytes(g[from] as int)
    } else {
        spec_hex_groups(g, from, to - 1) + seq![58u8] + spec_hex_bytes(g[to - 1] as int)
    }
}

/// The textual form of eight IPv6 groups, as RFC 5952 writes it: lower-case
/// hex groups without leading zeros, and the longest run of two or more zero
/// groups — the leftmost of the longest — compressed to `::`.
pub open spec fn spec_v6_text(g: Seq<u16>) -> Seq<u8> {
    let run = spec_best_zero_run(g, 0);
    if run.1 >= 2 {
        spec_hex_groups(g, 0, run.0) + seq![58u8, 58u8] + spec_hex_groups(g, run.0 + run.1, 8)
    } else {
        spec_hex_groups(g, 0, 8)
    }
}

/// The textual form of a client address as it enters `x-forwarded-for`: IPv4
/// dotted; an IPv4-mapped or IPv4-compatible IPv6 address normalized to its
/// IPv4 dotted form; any other IPv6 address in its RFC 5952 form.
pub open spec fn spec_client_ip_bytes(ip: ClientIp) -> Seq<u8> {
    match ip {
        ClientIp::V4(o) => spec_ipv4_bytes(o@[0] as int, o@[1] as int, o@[2] as int, o@[3] as int),
        ClientIp::V6(g) => if spec_v6_has_v4_form(g@) {
            spec_ipv4_bytes(
                (g@[6] >> 8) as int,
                (g@[6] & 0xff) as int,
                (g@[7] >> 8) as int,
                (g@[7] & 0xff) as int,
            )
        } else {
            spec_v6_text(g@)
        },
    }
}

/// Finds the longest zero run of the eight groups, the leftmost of the
/// longest.
fn best_zero_run(g: &[u16; 8]) -> (r: (usize, usize))
    ensures
        r.0 as int == spec_best_zero_run(g@, 0).0,
        r.1 as int == spec_best_zero_run(g@, 0).1,
        r.0 + r.1 <= 8,
{
    let mut i: usize = 8;
    let mut run_len: usize = 0;
    let mut best_start: usize = 8;
    let mut best_len: usize = 0;
    while i > 0
        invariant
            i <= 8,
            g@.len() == 8,
            run_len + i <= 8,
            best_start + best_len <= 8,
            run_len as int == spec_zero_run_len(g@, i as int),
            (best_start as int, best_len as int) == spec_best_zero_run(g@, i as int),
        decreases i,
    {
        i = i - 1;
        if g[i] == 0 {
            run_len = run_len + 1;
        } else {
            run_len = 0;
        }
        if run_len >= best_len {
            best_start = i;
            best_len = run_len;
        }
    }
    (best_start, best_len)
}

/// Renders the hex groups `g[from..to]`, colon-separated.
fn hex_groups(g: &[u16; 8], from: usize, to: usize) -> (r: Vec<u8>)
    requires
        from <= to <= 8,
    ensures
        r@ == spec_hex_groups(g@, from as int, to as int),
{
    let mut v: Vec<u8> = Vec::new();
    let mut k: usize = from;
    while k < to
        invariant
            from <= k <= to <= 8,
            g@.len() == 8,
            v@ == spec_hex_groups(g@, from as int, k as int),
        decreases to - k,
    {
        if k > from {
            v.push(58);
        }
        let part = u16_to_hex_bytes(g[k]);
        extend_bytes(&mut v, part.as_slice());
        proof {
            if k == from {
                assert(v@ =~= spec_hex_groups(g@, from as int, k + 1));
            } else {
                assert(v@ =~= spec_hex_groups(g@, from as int, k as int) + seq![58u8]
                    + spec_hex_bytes(g@[k as int] as int));
            }
        }
        k = k + 1;
    }
    v
}

fn ipv4_bytes(a: u8, b: u8, c: u8, d: u8) -> (r: Vec<u8>)
    ensures
        r@ == spec_ipv4_bytes(a as int, b as int, c as int, d as int),
{
    let mut v = u16_to_decimal_bytes(a as u16);
    v.push(46);
    let part = u16_to_decimal_bytes(b as u16);
    extend_bytes(&mut v, part.as_slice());
    v.push(46);
    let part = u16_to_decimal_bytes(c as u16);
    extend_bytes(&mut v, part.as_slice());
    v.push(46);
    let part = u16_to_decimal_bytes(d as u16);
    extend_bytes(&mut v, part.as_slice());
    proof {
        assert(v@ =~= spec_ipv4_bytes(a as int, b as int, c as int, d as int));
    }
    v
}

/// Renders the client address for the `x-forwarded-for` header.
pub fn client_ip_bytes(ip: &ClientIp) -> (r: Vec<u8>)
    ensures
        r@ == spec_client_ip_bytes(*ip),
{
    match ip {
        ClientIp::V4(o) => ipv4_bytes(o[0], o[1], o[2], o[3]),
        ClientIp::V6(g) => {
            if g[0] == 0 && g[1] == 0 && g[2] == 0 && g[3] == 0 && g[4] == 0 && (g[5] == 0 || g[5]
                == 0xffff) {
                let g6 = g[6];
                let g7 = g[7];
                assert((g6 >> 8) < 256 && (g6 & 0xff) < 256 && (g7 >> 8) < 256 && (g7 & 0xff)
                    < 256) by (bit_vector);
                ipv4_bytes((g6 >> 8) as u8, (g6 & 0xff) as u8, (g7 >> 8) as u8, (g7 & 0xff) as u8)
            } else {
                let run = best_zero_run(g);
                if run.1 >= 2 {
                    let mut v = hex_groups(g, 0, run.0);
                    v.push(58);
                    v.push(58);
                    let tail = hex_groups(g, run.0 + run.1, 8);
                    extend_bytes(&mut v, tail.as_slice());
                    proof {
                        assert(v@ =~= spec_v6_text(g@));
                    }
                    v
                } else {
                    hex_groups(g, 0, 8)
                }
            }
        },
    }
}

/// The value the rewritten `x-forwarded-for` header carries: the existing
/// value — or nothing, when the existing value is not header text — followed
/// by a comma, a space and the client address; just the client address when
/// the header was absent.
pub open spec fn spec_append_forwarded_for(existing: Option<Seq<u8>>, client_ip: Seq<u8>) -> Seq<
    u8,
> {
    match existing {
        Some(e) => (if spec_header_text(e) {
            e
        } else {
            Seq::<u8>::empty()
        }) + seq![44u8, 32u8] + client_ip,
        None => client_ip,
    }
}

/// Combines an existing `x-forwarded-for` value with the client address.
pub fn append_forwarded_for(existing: Option<&Vec<u8>>, client_ip: &Vec<u8>) -> (r: Vec<u8>)
    ensures
        r@ == spec_append_forwarded_for(
            match existing {
                Some(e) => Some(e@),
                None => None::<Seq<u8>>,
            },
            client_ip@,
        ),
{
    match existing {
        None => slice_to_vec(client_ip.as_slice()),
        Some(e) => {
            let mut v: Vec<u8> = Vec::new();
            if is_header_text(e.as_slice()) {
                extend_bytes(&mut v, e.as_slice());
            }
            v.push(44);
            v.push(32);
            extend_bytes(&mut v, client_ip.as_slice());
            proof {
                assert(v@ =~= spec_append_forwarded_for(Some(e@), client_ip@));
            }
            v
        },
    }
}

/// The bytes of the header name `x-forwarded-for`.
pub open spec fn xff_name() -> Seq<u8> {
    seq![
        120u8,
        45u8,
        102u8,
        111u8,
        114u8,
        119u8,
        97u8,
        114u8,
        100u8,
        101u8,
        100u8,
        45u8,
        102u8,
        111u8,
        114u8,
    ]
}

fn is_xff_name(name: &[u8]) -> (r: bool)
    ensures
        r == (name@ == xff_name()),
{
    if name.len() != 15 {
        return false;
    }
    let r = name[0] == 120 && name[1] == 45 && name[2] == 102 && name[3] == 111 && name[4] == 114
        && name[5] == 119 && name[6] == 97 && name[7] == 114 && name[8] == 100 && name[9] == 101
        && name[10] == 100 && name[11] == 45 && name[12] == 102 && name[13] == 111 && name[14]
        == 114;
    proof {
        if r {
            assert(name@ =~= xff_name());
        }
    }
    r
}

/// Header pairs as plain byte sequences.
pub open spec fn header_views(hs: Seq<(Vec<u8>, Vec<u8>)>) -> Seq<(Seq<u8>, Seq<u8>)> {
    hs.map_values(|p: (Vec<u8>, Vec<u8>)| (p.0@, p.1@))
}

/// The header list with every `x-forwarded-for` entry removed.
pub open spec fn spec_strip_xff(hs: Seq<(Seq<u8>, Seq<u8>)>) -> Seq<(Seq<u8>, Seq<u8>)>
    decreases hs.len(),
{
    if hs.len() == 0 {
        Seq::<(Seq<u8>, Seq<u8>)>::empty()
    } else {
        let rest = spec_strip_xff(hs.drop_first());
        if hs.first().0 == xff_name() {
            rest
        } else {
            seq![hs.first()] + rest
        }
    }
}

/// The value of the first `x-forwarded-for` entry, if any.
pub open spec fn spec_first_xff(hs: Seq<(Seq<u8>, Seq<u8>)>) -> Option<Seq<u8>>
    decreases hs.len(),
{
    if hs.len() == 0 {
        None
    } else if hs.first().0 == xff_name() {
        Some(hs.first().1)
    } else {
        spec_first_xff(hs.drop_first())
    }
}

proof fn lemma_strip_xff_push(hs: Seq<(Seq<u8>, Seq<u8>)>, p: (Seq<u8>, Seq<u8>))
    ensures
        spec_strip_xff(hs.push(p)) == (if p.0 == xff_name() {
            spec_strip_xff(hs)
        } else {
            spec_strip_xff(hs).push(p)
        }),
    decreases hs.len(),
{
    if hs.len() == 0 {
        assert(hs.push(p).drop_first() =~= Seq::<(Seq<u8>, Seq<u8>)>::empty());
        assert(hs.push(p).first() == p);
        assert(spec_strip_xff(Seq::<(Seq<u8>, Seq<u8>)>::empty()) == Seq::<
            (Seq<u8>, Seq<u8>),
        >::empty());
        if p.0 != xff_name() {
            assert(seq![p] + Seq::<(Seq<u8>, Seq<u8>)>::empty() =~= spec_strip_xff(hs).push(p));
        }
    } else {
        assert(hs.push(p).drop_first() =~= hs.drop_first().push(p));
        assert(hs.push(p).first() == hs.first());
        lemma_strip_xff_push(hs.drop_first(), p);
        if hs.first().0 != xff_name() && p.0 != xff_name() {
            assert(seq![hs.first()] + spec_strip_xff(hs.drop_first()).push(p) =~= (seq![hs.first()]
                + spec_strip_xff(hs.drop_first())).push(p));
        }
    }
}

proof fn lemma_first_xff_push(hs: Seq<(Seq<u8>, Seq<u8>)>, p: (Seq<u8>, Seq<u8>))
    ensures
        spec_first_xff(hs.push(p)) == (if spec_first_xff(hs) is Some {
            spec_first_xff(hs)
        } else if p.0 == xff_name() {
            Some(p.1)
        } else {
            None::<Seq<u8>>
        }),
    decreases hs.len(),
{
    if hs.len() == 0 {
        assert(hs.push(p).drop_first() =~= Seq::<(Seq<u8>, Seq<u8>)>::empty());
        assert(hs.push(p).first() == p);
        assert(spec_first_xff(Seq::<(Seq<u8>, Seq<u8>)>::empty()) is None);
    } else {
        assert(hs.push(p).drop_first() =~= hs.drop_first().push(p));
        assert(hs.push(p).first() == hs.first());
        lemma_first_xff_push(hs.drop_first(), p);
    }
}

/// The target URI of the forwarded request: `http` scheme, the chosen backend
/// as authority, path and query preserved verbatim.
pub open spec fn spec_forward_uri(addr: Seq<char>, req: ProxyRequest) -> Seq<char> {
    "http://"@ + addr + req.path@ + (match req.query {
        Some(q) => "?"@ + q@,
        None => Seq::<char>::empty(),
    })
}

/// A forwarded request, ready for the upstream call: the rewritten URI, the
/// rewritten header list, and the body — materialized bytes when the body was
/// peeked, or `None` when the original stream is to be sent untouched. The
/// method is the original request's method, unchanged.
pub struct ForwardRequest {
    pub uri: String,
    pub headers: Vec<(Vec<u8>, Vec<u8>)>,
    pub body: Option<Vec<u8>>,
}

/// Rewrites a request for its chosen backend. Body fidelity: the body bytes
/// of the forwarded request are exactly the body bytes of the incoming
/// request — inspection never alters what the backend receives. The headers
/// are copied in order, with every `x-forwarded-for` entry replaced by one
/// final entry naming the client.
pub fn build_forward_request(
    request: &ProxyRequest,
    backend_address: &String,
    client_address: &ClientIp,
) -> (r: ForwardRequest)
    ensures
        r.uri@ == spec_forward_uri(backend_address@, *request),
        header_views(r.headers@) == spec_strip_xff(header_views(request.headers@)).push(
            (
                xff_name(),
                spec_append_forwarded_for(
                    spec_first_xff(header_views(request.headers@)),
                    spec_client_ip_bytes(*client_address),
                ),
            ),
        ),
        request.body matches Some(b) ==> (r.body matches Some(fb) && fb@ == b@),
        request.body is None ==> r.body is None,
{
    let uri = String::from_str("http://").concat(backend_address.as_str()).concat(
        request.path.as_str(),
    );
    let uri = match &request.query {
        Some(q) => uri.concat("?").concat(q.as_str()),
        None => uri,
    };
    proof {
        assert(uri@ =~= spec_forward_uri(backend_address@, *request));
    }

    let ghost all = header_views(request.headers@);
    let n = request.headers.len();
    let mut headers: Vec<(Vec<u8>, Vec<u8>)> = Vec::new();
    let mut existing: Option<Vec<u8>> = None;
    let mut i: usize = 0;
    proof {
        assert(all.take(0) =~= Seq::<(Seq<u8>, Seq<u8>)>::empty());
        assert(header_views(headers@) =~= Seq::<(Seq<u8>, Seq<u8>)>::empty());
    }
    while i < n
        invariant
            i <= n,
            n == request.headers@.len(),
            all == header_views(request.headers@),
            header_views(headers@) == spec_strip_xff(all.take(i as int)),
            match existing {
                Some(v) => spec_first_xff(all.take(i as int)) == Some(v@),
                None => spec_first_xff(all.take(i as int)) is None,
            },
        decreases n - i,
    {
        let entry = &request.headers[i];
        let ghost p = all[i as int];
        proof {
            assert(p == (entry.0@, entry.1@));
            assert(all.take(i + 1) =~= all.take(i as int).push(p));
            lemma_strip_xff_push(all.take(i as int), p);
            lemma_first_xff_push(all.take(i as int), p);
        }
        if is_xff_name(entry.0.as_slice()) {
            if existing.is_none() {
                existing = Some(slice_to_vec(entry.1.as_slice()));
            }
        } else {
            let name = slice_to_vec(entry.0.as_slice());
            let value = slice_to_vec(entry.1.as_slice());
            let ghost before = headers@;
            headers.push((name, value));
            proof {
                assert(header_views(headers@) =~= header_views(before).push(p));
            }
        }
        i = i + 1;
    }
    proof {
        assert(all.take(n as int) =~= all);
    }
    let ip = client_ip_bytes(client_address);
    let forwarded = match &existing {
        Some(e) => append_forwarded_for(Some(e), &ip),
        None => append_forwarded_for(None, &ip),
    };
    let mut xff: Vec<u8> = Vec::new();
    xff.push(120);
    xff.push(45);
    xff.push(102);
    xff.push(111);
    xff.push(114);
    xff.push(119);
    xff.push(97);
    xff.push(114);
    xff.push(100);
    xff.push(101);
    xff.push(100);
    xff.push(45);
    xff.push(102);
    xff.push(111);
    xff.push(114);
    proof {
        assert(xff@ =~= xff_name());
    }
    let ghost before = headers@;
    headers.push((xff, forwarded));
    proof {
        assert(header_views(headers@) =~= header_views(before).push(
            (xff_name(), spec_append_forwarded_for(spec_first_xff(all), spec_client_ip_bytes(*client_address))),
        ));
    }
    let body = match &request.body {
        Some(b) => Some(slice_to_vec(b.as_slice())),
        None => None,
    };
    ForwardRequest { uri, headers, body }
}

} // verus!
