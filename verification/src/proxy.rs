//! How the gateway answers an HTTP request: which built-in endpoint serves
//! it, whether the security shield blocks it, and which backend it is
//! forwarded to. Also the parsing of backend addresses and of HLS playlists.
use vstd::prelude::*;
use crate::gateway_config::GatewayConfig;
use crate::route_table::{RouteTable, pairs_of};
use crate::security::{SecurityEvent, inspect_threat, threat_of, kst_clock, blocked_action};
use crate::text::{
    chars_of, contains, contains_seq, copy_range, ends_with, has_char, has_prefix, has_suffix,
    parse_uint, parse_unsigned, push_char, starts_with, str_eq, string_of, unicode_lowercase,
};
use crate::hosts::first_index_of;
use crate::response_cache::{ResponseCache, latest};

verus! {

/// What the gateway does with a request.
pub enum RouteDecision {
    /// The security shield blocks it; the event goes to the log.
    Block(SecurityEvent),
    /// A CORS preflight, answered at once.
    Preflight,
    /// The built-in dashboard page.
    Dashboard,
    /// The counters, as JSON.
    Status,
    /// The blocked-request log, as JSON.
    ListSecurityLogs,
    /// Clear the blocked-request log.
    ClearSecurityLogs,
    /// Write these domains into the hosts file.
    SyncHosts(Vec<String>),
    /// The TCP relays, as JSON.
    ListTcpRoutes,
    /// Add the TCP relay in the body.
    AddTcpRoute,
    /// Remove the TCP relay in the body.
    RemoveTcpRoute,
    /// The configuration, as JSON.
    ListRoutes,
    /// Add the route in the body.
    AddRoute,
    /// Remove the route in the body.
    RemoveRoute,
    /// Register the mock in the body.
    AddMock,
    /// Apply the settings in the body.
    UpdateSettings,
    /// Answer with this canned JSON.
    Mock(String),
    /// Answer from the RAM cache with a kept status and body.
    Cached { status: u16, body: Vec<u8> },
    /// Forward to a backend. `full_uri` is the path with its query;
    /// `stream_chunk` asks to look in the stream cache first; `playlist`
    /// asks to prefetch the chunks the answer lists; without a backend the
    /// answer is a not-found page.
    Proxy { full_uri: String, stream_chunk: bool, playlist: bool, backend: Option<String> },
}

/// The parts of a request that routing reads.
pub struct RequestInfo {
    pub method: String,
    pub path: String,
    pub query: String,
    /// The `Host` header, empty when absent or not text.
    pub host_header: String,
    pub user_agent: String,
    pub client_ip: String,
}

/// The host name of a `Host` header: the text before the first `:`.
pub open spec fn host_name(header: Seq<char>) -> Seq<char> {
    let k = first_index_of(header, ':');
    if k < 0 {
        header
    } else {
        header.take(k)
    }
}

/// Index of the first path route whose key is a prefix of `path`, or -1.
pub open spec fn first_prefix_route(routes: Seq<(Seq<char>, Seq<char>)>, path: Seq<char>, k: int) -> int
    decreases routes.len() - k,
{
    if k < 0 || k >= routes.len() {
        -1
    } else if starts_with(path, routes[k].0) {
        k
    } else {
        first_prefix_route(routes, path, k + 1)
    }
}

/// The backend for a request: the domain route of its host name, else the
/// first path route (in table order) that the path begins with.
pub open spec fn backend_for(cfg: GatewayConfig, host_header: Seq<char>, path: Seq<char>) -> Option<Seq<char>> {
    let host = host_name(host_header);
    if cfg.host_routes.map().contains_key(host) {
        Some(cfg.host_routes.map()[host])
    } else {
        let k = first_prefix_route(cfg.path_routes.pairs(), path, 0);
        if k >= 0 {
            Some(cfg.path_routes.pairs()[k].1)
        } else {
            None
        }
    }
}

/// The request's path with its query, when there is one.
pub open spec fn full_uri(path: Seq<char>, query: Seq<char>) -> Seq<char> {
    if query.len() == 0 {
        path
    } else {
        path + seq!['?'] + query
    }
}

/// A video chunk that the stream booster may have cached.
pub open spec fn is_stream_chunk(path: Seq<char>) -> bool {
    ends_with(path, ".ts"@) || ends_with(path, ".m4s"@) || ends_with(path, ".mp4"@)
}

/// An HLS playlist whose chunks the stream booster prefetches.
pub open spec fn is_playlist(path: Seq<char>) -> bool {
    ends_with(path, ".m3u8"@) || contains_seq(path, ".m3u8?"@)
}

/// The request is checked by the security shield: the shield is on and
/// the path is not one of the gateway's own.
pub open spec fn shield_applies(cfg: GatewayConfig, path: Seq<char>) -> bool {
    cfg.enable_security_shield && !starts_with(path, "/pgate"@)
}

/// The verdict of the shield on a request.
pub open spec fn threat_for(req: RequestInfo) -> Option<(Seq<char>, Seq<char>)> {
    threat_of(unicode_lowercase(req.path@), unicode_lowercase(req.query@), unicode_lowercase(req.user_agent@))
}

/// Which endpoint, in order, takes a request that the shield let through.
/// `None` stands for the mock and proxy stage.
pub open spec fn endpoint_for(cfg: GatewayConfig, method: Seq<char>, path: Seq<char>) -> Option<int> {
    if cfg.enable_cors && method == "OPTIONS"@ {
        Some(1)
    } else if path == "/"@ || path == "/pgate"@ || path == "/pgate/ui"@ {
        Some(2)
    } else if path == "/pgate/status"@ || path == "/pingora/status"@ {
        Some(3)
    } else if path == "/pgate/api/security-logs"@ && method == "GET"@ {
        Some(4)
    } else if path == "/pgate/api/security-logs"@ && method == "DELETE"@ {
        Some(5)
    } else if path == "/pgate/api/hosts/sync"@ && method == "POST"@ {
        Some(6)
    } else if path == "/pgate/api/tcp-routes"@ && method == "GET"@ {
        Some(7)
    } else if path == "/pgate/api/tcp-routes"@ && method == "POST"@ {
        Some(8)
    } else if path == "/pgate/api/tcp-routes"@ && method == "DELETE"@ {
        Some(9)
    } else if path == "/pgate/api/routes"@ && method == "GET"@ {
        Some(10)
    } else if path == "/pgate/api/routes"@ && method == "POST"@ {
        Some(11)
    } else if path == "/pgate/api/routes"@ && method == "DELETE"@ {
        Some(12)
    } else if path == "/pgate/api/mock"@ && method == "POST"@ {
        Some(13)
    } else if path == "/pgate/api/settings"@ && method == "POST"@ {
        Some(14)
    } else {
        None
    }
}

/// The endpoint number of a decision (see [`endpoint_for`]).
pub open spec fn endpoint_of(d: RouteDecision) -> Option<int> {
    match d {
        RouteDecision::Preflight => Some(1),
        RouteDecision::Dashboard => Some(2),
        RouteDecision::Status => Some(3),
        RouteDecision::ListSecurityLogs => Some(4),
        RouteDecision::ClearSecurityLogs => Some(5),
        RouteDecision::SyncHosts(_) => Some(6),
        RouteDecision::ListTcpRoutes => Some(7),
        RouteDecision::AddTcpRoute => Some(8),
        RouteDecision::RemoveTcpRoute => Some(9),
        RouteDecision::ListRoutes => Some(10),
        RouteDecision::AddRoute => Some(11),
        RouteDecision::RemoveRoute => Some(12),
        RouteDecision::AddMock => Some(13),
        RouteDecision::UpdateSettings => Some(14),
        _ => None,
    }
}

/// The host name of a `Host` header (see [`host_name`]).
pub fn host_of_header(header: &str) -> (r: String)
    ensures
        r@ == host_name(header@),
{
    let h = chars_of(header);
    let mut k: usize = 0;
    while k < h.len() && h[k] != ':'
        invariant
            k <= h.len(),
            h@ == header@,
            forall|j: int| 0 <= j < k ==> h@[j] != ':',
        decreases h.len() - k,
    {
        k += 1;
    }
    proof {
        crate::hosts::lemma_first_index_props(h@, ':', k as int);
    }
    if k == h.len() {
        assert(h@.take(k as int) =~= h@);
    }
    string_of(&copy_range(&h, 0, k))
}

/// The backend for a request (see [`backend_for`]).
pub fn find_backend(cfg: &GatewayConfig, host_header: &str, path: &str) -> (r: Option<String>)
    requires
        cfg.wf(),
    ensures
        r is Some <==> backend_for(*cfg, host_header@, path@) is Some,
        r matches Some(b) ==> b@ == backend_for(*cfg, host_header@, path@).unwrap(),
{
    let host = host_of_header(host_header);
    match cfg.host_routes.get(host.as_str()) {
        Some(t) => {
            return Some(t.clone());
        },
        None => {},
    }
    let p = chars_of(path);
    let mut k: usize = 0;
    let ghost routes = cfg.path_routes.pairs();
    while k < cfg.path_routes.entries.len()
        invariant
            k <= cfg.path_routes.entries.len(),
            routes == cfg.path_routes.pairs(),
            p@ == path@,
            !cfg.host_routes.map().contains_key(host_name(host_header@)),
            first_prefix_route(routes, path@, 0) == first_prefix_route(routes, path@, k as int),
        decreases cfg.path_routes.entries.len() - k,
    {
        let key = chars_of(cfg.path_routes.entries[k].0.as_str());
        if has_prefix(&p, &key) {
            return Some(cfg.path_routes.entries[k].1.clone());
        }
        k += 1;
    }
    None
}

fn full_request_uri(path: &str, query: &str) -> (r: String)
    ensures
        r@ == full_uri(path@, query@),
{
    let q = chars_of(query);
    if q.len() == 0 {
        return path.to_owned();
    }
    let mut r = path.to_owned();
    push_char(&mut r, '?');
    r.append(query);
    r
}

/// The key under which the answer to a request is kept: its `Host`
/// header, a line break, and its path with the query.
pub open spec fn request_key(host_header: Seq<char>, uri: Seq<char>) -> Seq<char> {
    host_header + seq!['\n'] + uri
}

/// A request whose answer the RAM cache keeps and serves: caching is on,
/// it is a GET, and it is not a stream chunk, which the stream booster's
/// own cache serves.
pub open spec fn cacheable_request(cfg: GatewayConfig, req: RequestInfo) -> bool {
    &&& cfg.enable_cache
    &&& req.method@ == "GET"@
    &&& !(cfg.enable_stream_booster && is_stream_chunk(req.path@))
}

/// The kept answer served for a request, if any.
pub open spec fn cached_answer(
    cfg: GatewayConfig,
    req: RequestInfo,
    entries: Seq<(Seq<char>, u16, Seq<u8>)>,
) -> Option<(u16, Seq<u8>)> {
    if cacheable_request(cfg, req) {
        latest(entries, request_key(req.host_header@, full_uri(req.path@, req.query@)))
    } else {
        None
    }
}

/// The cache after a backend answered a request with `status` and `body`:
/// a successful (2xx) answer to a cacheable request is kept.
pub open spec fn remembered(
    entries: Seq<(Seq<char>, u16, Seq<u8>)>,
    cfg: GatewayConfig,
    req: RequestInfo,
    status: u16,
    body: Seq<u8>,
) -> Seq<(Seq<char>, u16, Seq<u8>)> {
    if cacheable_request(cfg, req) && 200 <= status < 300 {
        entries.push((request_key(req.host_header@, full_uri(req.path@, req.query@)), status, body))
    } else {
        entries
    }
}

fn cache_key(req: &RequestInfo) -> (r: String)
    ensures
        r@ == request_key(req.host_header@, full_uri(req.path@, req.query@)),
{
    let mut k = req.host_header.clone();
    push_char(&mut k, '\n');
    let uri = full_request_uri(req.path.as_str(), req.query.as_str());
    k.append(uri.as_str());
    k
}

/// Keeps the backend's answer to `req` in the RAM cache when it is a
/// successful answer to a cacheable request (see [`remembered`]).
pub fn remember_response(
    cache: &mut ResponseCache,
    cfg: &GatewayConfig,
    req: &RequestInfo,
    status: u16,
    body: Vec<u8>,
)
    ensures
        final(cache).entries() == remembered(old(cache).entries(), *cfg, *req, status, body@),
{
    let p = chars_of(req.path.as_str());
    let chunk = cfg.enable_stream_booster && (has_suffix(&p, &chars_of(".ts")) || has_suffix(
        &p,
        &chars_of(".m4s"),
    ) || has_suffix(&p, &chars_of(".mp4")));
    if cfg.enable_cache && str_eq(req.method.as_str(), "GET") && !chunk && 200 <= status
        && status < 300 {
        let key = cache_key(req);
        cache.store(key, status, body);
    }
}

/// With caching on, a repeated GET is answered from memory: once a
/// backend's successful answer to a cacheable request has been kept, the
/// same request is served that status and body.
pub proof fn law_repeated_request_is_served_from_memory(
    cfg: GatewayConfig,
    req: RequestInfo,
    entries: Seq<(Seq<char>, u16, Seq<u8>)>,
    status: u16,
    body: Seq<u8>,
)
    requires
        cacheable_request(cfg, req),
        200 <= status < 300,
    ensures
        cached_answer(cfg, req, remembered(entries, cfg, req, status, body)) == Some((status, body)),
{
}

/// The gateway's decision for a request (`handle_request` without its I/O):
/// the shield first, then the built-in endpoints in order, then mocks,
/// then forwarding.
pub fn route_request(cfg: &GatewayConfig, req: &RequestInfo, cache: &ResponseCache) -> (r: RouteDecision)
    requires
        cfg.wf(),
    ensures
        shield_applies(*cfg, req.path@) && threat_for(*req) is Some ==> (r matches RouteDecision::Block(e) && {
            &&& (e.threat_type@, e.severity@) == threat_for(*req).unwrap()
            &&& e.id == 0
            &&& exists|secs: nat| e.timestamp@ == kst_clock(secs)
            &&& e.client_ip@ == req.client_ip@
            &&& e.method@ == req.method@
            &&& e.path@ == req.path@
            &&& e.action@ == blocked_action()
        }),
        !(shield_applies(*cfg, req.path@) && threat_for(*req) is Some) ==> {
            &&& r !is Block
            &&& endpoint_for(*cfg, req.method@, req.path@) is Some ==> endpoint_of(r) == endpoint_for(
                *cfg,
                req.method@,
                req.path@,
            )
            &&& r matches RouteDecision::SyncHosts(domains) ==> domains@.len()
                == cfg.host_routes.pairs().len() && forall|i: int|
                0 <= i < domains@.len() ==> #[trigger] domains@[i]@ == cfg.host_routes.pairs()[i].0
            &&& endpoint_for(*cfg, req.method@, req.path@) is None && cfg.mock_endpoints.map().contains_key(req.path@)
                ==> (r matches RouteDecision::Mock(body) && body@ == cfg.mock_endpoints.map()[req.path@])
            &&& endpoint_for(*cfg, req.method@, req.path@) is None && !cfg.mock_endpoints.map().contains_key(req.path@)
                && cached_answer(*cfg, *req, cache.entries()) is Some ==> (r matches RouteDecision::Cached { status, body }
                && cached_answer(*cfg, *req, cache.entries()) == Some((status, body@)))
            &&& endpoint_for(*cfg, req.method@, req.path@) is None && !cfg.mock_endpoints.map().contains_key(req.path@)
                && cached_answer(*cfg, *req, cache.entries()) is None ==> (r matches RouteDecision::Proxy { full_uri: u, stream_chunk: s, playlist: p, backend: b } && {
                &&& u@ == full_uri(req.path@, req.query@)
                &&& s == (cfg.enable_stream_booster && is_stream_chunk(req.path@))
                &&& p == (cfg.enable_stream_booster && is_playlist(req.path@))
                &&& (b is Some <==> backend_for(*cfg, req.host_header@, req.path@) is Some)
                &&& (b matches Some(x) ==> x@ == backend_for(*cfg, req.host_header@, req.path@).unwrap())
            })
        },
{
    let path = req.path.as_str();
    let method = req.method.as_str();
    let p = chars_of(path);
    if cfg.enable_security_shield && !has_prefix(&p, &chars_of("/pgate")) {
        match inspect_threat(method, path, req.query.as_str(), req.user_agent.as_str(), req.client_ip.as_str()) {
            Some(e) => {
                return RouteDecision::Block(e);
            },
            None => {},
        }
    }
    if cfg.enable_cors && str_eq(method, "OPTIONS") {
        return RouteDecision::Preflight;
    }
    if str_eq(path, "/") || str_eq(path, "/pgate") || str_eq(path, "/pgate/ui") {
        return RouteDecision::Dashboard;
    }
    if str_eq(path, "/pgate/status") || str_eq(path, "/pingora/status") {
        return RouteDecision::Status;
    }
    let get = str_eq(method, "GET");
    let post = str_eq(method, "POST");
    let delete = str_eq(method, "DELETE");
    if str_eq(path, "/pgate/api/security-logs") {
        if get {
            return RouteDecision::ListSecurityLogs;
        }
        if delete {
            return RouteDecision::ClearSecurityLogs;
        }
    }
    if str_eq(path, "/pgate/api/hosts/sync") && post {
        return RouteDecision::SyncHosts(cfg.host_routes.keys());
    }
    if str_eq(path, "/pgate/api/tcp-routes") {
        if get {
            return RouteDecision::ListTcpRoutes;
        }
        if post {
            return RouteDecision::AddTcpRoute;
        }
        if delete {
            return RouteDecision::RemoveTcpRoute;
        }
    }
    if str_eq(path, "/pgate/api/routes") {
        if get {
            return RouteDecision::ListRoutes;
        }
        if post {
            return RouteDecision::AddRoute;
        }
        if delete {
            return RouteDecision::RemoveRoute;
        }
    }
    if str_eq(path, "/pgate/api/mock") && post {
        return RouteDecision::AddMock;
    }
    if str_eq(path, "/pgate/api/settings") && post {
        return RouteDecision::UpdateSettings;
    }
    match cfg.mock_endpoints.get(path) {
        Some(body) => {
            return RouteDecision::Mock(body.clone());
        },
        None => {},
    }
    let stream_chunk = cfg.enable_stream_booster && (has_suffix(&p, &chars_of(".ts")) || has_suffix(
        &p,
        &chars_of(".m4s"),
    ) || has_suffix(&p, &chars_of(".mp4")));
    if cfg.enable_cache && get && !stream_chunk {
        let key = cache_key(req);
        match cache.get(key.as_str()) {
            Some((status, body)) => {
                return RouteDecision::Cached { status, body };
            },
            None => {},
        }
    }
    let playlist = cfg.enable_stream_booster && (has_suffix(&p, &chars_of(".m3u8")) || contains(
        &p,
        &chars_of(".m3u8?"),
    ));
    RouteDecision::Proxy {
        full_uri: full_request_uri(path, req.query.as_str()),
        stream_chunk,
        playlist,
        backend: find_backend(cfg, req.host_header.as_str(), path),
    }
}

// ---------------------------------------------------------------------------
// Backend addresses
// ---------------------------------------------------------------------------

/// `trim_start_matches(p)`: every leading copy of `p` removed.
pub open spec fn strip_prefixes(s: Seq<char>, p: Seq<char>) -> Seq<char>
    decreases s.len(),
{
    if p.len() > 0 && starts_with(s, p) {
        strip_prefixes(s.skip(p.len() as int), p)
    } else {
        s
    }
}

/// A backend URL without its scheme.
pub open spec fn without_scheme(target: Seq<char>) -> Seq<char> {
    strip_prefixes(strip_prefixes(target, "http://"@), "https://"@)
}

/// The second `:`-separated field, when there is one.
pub open spec fn port_field(s: Seq<char>) -> Option<Seq<char>> {
    let k = first_index_of(s, ':');
    if k < 0 {
        None
    } else {
        Some(host_name(s.skip(k + 1)))
    }
}

/// `parse_target`: the host and port to connect to for a backend. A bare
/// port means 127.0.0.1; otherwise the scheme is dropped, the host is the
/// text before the first `:`, and the port is the next field, 80 when it is
/// missing or not a port.
pub open spec fn target_address(target: Seq<char>) -> (Seq<char>, nat) {
    match parse_unsigned(target, 65535) {
        Some(port) => ("127.0.0.1"@, port),
        None => {
            let clean = without_scheme(target);
            let port = match port_field(clean) {
                Some(f) => match parse_unsigned(f, 65535) {
                    Some(n) => n,
                    None => 80,
                },
                None => 80,
            };
            (host_name(clean), port)
        },
    }
}

fn strip_all(s: &[char], p: &[char]) -> (r: Vec<char>)
    ensures
        r@ == strip_prefixes(s@, p@),
{
    if p.len() == 0 {
        return copy_range(s, 0, s.len());
    }
    let mut pos: usize = 0;
    assert(s@.skip(0) =~= s@);
    while pos <= s.len() && has_prefix_at(s, p, pos)
        invariant
            pos <= s.len(),
            p.len() > 0,
            strip_prefixes(s@, p@) == strip_prefixes(s@.skip(pos as int), p@),
        decreases s.len() - pos,
    {
        proof {
            assert(s@.skip(pos as int).skip(p.len() as int) =~= s@.skip(pos + p.len()));
        }
        pos = pos + p.len();
    }
    let r = copy_range(s, pos, s.len());
    assert(r@ =~= s@.skip(pos as int));
    r
}

fn has_prefix_at(s: &[char], p: &[char], pos: usize) -> (r: bool)
    requires
        pos <= s.len(),
    ensures
        r == starts_with(s@.skip(pos as int), p@),
        r ==> pos + p.len() <= s.len(),
{
    let r = crate::text::match_at(s, p, pos);
    proof {
        if r {
            assert(s@.skip(pos as int).subrange(0, p@.len() as int) =~= s@.subrange(pos as int, pos + p@.len()));
        } else {
            if pos + p@.len() <= s@.len() {
                assert(s@.skip(pos as int).subrange(0, p@.len() as int) =~= s@.subrange(pos as int, pos + p@.len()));
            }
        }
    }
    r
}

/// `parse_target` (see [`target_address`]).
pub fn parse_target(target: &str) -> (r: (String, u16))
    ensures
        r.0@ == target_address(target@).0,
        r.1 as nat == target_address(target@).1,
{
    let t = chars_of(target);
    match parse_uint(&t, 65535) {
        Some(port) => {
            return ("127.0.0.1".to_owned(), port as u16);
        },
        None => {},
    }
    let a = strip_all(&t, &chars_of("http://"));
    let clean = strip_all(&a, &chars_of("https://"));
    let host = host_of_header(string_of(&clean).as_str());
    let mut k: usize = 0;
    while k < clean.len() && clean[k] != ':'
        invariant
            k <= clean.len(),
            forall|j: int| 0 <= j < k ==> clean@[j] != ':',
        decreases clean.len() - k,
    {
        k += 1;
    }
    proof {
        crate::hosts::lemma_first_index_props(clean@, ':', k as int);
    }
    let port: u16 = if k == clean.len() {
        80
    } else {
        let rest = copy_range(&clean, k + 1, clean.len());
        assert(rest@ =~= clean@.skip(k + 1));
        let field = host_of_header(string_of(&rest).as_str());
        let fc = chars_of(field.as_str());
        match parse_uint(&fc, 65535) {
            Some(n) => n as u16,
            None => 80,
        }
    };
    (host, port)
}

/// The address a TCP relay connects to: the scheme is dropped, and a target
/// without `:` is a local port.
pub open spec fn relay_address(target: Seq<char>) -> Seq<char> {
    let clean = without_scheme(target);
    if clean.contains(':') {
        clean
    } else {
        "127.0.0.1:"@ + clean
    }
}

/// `start_listeners`' address for a relay target (see [`relay_address`]).
pub fn relay_connect_address(target: &str) -> (r: String)
    ensures
        r@ == relay_address(target@),
{
    let t = chars_of(target);
    let a = strip_all(&t, &chars_of("http://"));
    let clean = strip_all(&a, &chars_of("https://"));
    if has_char(&clean, ':') {
        string_of(&clean)
    } else {
        let mut r = "127.0.0.1:".to_owned();
        r.append(string_of(&clean).as_str());
        r
    }
}


// ---------------------------------------------------------------------------
// Laws of routing
// ---------------------------------------------------------------------------

/// What a read gives back of a write: once a domain route is added, a
/// request for that domain (any port in the `Host` header) goes to the
/// route's target, whatever its path.
pub proof fn law_domain_route_is_used(
    before: GatewayConfig,
    after: GatewayConfig,
    source: Seq<char>,
    target: Seq<char>,
    host_header: Seq<char>,
    path: Seq<char>,
)
    requires
        after.host_routes.map() == before.host_routes.map().insert(
            source,
            crate::gateway_config::route_target(target),
        ),
        host_name(host_header) == source,
    ensures
        backend_for(after, host_header, path) == Some(crate::gateway_config::route_target(target)),
{
}

/// Once a route is removed, its domain no longer selects a backend: a
/// request for it is forwarded only through a path route.
pub proof fn law_removed_domain_route_is_unused(
    before: GatewayConfig,
    after: GatewayConfig,
    source: Seq<char>,
    host_header: Seq<char>,
    path: Seq<char>,
)
    requires
        after.host_routes.map() == before.host_routes.map().remove(source),
        host_name(host_header) == source,
    ensures
        backend_for(after, host_header, path) == (if first_prefix_route(after.path_routes.pairs(), path, 0) >= 0 {
            Some(after.path_routes.pairs()[first_prefix_route(after.path_routes.pairs(), path, 0)].1)
        } else {
            None
        }),
{
}

/// Once a mock is registered, the path it was registered at (with its
/// leading `/`) holds the compacted body, which `route_request` answers
/// with for any request there that the shield lets through and that no
/// built-in endpoint takes.
pub proof fn law_registered_mock_is_served(
    before: GatewayConfig,
    after: GatewayConfig,
    path: Seq<char>,
    json: Seq<char>,
)
    requires
        crate::gateway_config::compact_json(json) is Some,
        after.mock_endpoints.map() == before.mock_endpoints.map().insert(
            crate::gateway_config::mock_path(path),
            crate::gateway_config::compact_json(json).unwrap(),
        ),
    ensures
        after.mock_endpoints.map().contains_key(crate::gateway_config::mock_path(path)),
        after.mock_endpoints.map()[crate::gateway_config::mock_path(path)]
            == crate::gateway_config::compact_json(json).unwrap(),
        starts_with(crate::gateway_config::mock_path(path), seq!['/']),
{
    let m = crate::gateway_config::mock_path(path);
    assert(m.subrange(0, 1) =~= seq!['/']);
}

// ---------------------------------------------------------------------------
// HLS playlists
// ---------------------------------------------------------------------------

/// A playlist line names a video chunk: not empty, not a `#` tag, and
/// ending in `.ts` or `.m4s` (or holding one followed by a query).
pub open spec fn is_chunk_line(line: Seq<char>) -> bool {
    &&& line.len() > 0
    &&& line[0] != '#'
    &&& (ends_with(line, ".ts"@) || ends_with(line, ".m4s"@) || contains_seq(line, ".ts?"@)
        || contains_seq(line, ".m4s?"@))
}

/// The trimmed chunk lines of a playlist, in order.
pub open spec fn chunk_lines(lines: Seq<Seq<char>>) -> Seq<Seq<char>>
    decreases lines.len(),
{
    if lines.len() == 0 {
        seq![]
    } else {
        let t = crate::text::trim_both(lines.last(), crate::text::trim_pred(crate::text::TrimSet::WhiteSpace));
        chunk_lines(lines.drop_last()) + if is_chunk_line(t) {
            seq![t]
        } else {
            seq![]
        }
    }
}

/// `parse_and_prefetch`'s choice: the last three chunks of the playlist,
/// newest first.
pub open spec fn prefetch_targets(content: Seq<char>) -> Seq<Seq<char>> {
    let all = chunk_lines(crate::hosts::lines_of(content));
    let n = if all.len() < 3 { all.len() } else { 3 };
    Seq::new(n, |i: int| all[all.len() - 1 - i])
}

/// The chunks of a playlist to prefetch (see [`prefetch_targets`]).
pub fn playlist_chunks(content: &str) -> (r: Vec<String>)
    ensures
        r@.len() == prefetch_targets(content@).len(),
        forall|i: int| 0 <= i < r@.len() ==> #[trigger] r@[i]@ == prefetch_targets(content@)[i],
{
    let text = chars_of(content);
    let lines = crate::hosts::split_lines(&text);
    let ghost all_lines = lines@.map_values(|l: Vec<char>| l@);
    let mut found: Vec<Vec<char>> = Vec::new();
    let mut i: usize = 0;
    let ts = chars_of(".ts");
    let m4s = chars_of(".m4s");
    let tsq = chars_of(".ts?");
    let m4sq = chars_of(".m4s?");
    while i < lines.len()
        invariant
            i <= lines.len(),
            all_lines == lines@.map_values(|l: Vec<char>| l@),
            all_lines == crate::hosts::lines_of(content@),
            ts@ == ".ts"@,
            m4s@ == ".m4s"@,
            tsq@ == ".ts?"@,
            m4sq@ == ".m4s?"@,
            found@.map_values(|l: Vec<char>| l@) == chunk_lines(all_lines.take(i as int)),
        decreases lines.len() - i,
    {
        assert(all_lines.take(i + 1).drop_last() =~= all_lines.take(i as int));
        let t = crate::text::trim(&lines[i], crate::text::TrimSet::WhiteSpace);
        let ghost before = found@.map_values(|l: Vec<char>| l@);
        if t.len() > 0 && t[0] != '#' && (has_suffix(&t, &ts) || has_suffix(&t, &m4s) || contains(&t, &tsq)
            || contains(&t, &m4sq)) {
            found.push(t);
            assert(found@.map_values(|l: Vec<char>| l@) =~= before + seq![found@.last()@]);
        } else {
            assert(found@.map_values(|l: Vec<char>| l@) =~= before + Seq::<Seq<char>>::empty());
        }
        i += 1;
    }
    assert(all_lines.take(lines.len() as int) =~= all_lines);
    let ghost all = found@.map_values(|l: Vec<char>| l@);
    let n: usize = if found.len() < 3 {
        found.len()
    } else {
        3
    };
    let mut out: Vec<String> = Vec::new();
    let mut k: usize = 0;
    while k < n
        invariant
            k <= n <= found.len(),
            n == (if found.len() < 3 { found.len() } else { 3 }),
            all == found@.map_values(|l: Vec<char>| l@),
            out@.len() == k,
            forall|j: int| 0 <= j < k ==> #[trigger] out@[j]@ == all[all.len() - 1 - j],
        decreases n - k,
    {
        out.push(string_of(&found[found.len() - 1 - k]));
        k += 1;
    }
    out
}

/// The URL a chunk is fetched from: an absolute URL is kept; a relative one
/// is resolved against the playlist's URI up to its last `/`.
pub open spec fn chunk_url(base: Seq<char>, chunk: Seq<char>) -> Seq<char> {
    let k = crate::file_names::last_index_of(base, '/');
    if starts_with(chunk, "http://"@) || starts_with(chunk, "https://"@) {
        chunk
    } else if k >= 0 {
        base.take(k) + seq!['/'] + chunk
    } else {
        chunk
    }
}

/// Resolves a chunk's URL (see [`chunk_url`]).
pub fn resolve_chunk_url(base: &str, chunk: &str) -> (r: String)
    ensures
        r@ == chunk_url(base@, chunk@),
{
    let c = chars_of(chunk);
    if has_prefix(&c, &chars_of("http://")) || has_prefix(&c, &chars_of("https://")) {
        return chunk.to_owned();
    }
    let b = chars_of(base);
    let k = crate::file_names::find_last(&b, '/');
    proof {
        crate::file_names::lemma_last_index_bounds(b@, '/');
    }
    match k {
        Some(i) => {
            let mut r = string_of(&copy_range(&b, 0, i));
            push_char(&mut r, '/');
            r.append(chunk);
            r
        },
        None => chunk.to_owned(),
    }
}

/// The headers that let any origin call the gateway.
pub open spec fn cors_headers_of() -> Seq<(Seq<char>, Seq<char>)> {
    seq![
        ("access-control-allow-origin"@, "*"@),
        ("access-control-allow-methods"@, "GET, POST, PUT, DELETE, PATCH, OPTIONS, HEAD"@),
        ("access-control-allow-headers"@, "Authorization, Content-Type, Accept, Origin, User-Agent, X-Requested-With"@),
        ("access-control-allow-credentials"@, "true"@),
        ("access-control-max-age"@, "86400"@),
    ]
}

/// Header pairs read as plain values.
pub open spec fn header_views(v: Seq<(String, String)>) -> Seq<(Seq<char>, Seq<char>)> {
    v.map_values(|h: (String, String)| (h.0@, h.1@))
}

/// Appends the CORS headers (see [`cors_headers_of`]).
pub fn inject_cors_headers(headers: &mut Vec<(String, String)>)
    ensures
        header_views(final(headers)@) == header_views(old(headers)@) + cors_headers_of(),
{
    let ghost before = header_views(headers@);
    headers.push(("access-control-allow-origin".to_owned(), "*".to_owned()));
    headers.push(("access-control-allow-methods".to_owned(), "GET, POST, PUT, DELETE, PATCH, OPTIONS, HEAD".to_owned()));
    headers.push((
        "access-control-allow-headers".to_owned(),
        "Authorization, Content-Type, Accept, Origin, User-Agent, X-Requested-With".to_owned(),
    ));
    headers.push(("access-control-allow-credentials".to_owned(), "true".to_owned()));
    headers.push(("access-control-max-age".to_owned(), "86400".to_owned()));
    assert(header_views(headers@) =~= before + cors_headers_of());
}

/// The headers of a canned JSON answer: its content type, then the CORS
/// headers when they are on.
pub open spec fn mock_headers_of(enable_cors: bool) -> Seq<(Seq<char>, Seq<char>)> {
    seq![("content-type"@, "application/json; charset=utf-8"@)] + if enable_cors {
        cors_headers_of()
    } else {
        Seq::empty()
    }
}

/// Builds [`mock_headers_of`].
pub fn mock_response_headers(enable_cors: bool) -> (r: Vec<(String, String)>)
    ensures
        header_views(r@) == mock_headers_of(enable_cors),
{
    let mut h: Vec<(String, String)> = Vec::new();
    h.push(("content-type".to_owned(), "application/json; charset=utf-8".to_owned()));
    assert(header_views(h@) =~= seq![("content-type"@, "application/json; charset=utf-8"@)]);
    if enable_cors {
        inject_cors_headers(&mut h);
    } else {
        assert(header_views(h@) =~= mock_headers_of(enable_cors));
    }
    h
}

/// The answer to a CORS preflight: 204 with the CORS headers.
pub fn handle_preflight() -> (r: (u16, Vec<(String, String)>))
    ensures
        r.0 == 204,
        header_views(r.1@) == cors_headers_of(),
{
    let mut h: Vec<(String, String)> = Vec::new();
    inject_cors_headers(&mut h);
    assert(header_views(h@) =~= Seq::<(Seq<char>, Seq<char>)>::empty() + cors_headers_of());
    (204, h)
}

/// A last line added after the text's line break, or to an empty text, is
/// read as one more line.
proof fn lemma_lines_of_append(head: Seq<char>, line: Seq<char>)
    requires
        head.len() == 0 || head.last() == '\n',
        line.len() > 0,
        !line.contains('\n'),
    ensures
        crate::hosts::lines_of(head + line) == crate::hosts::lines_of(head).push(line),
    decreases head.len(),
{
    let s = head + line;
    if head.len() == 0 {
        assert(s =~= line);
        crate::hosts::lemma_first_index_spec(line, '\n');
        assert(crate::hosts::first_index_of(line, '\n') < 0) by {
            if crate::hosts::first_index_of(line, '\n') >= 0 {
                let k = crate::hosts::first_index_of(line, '\n');
                assert(line[k] == '\n');
            }
        }
        assert(crate::hosts::lines_of(head) =~= Seq::<Seq<char>>::empty());
        assert(crate::hosts::lines_of(line) =~= seq![line]);
    } else {
        crate::hosts::lemma_first_index_spec(head, '\n');
        let k0 = crate::hosts::first_index_of(head, '\n');
        assert(k0 >= 0) by {
            if k0 < 0 {
                assert(head[head.len() - 1] == '\n');
            }
        }
        assert forall|j: int| 0 <= j < k0 implies s[j] != '\n' by {
            assert(s[j] == head[j]);
        }
        assert(s[k0] == head[k0]);
        crate::hosts::lemma_first_index_props(s, '\n', k0);
        let h2 = head.skip(k0 + 1);
        assert(s.take(k0) =~= head.take(k0));
        assert(s.skip(k0 + 1) =~= h2 + line);
        if h2.len() > 0 {
            assert(h2.last() == head.last());
        }
        lemma_lines_of_append(h2, line);
        let x = crate::hosts::strip_cr(head.take(k0));
        assert(crate::hosts::lines_of(head) == seq![x] + crate::hosts::lines_of(h2));
        assert(crate::hosts::lines_of(s) == seq![x] + crate::hosts::lines_of(h2 + line));
        assert(seq![x] + crate::hosts::lines_of(h2).push(line) =~= (seq![x] + crate::hosts::lines_of(
            h2,
        )).push(line));
    }
}

/// A playlist line the booster takes as a video chunk: not empty, not a
/// `#` tag, and naming an MPEG-TS (`.ts`) or fragmented-MP4 (`.m4s`)
/// segment, possibly followed by a query.
pub open spec fn names_a_segment(line: Seq<char>) -> bool {
    let mpeg_ts = ends_with(line, ".ts"@) || contains_seq(line, ".ts?"@);
    let fragmented_mp4 = ends_with(line, ".m4s"@) || contains_seq(line, ".m4s?"@);
    line.len() > 0 && line[0] != '#' && (mpeg_ts || fragmented_mp4)
}

/// The newest segment is fetched first: a segment line (see
/// [`names_a_segment`], without surrounding blanks) appended as the last
/// line of a playlist becomes the first prefetch target.
pub proof fn law_newest_segment_is_prefetched_first(head: Seq<char>, line: Seq<char>)
    requires
        head.len() == 0 || head.last() == '\n',
        !line.contains('\n'),
        names_a_segment(line),
        !crate::text::is_white_space(line[0]),
        !crate::text::is_white_space(line.last()),
    ensures
        prefetch_targets(head + line).len() >= 1,
        prefetch_targets(head + line)[0] == line,
{
    lemma_lines_of_append(head, line);
    let ws = crate::text::trim_pred(crate::text::TrimSet::WhiteSpace);
    crate::file_names::lemma_trim_both_noop(line, ws);
    let lines = crate::hosts::lines_of(head).push(line);
    assert(lines.drop_last() =~= crate::hosts::lines_of(head));
    assert(is_chunk_line(line));
    assert(chunk_lines(lines) == chunk_lines(crate::hosts::lines_of(head)) + seq![line]);
}

/// Other lines are never prefetched: appending a line that is a `#` tag,
/// or names no segment, leaves the prefetch targets as they were.
pub proof fn law_other_lines_are_not_prefetched(head: Seq<char>, line: Seq<char>)
    requires
        head.len() == 0 || head.last() == '\n',
        line.len() > 0,
        !line.contains('\n'),
        !crate::text::is_white_space(line[0]),
        !crate::text::is_white_space(line.last()),
        !names_a_segment(line),
    ensures
        prefetch_targets(head + line) == prefetch_targets(head),
{
    lemma_lines_of_append(head, line);
    let ws = crate::text::trim_pred(crate::text::TrimSet::WhiteSpace);
    crate::file_names::lemma_trim_both_noop(line, ws);
    let lines = crate::hosts::lines_of(head).push(line);
    assert(lines.drop_last() =~= crate::hosts::lines_of(head));
    assert(!is_chunk_line(line));
    assert(chunk_lines(lines) =~= chunk_lines(crate::hosts::lines_of(head)));
}

/// Which requests the stream booster handles: a path ending in `.mp4`,
/// `.m4s` or `.ts` is a stream chunk (served from the segment cache when
/// the booster is on), and a path ending in `.m3u8`, or holding `.m3u8?`,
/// is a playlist. In particular every segment a playlist lists by a plain
/// name (see [`names_a_segment`]) is, when requested, a stream chunk.
pub proof fn law_booster_recognises_streams(path: Seq<char>)
    ensures
        is_stream_chunk(path) == (ends_with(path, ".mp4"@) || ends_with(path, ".m4s"@) || ends_with(
            path,
            ".ts"@,
        )),
        is_playlist(path) == (contains_seq(path, ".m3u8?"@) || ends_with(path, ".m3u8"@)),
        names_a_segment(path) && !contains_seq(path, ".ts?"@) && !contains_seq(path, ".m4s?"@)
            ==> is_stream_chunk(path),
{
}

} // verus!
