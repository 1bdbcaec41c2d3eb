//! The gateway's configuration: listening addresses, feature switches and
//! the routing tables, with the rules that add and remove routes.
use vstd::prelude::*;
use std::collections::HashMap;
use crate::route_table::{RouteTable, has_key};
use crate::text::{
    chars_of, contains_seq, decimal, has_char, has_prefix, parse_uint, parse_unsigned, push_decimal,
    starts_with, string_of, push_char,
};

verus! {

broadcast use vstd::std_specs::hash::group_hash_axioms;

/// Errors of the gateway.
#[derive(Debug)]
pub enum GatewayError {
    /// The configuration could not be read, written or understood.
    ConfigError(String),
    /// A socket could not be bound or used.
    NetworkError(String),
    /// A backend did not answer.
    BackendUnreachable(String),
    /// A request named an address the gateway cannot use.
    InvalidTarget(String),
    /// An operating-system I/O failure, with its message.
    IoError(String),
}

/// Default listening port of the gateway.
pub const DEFAULT_GATEWAY_PORT: u16 = 8080;

/// Default HTTPS listening port.
pub const DEFAULT_HTTPS_PORT: u16 = 8443;

/// The gateway's configuration.
pub struct GatewayConfig {
    pub host: String,
    pub port: u16,
    pub enable_cors: bool,
    pub enable_cache: bool,
    pub enable_stream_booster: bool,
    pub enable_security_shield: bool,
    pub enable_https: bool,
    pub https_port: u16,
    pub enable_tcp_no_lag: bool,
    /// Domain routes, e.g. `app.local` to `http://127.0.0.1:5173`.
    pub host_routes: RouteTable,
    /// Path-prefix routes, e.g. `/api` to `http://127.0.0.1:8000`.
    pub path_routes: RouteTable,
    /// TCP relays, e.g. `25565` to `127.0.0.1:25565`.
    pub tcp_routes: HashMap<u16, String>,
    /// Canned JSON answers, e.g. `/api/test` to `{"status":"ok"}`.
    pub mock_endpoints: RouteTable,
}

/// Default listening host.
pub fn default_host() -> (r: String)
    ensures
        r@ == "127.0.0.1"@,
{
    "127.0.0.1".to_owned()
}

/// Default listening port.
pub fn default_port() -> (r: u16)
    ensures
        r == DEFAULT_GATEWAY_PORT,
{
    DEFAULT_GATEWAY_PORT
}

/// Default HTTPS port.
pub fn default_https_port() -> (r: u16)
    ensures
        r == DEFAULT_HTTPS_PORT,
{
    DEFAULT_HTTPS_PORT
}

/// Default of a switch that starts on.
pub fn default_true() -> (r: bool)
    ensures
        r,
{
    true
}

/// Default of a switch that starts off.
pub fn default_false() -> (r: bool)
    ensures
        !r,
{
    false
}

/// The canned answer registered at `/api/hello` in a fresh configuration.
pub open spec fn hello_mock_body() -> Seq<char> {
    "{\"message\":\"vgate 게이트웨이가 정상 작동 중입니다!\",\"timestamp\":2026}"@
}

impl GatewayConfig {
    /// The routing tables have unique keys.
    pub open spec fn wf(&self) -> bool {
        &&& self.host_routes.wf()
        &&& self.path_routes.wf()
        &&& self.mock_endpoints.wf()
    }

    /// Everything but the routing tables is as in `other`.
    pub open spec fn same_settings(&self, other: &GatewayConfig) -> bool {
        &&& self.host == other.host
        &&& self.port == other.port
        &&& self.enable_cors == other.enable_cors
        &&& self.enable_cache == other.enable_cache
        &&& self.enable_stream_booster == other.enable_stream_booster
        &&& self.enable_security_shield == other.enable_security_shield
        &&& self.enable_https == other.enable_https
        &&& self.https_port == other.https_port
        &&& self.enable_tcp_no_lag == other.enable_tcp_no_lag
    }

    /// The configuration written on first start: every switch on but HTTPS
    /// and the TCP tuning, two sample domain routes and one sample mock.
    pub fn default_config() -> (r: GatewayConfig)
        ensures
            r.wf(),
            r.host@ == "127.0.0.1"@,
            r.port == DEFAULT_GATEWAY_PORT,
            r.enable_cors && r.enable_cache && r.enable_stream_booster && r.enable_security_shield,
            !r.enable_https && !r.enable_tcp_no_lag,
            r.https_port == DEFAULT_HTTPS_PORT,
            r.host_routes.map() == Map::<Seq<char>, Seq<char>>::empty().insert(
                "app.local"@,
                "http://127.0.0.1:5173"@,
            ).insert("api.local"@, "http://127.0.0.1:8000"@),
            r.path_routes.map() == Map::<Seq<char>, Seq<char>>::empty(),
            r.tcp_routes@ == Map::<u16, String>::empty(),
            r.mock_endpoints.map() == Map::<Seq<char>, Seq<char>>::empty().insert(
                "/api/hello"@,
                hello_mock_body(),
            ),
    {
        let mut host_routes = RouteTable::new();
        host_routes.insert("app.local".to_owned(), "http://127.0.0.1:5173".to_owned());
        host_routes.insert("api.local".to_owned(), "http://127.0.0.1:8000".to_owned());
        let mut mock_endpoints = RouteTable::new();
        mock_endpoints.insert(
            "/api/hello".to_owned(),
            "{\"message\":\"vgate 게이트웨이가 정상 작동 중입니다!\",\"timestamp\":2026}".to_owned(),
        );
        GatewayConfig {
            host: default_host(),
            port: default_port(),
            enable_cors: true,
            enable_cache: true,
            enable_stream_booster: true,
            enable_security_shield: true,
            enable_https: false,
            enable_tcp_no_lag: false,
            https_port: default_https_port(),
            host_routes,
            path_routes: RouteTable::new(),
            tcp_routes: HashMap::new(),
            mock_endpoints,
        }
    }
}

/// The target stored for a route: a URL is kept; a port number becomes
/// `http://127.0.0.1:<port>`; anything else gets `http://` in front.
pub open spec fn route_target(target: Seq<char>) -> Seq<char> {
    if starts_with(target, "http://"@) || starts_with(target, "https://"@) {
        target
    } else {
        match parse_unsigned(target, 65535) {
            Some(port) => "http://127.0.0.1:"@ + decimal(port),
            None => "http://"@ + target,
        }
    }
}

/// Formats the target of a new route (see [`route_target`]).
pub fn format_route_target(target: &str) -> (r: String)
    ensures
        r@ == route_target(target@),
{
    let chars = chars_of(target);
    if has_prefix(&chars, &chars_of("http://")) || has_prefix(&chars, &chars_of("https://")) {
        return target.to_owned();
    }
    match parse_uint(&chars, 65535) {
        Some(port) => {
            let mut digits: Vec<char> = Vec::new();
            push_decimal(&mut digits, port as u64);
            let mut r = "http://127.0.0.1:".to_owned();
            let d = string_of(&digits);
            r.append(d.as_str());
            r
        },
        None => {
            let mut r = "http://".to_owned();
            r.append(target);
            r
        },
    }
}

/// A route source that begins with `/` is a path prefix; any other is a
/// domain.
pub open spec fn is_path_source(source: Seq<char>) -> bool {
    source.len() > 0 && source[0] == '/'
}

/// The relay address stored for a TCP route: kept when it holds a `:`,
/// otherwise taken as a local port.
pub open spec fn tcp_target(target: Seq<char>) -> Seq<char> {
    if target.contains(':') {
        target
    } else {
        "127.0.0.1:"@ + target
    }
}

/// Every route target is an `http://` or `https://` address, and a
/// formatted target formats to itself: a route re-added with the target it
/// shows keeps that target.
pub proof fn law_route_target_is_url(target: Seq<char>)
    ensures
        starts_with(route_target(target), "http://"@) || starts_with(
            route_target(target),
            "https://"@,
        ),
        route_target(route_target(target)) == route_target(target),
{
    let r = route_target(target);
    if !(starts_with(target, "http://"@) || starts_with(target, "https://"@)) {
        let rest = match parse_unsigned(target, 65535) {
            Some(port) => "127.0.0.1:"@ + decimal(port),
            None => target,
        };
        assert(r =~= "http://"@ + rest) by {
            reveal_strlit("http://127.0.0.1:");
            reveal_strlit("http://");
            reveal_strlit("127.0.0.1:");
        }
        assert(r.subrange(0, "http://"@.len() as int) =~= "http://"@);
    }
}

/// Every relay target names a port after a `:`, and a formatted target
/// formats to itself.
pub proof fn law_tcp_target_has_port(target: Seq<char>)
    ensures
        tcp_target(target).contains(':'),
        tcp_target(tcp_target(target)) == tcp_target(target),
{
    if !target.contains(':') {
        reveal_strlit("127.0.0.1:");
        let r = tcp_target(target);
        assert(r[9] == ':');
    }
}

/// Message prefix for a mock body that is not JSON.
pub open spec fn invalid_json_prefix() -> Seq<char> {
    "잘못된 JSON 형식입니다: "@
}

/// The path a mock is registered at: with a leading `/`.
pub open spec fn mock_path(path: Seq<char>) -> Seq<char> {
    if is_path_source(path) {
        path
    } else {
        seq!['/'] + path
    }
}

/// What `serde_json::from_str::<serde_json::Value>` followed by
/// `Value::to_string` gives for a text: the compact form of the JSON value,
/// or nothing when the text is not JSON.
pub uninterp spec fn compact_json(text: Seq<char>) -> Option<Seq<char>>;

/// Parses `text` as a JSON value and prints it back in compact form
/// (`serde_json::from_str` then `to_string`). Success and the printed text
/// are named by `compact_json`.
#[verifier::external_body]
fn parse_json_compact(text: &str) -> (r: Result<String, serde_json::Error>)
    ensures
        r is Ok <==> compact_json(text@) is Some,
        r matches Ok(v) ==> v@ == compact_json(text@).unwrap(),
{
    serde_json::from_str::<serde_json::Value>(text).map(|v| v.to_string())
}

/// The text of a JSON parse error (its `Display`). Nothing is promised of it.
#[verifier::external_body]
fn json_error_text(e: &serde_json::Error) -> String {
    e.to_string()
}

#[verifier::external_type_specification]
#[verifier::external_body]
pub struct ExJsonError(serde_json::Error);

impl GatewayConfig {
    /// `add_route`: registers a domain or path route; the target is
    /// formatted by [`route_target`].
    pub fn add_route(&mut self, source: &str, target: &str)
        requires
            old(self).wf(),
        ensures
            final(self).wf(),
            final(self).same_settings(old(self)),
            final(self).tcp_routes@ == old(self).tcp_routes@,
            final(self).mock_endpoints == old(self).mock_endpoints,
            is_path_source(source@) ==> final(self).path_routes.map() == old(
                self,
            ).path_routes.map().insert(source@, route_target(target@)) && final(self).host_routes
                == old(self).host_routes,
            !is_path_source(source@) ==> final(self).host_routes.map() == old(
                self,
            ).host_routes.map().insert(source@, route_target(target@)) && final(self).path_routes
                == old(self).path_routes,
    {
        let formatted = format_route_target(target);
        let src = chars_of(source);
        if src.len() > 0 && src[0] == '/' {
            self.path_routes.insert(source.to_owned(), formatted);
        } else {
            self.host_routes.insert(source.to_owned(), formatted);
        }
    }

    /// `remove_route`: drops the source from the domain routes, the path
    /// routes and the mocks; tells whether anything was there.
    pub fn remove_route(&mut self, source: &str) -> (removed: bool)
        requires
            old(self).wf(),
        ensures
            final(self).wf(),
            final(self).same_settings(old(self)),
            final(self).tcp_routes@ == old(self).tcp_routes@,
            final(self).host_routes.map() == old(self).host_routes.map().remove(source@),
            final(self).path_routes.map() == old(self).path_routes.map().remove(source@),
            final(self).mock_endpoints.map() == old(self).mock_endpoints.map().remove(source@),
            removed == (old(self).host_routes.map().contains_key(source@) || old(
                self,
            ).path_routes.map().contains_key(source@) || old(self).mock_endpoints.map().contains_key(
                source@,
            )),
    {
        let a = self.host_routes.remove(source);
        let b = self.path_routes.remove(source);
        let c = self.mock_endpoints.remove(source);
        a.is_some() || b.is_some() || c.is_some()
    }

    /// `add_mock`: registers a canned JSON answer at a path (a `/` is put in
    /// front when missing); the body must be JSON and is stored compacted.
    pub fn add_mock(&mut self, path: &str, json_content: &str) -> (r: Result<(), GatewayError>)
        requires
            old(self).wf(),
        ensures
            final(self).wf(),
            final(self).same_settings(old(self)),
            final(self).tcp_routes@ == old(self).tcp_routes@,
            final(self).host_routes == old(self).host_routes,
            final(self).path_routes == old(self).path_routes,
            r is Ok <==> compact_json(json_content@) is Some,
            r is Ok ==> final(self).mock_endpoints.map() == old(self).mock_endpoints.map().insert(
                mock_path(path@),
                compact_json(json_content@).unwrap(),
            ),
            r is Err ==> final(self).mock_endpoints == old(self).mock_endpoints,
            r matches Err(e) ==> (e matches GatewayError::ConfigError(m) && m@.len()
                >= invalid_json_prefix().len() && m@.subrange(0, invalid_json_prefix().len() as int)
                == invalid_json_prefix()),
    {
        let p = chars_of(path);
        let full = if p.len() > 0 && p[0] == '/' {
            path.to_owned()
        } else {
            let mut s = String::new();
            push_char(&mut s, '/');
            s.append(path);
            assert(s@ =~= seq!['/'] + path@);
            s
        };
        assert(full@ == mock_path(path@));
        match parse_json_compact(json_content) {
            Ok(compact) => {
                self.mock_endpoints.insert(full, compact);
                Ok(())
            },
            Err(e) => {
                let mut m = "잘못된 JSON 형식입니다: ".to_owned();
                let detail = json_error_text(&e);
                m.append(detail.as_str());
                assert(m@.subrange(0, invalid_json_prefix().len() as int) =~= invalid_json_prefix());
                Err(GatewayError::ConfigError(m))
            },
        }
    }

    /// `add_tcp_route`: relays a local TCP port to a target (see
    /// [`tcp_target`]).
    pub fn add_tcp_route(&mut self, listen_port: u16, target: &str)
        ensures
            final(self).same_settings(old(self)),
            final(self).host_routes == old(self).host_routes,
            final(self).path_routes == old(self).path_routes,
            final(self).mock_endpoints == old(self).mock_endpoints,
            final(self).tcp_routes@.dom() == old(self).tcp_routes@.dom().insert(listen_port),
            final(self).tcp_routes@[listen_port]@ == tcp_target(target@),
            forall|p: u16| p != listen_port ==> #[trigger] final(self).tcp_routes@.contains_key(p)
                ==> final(self).tcp_routes@[p] == old(self).tcp_routes@[p],
    {
        let t = chars_of(target);
        let formatted = if has_char(&t, ':') {
            target.to_owned()
        } else {
            let mut s = "127.0.0.1:".to_owned();
            s.append(target);
            s
        };
        self.tcp_routes.insert(listen_port, formatted);
    }

    /// `remove_tcp_route`: stops relaying a port; tells whether it was
    /// relayed.
    pub fn remove_tcp_route(&mut self, listen_port: u16) -> (removed: bool)
        ensures
            final(self).same_settings(old(self)),
            final(self).host_routes == old(self).host_routes,
            final(self).path_routes == old(self).path_routes,
            final(self).mock_endpoints == old(self).mock_endpoints,
            final(self).tcp_routes@ == old(self).tcp_routes@.remove(listen_port),
            removed == old(self).tcp_routes@.contains_key(listen_port),
    {
        self.tcp_routes.remove(&listen_port).is_some()
    }
}

/// The switches the dashboard's settings form may change; `None` keeps a
/// switch as it is.
pub struct SettingsUpdate {
    pub enable_cors: Option<bool>,
    pub enable_cache: Option<bool>,
    pub enable_stream_booster: Option<bool>,
    pub enable_security_shield: Option<bool>,
    pub enable_https: Option<bool>,
    pub enable_tcp_no_lag: Option<bool>,
    pub https_port: Option<u16>,
    pub autostart: Option<bool>,
}

/// What applying the settings asks of the system: to apply (`Some(true)`)
/// or revert (`Some(false)`) the TCP tuning, and to register or remove the
/// start with Windows.
pub struct SettingsEffects {
    pub tcp_no_lag: Option<bool>,
    pub autostart: Option<bool>,
}

/// An optional new value, or the current one.
pub open spec fn or_keep<T>(new: Option<T>, current: T) -> T {
    match new {
        Some(v) => v,
        None => current,
    }
}

/// An optional new switch, or the current one.
fn keep_bool(new: Option<bool>, current: bool) -> (r: bool)
    ensures
        r == or_keep(new, current),
{
    match new {
        Some(v) => v,
        None => current,
    }
}

impl GatewayConfig {
    /// The settings endpoint: each given switch replaces the configured one;
    /// routes and address stay.
    pub fn apply_settings(&mut self, u: &SettingsUpdate) -> (r: SettingsEffects)
        ensures
            final(self).enable_cors == or_keep(u.enable_cors, old(self).enable_cors),
            final(self).enable_cache == or_keep(u.enable_cache, old(self).enable_cache),
            final(self).enable_stream_booster == or_keep(
                u.enable_stream_booster,
                old(self).enable_stream_booster,
            ),
            final(self).enable_security_shield == or_keep(
                u.enable_security_shield,
                old(self).enable_security_shield,
            ),
            final(self).enable_https == or_keep(u.enable_https, old(self).enable_https),
            final(self).enable_tcp_no_lag == or_keep(u.enable_tcp_no_lag, old(self).enable_tcp_no_lag),
            final(self).https_port == or_keep(u.https_port, old(self).https_port),
            final(self).host == old(self).host,
            final(self).port == old(self).port,
            final(self).host_routes == old(self).host_routes,
            final(self).path_routes == old(self).path_routes,
            final(self).mock_endpoints == old(self).mock_endpoints,
            final(self).tcp_routes@ == old(self).tcp_routes@,
            r.tcp_no_lag == u.enable_tcp_no_lag,
            r.autostart == u.autostart,
    {
        self.enable_cors = keep_bool(u.enable_cors, self.enable_cors);
        self.enable_cache = keep_bool(u.enable_cache, self.enable_cache);
        self.enable_stream_booster = keep_bool(u.enable_stream_booster, self.enable_stream_booster);
        self.enable_security_shield = keep_bool(u.enable_security_shield, self.enable_security_shield);
        self.enable_https = keep_bool(u.enable_https, self.enable_https);
        self.enable_tcp_no_lag = keep_bool(u.enable_tcp_no_lag, self.enable_tcp_no_lag);
        self.https_port = match u.https_port {
            Some(p) => p,
            None => self.https_port,
        };
        SettingsEffects { tcp_no_lag: u.enable_tcp_no_lag, autostart: u.autostart }
    }
}

/// The text shown for an error of the gateway.
pub open spec fn error_message_of(e: GatewayError) -> Seq<char> {
    match e {
        GatewayError::ConfigError(m) => "설정 파일 접근/파싱 실패: "@ + m@,
        GatewayError::NetworkError(m) => "네트워크 바인딩 또는 리스닝 실패: "@ + m@,
        GatewayError::BackendUnreachable(m) => "백엔드 대상 서버에 연결할 수 없습니다 ("@ + m@
            + "). 서버가 켜져 있는지 확인하세요."@,
        GatewayError::InvalidTarget(m) => "유효하지 않은 요청 주소 또는 도메인입니다: "@ + m@,
        GatewayError::IoError(m) => "I/O 작업 실패: "@ + m@,
    }
}

impl GatewayError {
    /// The text shown for this error (see [`error_message_of`]).
    pub fn message(&self) -> (r: String)
        ensures
            r@ == error_message_of(*self),
    {
        match self {
            GatewayError::ConfigError(m) => {
                let mut r = "설정 파일 접근/파싱 실패: ".to_owned();
                r.append(m.as_str());
                r
            },
            GatewayError::NetworkError(m) => {
                let mut r = "네트워크 바인딩 또는 리스닝 실패: ".to_owned();
                r.append(m.as_str());
                r
            },
            GatewayError::BackendUnreachable(m) => {
                let mut r = "백엔드 대상 서버에 연결할 수 없습니다 (".to_owned();
                r.append(m.as_str());
                r.append("). 서버가 켜져 있는지 확인하세요.");
                r
            },
            GatewayError::InvalidTarget(m) => {
                let mut r = "유효하지 않은 요청 주소 또는 도메인입니다: ".to_owned();
                r.append(m.as_str());
                r
            },
            GatewayError::IoError(m) => {
                let mut r = "I/O 작업 실패: ".to_owned();
                r.append(m.as_str());
                r
            },
        }
    }
}

} // verus!
