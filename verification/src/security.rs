//! The gateway's security shield: classification of suspicious requests and
//! the bounded log of the threats it blocked.
use vstd::prelude::*;
use std::collections::VecDeque;
use std::time::{Duration, SystemTime, SystemTimeError, UNIX_EPOCH};
use crate::stats::whole_seconds;
use crate::text::{
    any_occurs, chars_of, contains, contains_seq, first_match, first_occurring, push_zero_padded,
    string_of, to_lowercase, unicode_lowercase, zero_padded, is_ascii_text, ascii_lower_seq,
    ascii_upper_seq, lemma_ascii_case,
};

verus! {

/// A blocked request, as the dashboard lists it.
pub struct SecurityEvent {
    pub id: usize,
    pub timestamp: String,
    pub client_ip: String,
    pub method: String,
    pub path: String,
    pub threat_type: String,
    pub severity: String,
    pub action: String,
}

impl SecurityEvent {
    /// A field-by-field copy.
    pub fn duplicate(&self) -> (r: SecurityEvent)
        ensures
            r == *self,
    {
        SecurityEvent {
            id: self.id,
            timestamp: self.timestamp.clone(),
            client_ip: self.client_ip.clone(),
            method: self.method.clone(),
            path: self.path.clone(),
            threat_type: self.threat_type.clone(),
            severity: self.severity.clone(),
            action: self.action.clone(),
        }
    }
}

// ---------------------------------------------------------------------------
// Patterns
// ---------------------------------------------------------------------------

/// Paths of secrets and backups that scanners probe.
pub open spec fn sensitive_file_patterns() -> Seq<&'static str> {
    seq![
        "/.env",
        "/.git",
        "/.svn",
        "/.htaccess",
        "/.aws",
        "/config.json",
        "/wp-config.php",
        "/id_rsa",
        "/backup.sql",
        "/dump.sql",
        "/database.sql",
        "/credentials",
        "/web.config",
    ]
}

/// Administration consoles and remote-execution endpoints that scanners probe.
pub open spec fn admin_scan_patterns() -> Seq<&'static str> {
    seq![
        "/wp-admin",
        "/wp-login",
        "/phpmyadmin",
        "/actuator",
        "/console/",
        "/shell",
        "/eval-stdin",
        "/solr/",
        "/jmx-console",
        "/autodiscover",
        "/telescope",
        "/telescope/requests",
    ]
}

/// Fragments of SQL injection attempts.
pub open spec fn sql_injection_patterns() -> Seq<&'static str> {
    seq![
        "' or ",
        "\" or ",
        "' union select",
        "\" union select",
        " sleep(",
        " benchmarking(",
        "1=1",
        "1=2",
        "'--",
        "';--",
        "exec(",
        "waitfor delay",
    ]
}

/// Names of automated attack tools, found in the user agent.
pub open spec fn scanner_tools() -> Seq<&'static str> {
    seq!["sqlmap", "nikto", "masscan", "dirbuster", "gobuster", "zgrab", "nmap", "wprecon", "acunetix"]
}

/// Fragments of cross-site scripting attempts.
pub open spec fn xss_patterns() -> Seq<&'static str> {
    seq!["<script", "javascript:", "onerror=", "onload=", "document.cookie"]
}

/// A path-traversal attempt in the path or the query.
pub open spec fn is_path_traversal(lower_path: Seq<char>, lower_query: Seq<char>) -> bool {
    ||| contains_seq(lower_path, "../"@)
    ||| contains_seq(lower_path, "..\\"@)
    ||| contains_seq(lower_query, "../"@)
    ||| contains_seq(lower_query, "..%2f"@)
    ||| contains_seq(lower_query, "..%5c"@)
}

/// A detected threat: its description and its severity.
pub struct Threat {
    pub threat_type: String,
    pub severity: String,
}

/// Severity `CRITICAL`.
pub open spec fn critical() -> Seq<char> {
    "CRITICAL"@
}

/// Severity `HIGH`.
pub open spec fn high() -> Seq<char> {
    "HIGH"@
}

/// Severity `MEDIUM`.
pub open spec fn medium() -> Seq<char> {
    "MEDIUM"@
}

pub open spec fn sensitive_file_label() -> Seq<char> {
    "🚨 민감 설정/비밀키 파일 탈취 스캔"@
}

pub open spec fn admin_scan_label() -> Seq<char> {
    "⚠️ 비인가 관리자/쉘 접근 스캐닝"@
}

pub open spec fn sql_injection_label() -> Seq<char> {
    "💉 SQL Injection 데이터베이스 공격 시도"@
}

pub open spec fn path_traversal_label() -> Seq<char> {
    "📂 상위 디렉토리(Path Traversal) 탈출 시도"@
}

/// The label for a scanner tool named `tool`.
pub open spec fn scanner_label(tool: Seq<char>) -> Seq<char> {
    "🤖 자동화 해킹 스캐너 봇 ("@ + tool + ")"@
}

pub open spec fn xss_label() -> Seq<char> {
    "⚡ Cross-Site Scripting (XSS) 공격 시도"@
}

/// The verdict on a request whose path, query and user agent are already
/// lower-cased: the first rule that matches, in this order — sensitive
/// files (path), admin scans (path), SQL injection (path or query), path
/// traversal, scanner tools (user agent, first tool listed), cross-site
/// scripting (query or path).
pub open spec fn threat_of(lower_path: Seq<char>, lower_query: Seq<char>, lower_ua: Seq<char>) -> Option<
    (Seq<char>, Seq<char>),
> {
    if any_occurs(lower_path, sensitive_file_patterns()) {
        Some((sensitive_file_label(), critical()))
    } else if any_occurs(lower_path, admin_scan_patterns()) {
        Some((admin_scan_label(), high()))
    } else if any_occurs(lower_path, sql_injection_patterns()) || any_occurs(
        lower_query,
        sql_injection_patterns(),
    ) {
        Some((sql_injection_label(), critical()))
    } else if is_path_traversal(lower_path, lower_query) {
        Some((path_traversal_label(), critical()))
    } else if first_occurring(lower_ua, scanner_tools(), 0) >= 0 {
        Some(
            (
                scanner_label(scanner_tools()[first_occurring(lower_ua, scanner_tools(), 0)]@),
                high(),
            ),
        )
    } else if any_occurs(lower_query, xss_patterns()) || any_occurs(lower_path, xss_patterns()) {
        Some((xss_label(), medium()))
    } else {
        None
    }
}

fn sensitive_file_list() -> (r: Vec<&'static str>)
    ensures
        r@ == sensitive_file_patterns(),
{
    let r = vec![
        "/.env",
        "/.git",
        "/.svn",
        "/.htaccess",
        "/.aws",
        "/config.json",
        "/wp-config.php",
        "/id_rsa",
        "/backup.sql",
        "/dump.sql",
        "/database.sql",
        "/credentials",
        "/web.config",
    ];
    assert(r@ =~= sensitive_file_patterns());
    r
}

fn admin_scan_list() -> (r: Vec<&'static str>)
    ensures
        r@ == admin_scan_patterns(),
{
    let r = vec![
        "/wp-admin",
        "/wp-login",
        "/phpmyadmin",
        "/actuator",
        "/console/",
        "/shell",
        "/eval-stdin",
        "/solr/",
        "/jmx-console",
        "/autodiscover",
        "/telescope",
        "/telescope/requests",
    ];
    assert(r@ =~= admin_scan_patterns());
    r
}

fn sql_injection_list() -> (r: Vec<&'static str>)
    ensures
        r@ == sql_injection_patterns(),
{
    let r = vec![
        "' or ",
        "\" or ",
        "' union select",
        "\" union select",
        " sleep(",
        " benchmarking(",
        "1=1",
        "1=2",
        "'--",
        "';--",
        "exec(",
        "waitfor delay",
    ];
    assert(r@ =~= sql_injection_patterns());
    r
}

fn scanner_tool_list() -> (r: Vec<&'static str>)
    ensures
        r@ == scanner_tools(),
{
    let r = vec!["sqlmap", "nikto", "masscan", "dirbuster", "gobuster", "zgrab", "nmap", "wprecon", "acunetix"];
    assert(r@ =~= scanner_tools());
    r
}

fn xss_list() -> (r: Vec<&'static str>)
    ensures
        r@ == xss_patterns(),
{
    let r = vec!["<script", "javascript:", "onerror=", "onload=", "document.cookie"];
    assert(r@ =~= xss_patterns());
    r
}

/// `inspect_threat`'s rules on lower-cased inputs (see [`threat_of`]).
pub fn classify_threat(lower_path: &str, lower_query: &str, lower_ua: &str) -> (r: Option<Threat>)
    ensures
        r is Some <==> threat_of(lower_path@, lower_query@, lower_ua@) is Some,
        r matches Some(t) ==> (t.threat_type@, t.severity@) == threat_of(
            lower_path@,
            lower_query@,
            lower_ua@,
        ).unwrap(),
{
    let path = chars_of(lower_path);
    let query = chars_of(lower_query);
    let ua = chars_of(lower_ua);
    if first_match(&path, &sensitive_file_list()).is_some() {
        return Some(
            Threat {
                threat_type: "🚨 민감 설정/비밀키 파일 탈취 스캔".to_owned(),
                severity: "CRITICAL".to_owned(),
            },
        );
    }
    if first_match(&path, &admin_scan_list()).is_some() {
        return Some(
            Threat {
                threat_type: "⚠️ 비인가 관리자/쉘 접근 스캐닝".to_owned(),
                severity: "HIGH".to_owned(),
            },
        );
    }
    let sql = sql_injection_list();
    if first_match(&path, &sql).is_some() || first_match(&query, &sql).is_some() {
        return Some(
            Threat {
                threat_type: "💉 SQL Injection 데이터베이스 공격 시도".to_owned(),
                severity: "CRITICAL".to_owned(),
            },
        );
    }
    if contains(&path, &chars_of("../")) || contains(&path, &chars_of("..\\")) || contains(
        &query,
        &chars_of("../"),
    ) || contains(&query, &chars_of("..%2f")) || contains(&query, &chars_of("..%5c")) {
        return Some(
            Threat {
                threat_type: "📂 상위 디렉토리(Path Traversal) 탈출 시도".to_owned(),
                severity: "CRITICAL".to_owned(),
            },
        );
    }
    let tools = scanner_tool_list();
    match first_match(&ua, &tools) {
        Some(k) => {
            let mut label = "🤖 자동화 해킹 스캐너 봇 (".to_owned();
            label.append(tools[k]);
            label.append(")");
            return Some(Threat { threat_type: label, severity: "HIGH".to_owned() });
        },
        None => {},
    }
    let xss = xss_list();
    if first_match(&query, &xss).is_some() || first_match(&path, &xss).is_some() {
        return Some(
            Threat {
                threat_type: "⚡ Cross-Site Scripting (XSS) 공격 시도".to_owned(),
                severity: "MEDIUM".to_owned(),
            },
        );
    }
    None
}

// ---------------------------------------------------------------------------
// Events
// ---------------------------------------------------------------------------

/// The clock text for a Unix time: `HH:MM:SS (KST)`, Korean time (UTC+9).
pub open spec fn kst_clock(secs: nat) -> Seq<char> {
    zero_padded(((secs / 3600) + 9) % 24, 2) + seq![':'] + zero_padded((secs / 60) % 60, 2) + seq![':']
        + zero_padded(secs % 60, 2) + " (KST)"@
}

/// Formats a Unix time as [`kst_clock`].
pub fn format_kst_clock(secs: u64) -> (r: String)
    ensures
        r@ == kst_clock(secs as nat),
{
    let mut out: Vec<char> = Vec::new();
    push_zero_padded(&mut out, ((secs / 3600) + 9) % 24, 2);
    out.push(':');
    push_zero_padded(&mut out, (secs / 60) % 60, 2);
    out.push(':');
    push_zero_padded(&mut out, secs % 60, 2);
    let mut r = string_of(&out);
    r.append(" (KST)");
    assert(r@ =~= kst_clock(secs as nat));
    r
}

#[verifier::external_type_specification]
#[verifier::external_body]
pub struct ExSystemTime(SystemTime);

#[verifier::external_type_specification]
#[verifier::external_body]
pub struct ExSystemTimeError(SystemTimeError);

/// The system clock's current time (`SystemTime::now`). It depends on the
/// time of the call.
#[verifier::external_body]
fn system_now() -> SystemTime {
    SystemTime::now()
}

/// The time from the Unix epoch to `t` (`SystemTime::duration_since` with
/// `UNIX_EPOCH`), an error when `t` is earlier. Nothing is promised of the
/// duration.
#[verifier::external_body]
fn since_unix_epoch(t: &SystemTime) -> Result<Duration, SystemTimeError> {
    t.duration_since(UNIX_EPOCH)
}

/// Seconds since the Unix epoch, from the system clock; zero when the clock
/// is before the epoch (the seconds of an empty duration).
fn unix_time_secs() -> u64 {
    match since_unix_epoch(&system_now()) {
        Ok(d) => whole_seconds(&d),
        Err(_) => 0,
    }
}

/// The current time as `HH:MM:SS (KST)`.
pub fn format_now() -> (r: String)
    ensures
        exists|secs: nat| r@ == kst_clock(secs),
{
    let secs = unix_time_secs();
    format_kst_clock(secs)
}

/// What a blocked request's event records as the action taken.
pub open spec fn blocked_action() -> Seq<char> {
    "차단됨 (403 Forbidden)"@
}

/// A new event for a blocked request, stamped with the current time; its
/// number is assigned when it is logged.
pub fn create_event(
    client_ip: &str,
    method: &str,
    path: &str,
    threat_type: &str,
    severity: &str,
) -> (r: SecurityEvent)
    ensures
        r.id == 0,
        exists|secs: nat| r.timestamp@ == kst_clock(secs),
        r.client_ip@ == client_ip@,
        r.method@ == method@,
        r.path@ == path@,
        r.threat_type@ == threat_type@,
        r.severity@ == severity@,
        r.action@ == blocked_action(),
{
    SecurityEvent {
        id: 0,
        timestamp: format_now(),
        client_ip: client_ip.to_owned(),
        method: method.to_owned(),
        path: path.to_owned(),
        threat_type: threat_type.to_owned(),
        severity: severity.to_owned(),
        action: "차단됨 (403 Forbidden)".to_owned(),
    }
}

/// The verdict on ASCII inputs: the rules on their ASCII lower case.
pub open spec fn ascii_threat(path: Seq<char>, query: Seq<char>, user_agent: Seq<char>) -> Option<
    (Seq<char>, Seq<char>),
> {
    threat_of(ascii_lower_seq(path), ascii_lower_seq(query), ascii_lower_seq(user_agent))
}

/// The shield ignores the case of ASCII letters: an ASCII request gets the
/// same verdict with its path, query and user agent upper-cased or
/// lower-cased (see [`inspect_threat`], whose verdict on ASCII inputs is
/// [`ascii_threat`]).
pub proof fn law_threat_rules_ignore_ascii_case(path: Seq<char>, query: Seq<char>, user_agent: Seq<char>)
    ensures
        is_ascii_text(path) && is_ascii_text(query) && is_ascii_text(user_agent) ==> is_ascii_text(
            ascii_upper_seq(path),
        ) && is_ascii_text(ascii_upper_seq(query)) && is_ascii_text(ascii_upper_seq(user_agent)),
        ascii_threat(ascii_upper_seq(path), ascii_upper_seq(query), ascii_upper_seq(user_agent))
            == ascii_threat(path, query, user_agent),
        ascii_threat(ascii_lower_seq(path), ascii_lower_seq(query), ascii_lower_seq(user_agent))
            == ascii_threat(path, query, user_agent),
{
    lemma_ascii_case(path);
    lemma_ascii_case(query);
    lemma_ascii_case(user_agent);
}

/// `inspect_threat`: the verdict on a request, made on the lower-cased path,
/// query and user agent; a threat becomes an event to log.
pub fn inspect_threat(
    method: &str,
    path: &str,
    query: &str,
    user_agent: &str,
    client_ip: &str,
) -> (r: Option<SecurityEvent>)
    ensures
        r is Some <==> threat_of(
            unicode_lowercase(path@),
            unicode_lowercase(query@),
            unicode_lowercase(user_agent@),
        ) is Some,
        r matches Some(e) ==> {
            &&& (e.threat_type@, e.severity@) == threat_of(
                unicode_lowercase(path@),
                unicode_lowercase(query@),
                unicode_lowercase(user_agent@),
            ).unwrap()
            &&& e.id == 0
            &&& exists|secs: nat| e.timestamp@ == kst_clock(secs)
            &&& e.client_ip@ == client_ip@
            &&& e.method@ == method@
            &&& e.path@ == path@
            &&& e.action@ == blocked_action()
        },
        is_ascii_text(path@) && is_ascii_text(query@) && is_ascii_text(user_agent@) ==> (r is Some
            <==> ascii_threat(path@, query@, user_agent@) is Some) && (r matches Some(e) ==> (
        e.threat_type@, e.severity@) == ascii_threat(path@, query@, user_agent@).unwrap()),
{
    let lower_path = to_lowercase(path);
    let lower_query = to_lowercase(query);
    let lower_ua = to_lowercase(user_agent);
    match classify_threat(lower_path.as_str(), lower_query.as_str(), lower_ua.as_str()) {
        Some(t) => Some(
            create_event(client_ip, method, path, t.threat_type.as_str(), t.severity.as_str()),
        ),
        None => None,
    }
}

// ---------------------------------------------------------------------------
// The log of blocked requests
// ---------------------------------------------------------------------------

/// How many events the log keeps.
pub const LOG_CAPACITY: usize = 100;

/// The most recent blocked requests, newest first, at most 100 of them.
pub struct SecurityLogBuffer {
    buffer: VecDeque<SecurityEvent>,
    recorded: usize,
}

impl SecurityLogBuffer {
    /// The events, newest first.
    pub closed spec fn events(&self) -> Seq<SecurityEvent> {
        self.buffer@
    }

    /// How many events were ever logged (clearing included).
    pub closed spec fn recorded_events(&self) -> nat {
        self.recorded as nat
    }

    /// The number the next logged event gets: one more than the events
    /// logged so far.
    pub open spec fn next_id(&self) -> nat {
        self.recorded_events() + 1
    }

    /// The log's invariant: at most 100 events, numbered from 1, newest
    /// first, each number below the next one to be given.
    pub open spec fn wf(&self) -> bool {
        &&& self.events().len() <= LOG_CAPACITY
        &&& self.next_id() >= 1
        &&& forall|i: int| 0 <= i < self.events().len() ==> 1 <= #[trigger] self.events()[i].id
            < self.next_id()
        &&& forall|i: int, j: int|
            0 <= i < j < self.events().len() ==> #[trigger] self.events()[i].id
                > #[trigger] self.events()[j].id
    }

    /// An empty log whose first event will be number 1.
    pub fn new() -> (r: SecurityLogBuffer)
        ensures
            r.wf(),
            r.events().len() == 0,
            r.next_id() == 1,
    {
        SecurityLogBuffer { buffer: VecDeque::with_capacity(LOG_CAPACITY), recorded: 0 }
    }

    /// How many events were ever logged.
    pub fn recorded_count(&self) -> (r: usize)
        ensures
            r == self.recorded_events(),
    {
        self.recorded
    }

    /// `record`: numbers the event, puts it first, and drops the oldest when
    /// the log is full.
    pub fn record(&mut self, event: SecurityEvent)
        requires
            old(self).wf(),
            old(self).recorded_events() < usize::MAX,
        ensures
            final(self).wf(),
            final(self).next_id() == old(self).next_id() + 1,
            ({
                let kept = if old(self).events().len() >= LOG_CAPACITY {
                    old(self).events().drop_last()
                } else {
                    old(self).events()
                };
                final(self).events() == seq![SecurityEvent { id: old(self).next_id() as usize, ..event }]
                    + kept
            }),
    {
        let mut event = event;
        self.recorded = self.recorded + 1;
        event.id = self.recorded;
        if self.buffer.len() >= LOG_CAPACITY {
            self.buffer.pop_back();
        }
        let ghost kept = self.buffer@;
        self.buffer.push_front(event);
        assert(self.buffer@ =~= seq![event] + kept);
    }

    /// `get_recent_events`: a copy of the events, newest first.
    pub fn get_recent_events(&self) -> (r: Vec<SecurityEvent>)
        ensures
            r@ == self.events(),
    {
        let mut out: Vec<SecurityEvent> = Vec::new();
        let mut i: usize = 0;
        while i < self.buffer.len()
            invariant
                i <= self.buffer@.len(),
                out@ == self.buffer@.take(i as int),
            decreases self.buffer@.len() - i,
        {
            out.push(self.buffer[i].duplicate());
            assert(self.buffer@.take(i + 1) =~= self.buffer@.take(i as int).push(self.buffer@[i as int]));
            i += 1;
        }
        assert(self.buffer@.take(self.buffer@.len() as int) =~= self.buffer@);
        out
    }

    /// `clear`: forgets every event; numbering goes on where it was.
    pub fn clear(&mut self)
        requires
            old(self).wf(),
        ensures
            final(self).wf(),
            final(self).events().len() == 0,
            final(self).next_id() == old(self).next_id(),
    {
        self.buffer.clear();
    }
}

/// Logging an event never lets the log grow past 100 events, the event is
/// listed first with a number larger than any listed before, and the
/// numbers of a log only ever grow, clearing included.
pub proof fn law_log_bounded_and_ordered(
    before: SecurityLogBuffer,
    after: SecurityLogBuffer,
    event: SecurityEvent,
)
    requires
        before.wf(),
        after.next_id() == before.next_id() + 1,
        ({
            let kept = if before.events().len() >= LOG_CAPACITY {
                before.events().drop_last()
            } else {
                before.events()
            };
            after.events() == seq![SecurityEvent { id: before.next_id() as usize, ..event }] + kept
        }),
    ensures
        after.wf(),
        after.events().len() <= LOG_CAPACITY,
        after.events()[0].id == before.next_id(),
        forall|i: int| 0 <= i < before.events().len() ==> after.events()[0].id > #[trigger] before.events()[i].id,
{
    let kept = if before.events().len() >= LOG_CAPACITY {
        before.events().drop_last()
    } else {
        before.events()
    };
    let a = after.events();
    assert forall|i: int| 0 <= i < a.len() implies 1 <= #[trigger] a[i].id < after.next_id() by {
        if i > 0 {
            assert(a[i] == kept[i - 1]);
            assert(kept[i - 1] == before.events()[i - 1]);
        }
    }
    assert forall|i: int, j: int| 0 <= i < j < a.len() implies #[trigger] a[i].id > #[trigger] a[j].id by {
        assert(a[j] == kept[j - 1]);
        assert(kept[j - 1] == before.events()[j - 1]);
        if i > 0 {
            assert(a[i] == kept[i - 1]);
            assert(kept[i - 1] == before.events()[i - 1]);
        }
    }
}

// ---------------------------------------------------------------------------
// What the shield blocks
// ---------------------------------------------------------------------------

/// `s` holds one of the fragments `frags`.
pub open spec fn holds_one_of(s: Seq<char>, frags: Seq<Seq<char>>) -> bool {
    exists|k: int| 0 <= k < frags.len() && contains_seq(s, #[trigger] frags[k])
}

/// Secret and backup files the shield refuses to serve.
pub open spec fn shield_secret_files() -> Seq<Seq<char>> {
    seq![
        "/.env"@, "/.git"@, "/.svn"@, "/.htaccess"@, "/.aws"@, "/config.json"@, "/wp-config.php"@,
        "/id_rsa"@, "/backup.sql"@, "/dump.sql"@, "/database.sql"@, "/credentials"@, "/web.config"@,
    ]
}

/// Administration and shell endpoints the shield refuses.
pub open spec fn shield_admin_paths() -> Seq<Seq<char>> {
    seq![
        "/wp-admin"@, "/wp-login"@, "/phpmyadmin"@, "/actuator"@, "/console/"@, "/shell"@,
        "/eval-stdin"@, "/solr/"@, "/jmx-console"@, "/autodiscover"@, "/telescope"@,
        "/telescope/requests"@,
    ]
}

/// SQL injection fragments the shield refuses, in the path or the query.
pub open spec fn shield_sql_fragments() -> Seq<Seq<char>> {
    seq![
        "' or "@, "\" or "@, "' union select"@, "\" union select"@, " sleep("@, " benchmarking("@,
        "1=1"@, "1=2"@, "'--"@, "';--"@, "exec("@, "waitfor delay"@,
    ]
}

/// Attack tools the shield recognises in the user agent, in order.
pub open spec fn shield_attack_tools() -> Seq<Seq<char>> {
    seq![
        "sqlmap"@, "nikto"@, "masscan"@, "dirbuster"@, "gobuster"@, "zgrab"@, "nmap"@, "wprecon"@,
        "acunetix"@,
    ]
}

/// Script-injection fragments the shield refuses, in the query or the path.
pub open spec fn shield_script_fragments() -> Seq<Seq<char>> {
    seq!["<script"@, "javascript:"@, "onerror="@, "onload="@, "document.cookie"@]
}

/// A climb out of the served directory: `../` or `..\` in the path, or
/// `../` or an encoded `..%2f` / `..%5c` in the query.
pub open spec fn climbs_up(p: Seq<char>, q: Seq<char>) -> bool {
    contains_seq(p, "../"@) || contains_seq(p, "..\\"@) || contains_seq(q, "../"@) || contains_seq(
        q,
        "..%2f"@,
    ) || contains_seq(q, "..%5c"@)
}

proof fn lemma_holds_one_of(s: Seq<char>, pats: Seq<&'static str>, frags: Seq<Seq<char>>)
    requires
        frags == pats.map_values(|x: &'static str| x@),
    ensures
        holds_one_of(s, frags) == any_occurs(s, pats),
{
    if holds_one_of(s, frags) {
        let k = choose|k: int| 0 <= k < frags.len() && contains_seq(s, #[trigger] frags[k]);
        assert(frags[k] == pats[k]@);
    }
    if any_occurs(s, pats) {
        let k = choose|k: int| 0 <= k < pats.len() && contains_seq(s, #[trigger] pats[k]@);
        assert(frags[k] == pats[k]@);
    }
}

proof fn lemma_first_occurring_at(s: Seq<char>, pats: Seq<&'static str>, k: int, m: int)
    requires
        0 <= k <= m < pats.len(),
        contains_seq(s, pats[m]@),
        forall|j: int| k <= j < m ==> !contains_seq(s, #[trigger] pats[j]@),
    ensures
        first_occurring(s, pats, k) == m,
    decreases m - k,
{
    if k < m {
        lemma_first_occurring_at(s, pats, k + 1, m);
    }
}

proof fn lemma_no_occurrence(s: Seq<char>, pats: Seq<&'static str>, k: int)
    requires
        0 <= k <= pats.len(),
        forall|j: int| k <= j < pats.len() ==> !contains_seq(s, #[trigger] pats[j]@),
    ensures
        first_occurring(s, pats, k) == -1,
    decreases pats.len() - k,
{
    if k < pats.len() {
        lemma_no_occurrence(s, pats, k + 1);
    }
}

proof fn lemma_shield_tables()
    ensures
        shield_secret_files() == sensitive_file_patterns().map_values(|x: &'static str| x@),
        shield_admin_paths() == admin_scan_patterns().map_values(|x: &'static str| x@),
        shield_sql_fragments() == sql_injection_patterns().map_values(|x: &'static str| x@),
        shield_attack_tools() == scanner_tools().map_values(|x: &'static str| x@),
        shield_script_fragments() == xss_patterns().map_values(|x: &'static str| x@),
{
    assert(shield_secret_files() =~= sensitive_file_patterns().map_values(|x: &'static str| x@));
    assert(shield_admin_paths() =~= admin_scan_patterns().map_values(|x: &'static str| x@));
    assert(shield_sql_fragments() =~= sql_injection_patterns().map_values(|x: &'static str| x@));
    assert(shield_attack_tools() =~= scanner_tools().map_values(|x: &'static str| x@));
    assert(shield_script_fragments() =~= xss_patterns().map_values(|x: &'static str| x@));
}

/// What the shield decides, on a lower-cased path `p`, query `q` and user
/// agent `u` (see [`inspect_threat`]), rule by rule in order: a secret file
/// in the path is a CRITICAL file-theft scan; else an admin or shell path
/// is a HIGH scan; else SQL injection in the path or query is CRITICAL;
/// else a directory climb is a CRITICAL path traversal; else an attack tool
/// in the user agent is a HIGH bot, named after the first tool found; else
/// script injection in the query or path is MEDIUM; anything else passes.
pub proof fn law_shield_verdicts(p: Seq<char>, q: Seq<char>, u: Seq<char>)
    ensures
        holds_one_of(p, shield_secret_files()) ==> threat_of(p, q, u) == Some(
            ("🚨 민감 설정/비밀키 파일 탈취 스캔"@, "CRITICAL"@),
        ),
        !holds_one_of(p, shield_secret_files()) && holds_one_of(p, shield_admin_paths())
            ==> threat_of(p, q, u) == Some(("⚠️ 비인가 관리자/쉘 접근 스캐닝"@, "HIGH"@)),
        !holds_one_of(p, shield_secret_files()) && !holds_one_of(p, shield_admin_paths()) && (
        holds_one_of(p, shield_sql_fragments()) || holds_one_of(q, shield_sql_fragments()))
            ==> threat_of(p, q, u) == Some(("💉 SQL Injection 데이터베이스 공격 시도"@, "CRITICAL"@)),
        !holds_one_of(p, shield_secret_files()) && !holds_one_of(p, shield_admin_paths())
            && !holds_one_of(p, shield_sql_fragments()) && !holds_one_of(q, shield_sql_fragments())
            && climbs_up(p, q) ==> threat_of(p, q, u) == Some(
            ("📂 상위 디렉토리(Path Traversal) 탈출 시도"@, "CRITICAL"@),
        ),
        !holds_one_of(p, shield_secret_files()) && !holds_one_of(p, shield_admin_paths())
            && !holds_one_of(p, shield_sql_fragments()) && !holds_one_of(q, shield_sql_fragments())
            && !climbs_up(p, q) && !holds_one_of(u, shield_attack_tools()) && (holds_one_of(
            q,
            shield_script_fragments(),
        ) || holds_one_of(p, shield_script_fragments())) ==> threat_of(p, q, u) == Some(
            ("⚡ Cross-Site Scripting (XSS) 공격 시도"@, "MEDIUM"@),
        ),
        !holds_one_of(p, shield_secret_files()) && !holds_one_of(p, shield_admin_paths())
            && !holds_one_of(p, shield_sql_fragments()) && !holds_one_of(q, shield_sql_fragments())
            && !climbs_up(p, q) && !holds_one_of(u, shield_attack_tools()) && !holds_one_of(
            q,
            shield_script_fragments(),
        ) && !holds_one_of(p, shield_script_fragments()) ==> threat_of(p, q, u) is None,
{
    lemma_shield_tables();
    lemma_holds_one_of(p, sensitive_file_patterns(), shield_secret_files());
    lemma_holds_one_of(p, admin_scan_patterns(), shield_admin_paths());
    lemma_holds_one_of(p, sql_injection_patterns(), shield_sql_fragments());
    lemma_holds_one_of(q, sql_injection_patterns(), shield_sql_fragments());
    lemma_holds_one_of(u, scanner_tools(), shield_attack_tools());
    lemma_holds_one_of(q, xss_patterns(), shield_script_fragments());
    lemma_holds_one_of(p, xss_patterns(), shield_script_fragments());
    if !holds_one_of(u, shield_attack_tools()) {
        assert forall|j: int| 0 <= j < scanner_tools().len() implies !contains_seq(
            u,
            #[trigger] scanner_tools()[j]@,
        ) by {
            assert(shield_attack_tools()[j] == scanner_tools()[j]@);
        }
        lemma_no_occurrence(u, scanner_tools(), 0);
    }
}

/// The bot rule: when no earlier rule applies and tool `k` is the first of
/// the listed attack tools found in the user agent, the request is a HIGH
/// bot scan named after that tool.
pub proof fn law_shield_names_the_first_tool(p: Seq<char>, q: Seq<char>, u: Seq<char>, k: int)
    requires
        0 <= k < shield_attack_tools().len(),
        contains_seq(u, shield_attack_tools()[k]),
        forall|j: int| 0 <= j < k ==> !contains_seq(u, #[trigger] shield_attack_tools()[j]),
        !holds_one_of(p, shield_secret_files()),
        !holds_one_of(p, shield_admin_paths()),
        !holds_one_of(p, shield_sql_fragments()),
        !holds_one_of(q, shield_sql_fragments()),
        !climbs_up(p, q),
    ensures
        threat_of(p, q, u) == Some(
            ("🤖 자동화 해킹 스캐너 봇 ("@ + shield_attack_tools()[k] + ")"@, "HIGH"@),
        ),
{
    lemma_shield_tables();
    lemma_holds_one_of(p, sensitive_file_patterns(), shield_secret_files());
    lemma_holds_one_of(p, admin_scan_patterns(), shield_admin_paths());
    lemma_holds_one_of(p, sql_injection_patterns(), shield_sql_fragments());
    lemma_holds_one_of(q, sql_injection_patterns(), shield_sql_fragments());
    assert forall|j: int| 0 <= j < k implies !contains_seq(u, #[trigger] scanner_tools()[j]@) by {
        assert(shield_attack_tools()[j] == scanner_tools()[j]@);
    }
    assert(shield_attack_tools()[k] == scanner_tools()[k]@);
    lemma_first_occurring_at(u, scanner_tools(), 0, k);
}

} // verus!
