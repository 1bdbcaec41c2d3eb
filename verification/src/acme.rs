//! Certificate issuance with Let's Encrypt over HTTP-01: the store of
//! challenge tokens the gateway answers from, and the decisions of an
//! issuance (which challenge to answer, when the order is done, failed or
//! still to be polled, and when to give up). The protocol calls themselves
//! are made by the caller, which hands each answer back.
use vstd::prelude::*;
use crate::route_table::RouteTable;
use crate::text::decimal;

verus! {

/// The HTTP-01 key authorisations the gateway serves, by token.
pub struct ChallengeStore {
    pub tokens: RouteTable,
}

impl View for ChallengeStore {
    type V = Map<Seq<char>, Seq<char>>;

    /// The served answers, by token.
    open spec fn view(&self) -> Map<Seq<char>, Seq<char>> {
        self.tokens.map()
    }
}

impl ChallengeStore {
    /// Tokens are unique.
    pub open spec fn wf(&self) -> bool {
        self.tokens.wf()
    }

    /// An empty store.
    pub fn new() -> (r: ChallengeStore)
        ensures
            r.wf(),
            r.view() == Map::<Seq<char>, Seq<char>>::empty(),
    {
        ChallengeStore { tokens: RouteTable::new() }
    }

    /// Serves `key_authorization` for `token` from now on.
    pub fn set_token(&mut self, token: String, key_authorization: String)
        requires
            old(self).wf(),
        ensures
            final(self).wf(),
            final(self).view() == old(self).view().insert(token@, key_authorization@),
    {
        self.tokens.insert(token, key_authorization);
    }

    /// The answer served for `token`, if any.
    pub fn get_token(&self, token: &str) -> (r: Option<String>)
        requires
            self.wf(),
        ensures
            r is Some <==> self.view().contains_key(token@),
            r matches Some(v) ==> v@ == self.view()[token@],
    {
        match self.tokens.get(token) {
            Some(v) => Some(v.clone()),
            None => None,
        }
    }

    /// Stops serving `token`.
    pub fn remove_token(&mut self, token: &str)
        requires
            old(self).wf(),
        ensures
            final(self).wf(),
            final(self).view() == old(self).view().remove(token@),
    {
        let _ = self.tokens.remove(token);
    }
}

/// Law: a token set is served with its answer, until it is removed.
pub proof fn law_token_read_after_write(
    store: Map<Seq<char>, Seq<char>>,
    token: Seq<char>,
    answer: Seq<char>,
    other: Seq<char>,
)
    ensures
        store.insert(token, answer).contains_key(token),
        store.insert(token, answer)[token] == answer,
        !store.insert(token, answer).remove(token).contains_key(token),
        other != token ==> store.insert(token, answer).remove(token).contains_key(other)
            == store.contains_key(other),
{
}

/// The states of an ACME order.
#[derive(Clone, Copy, Debug, PartialEq, Eq, Structural)]
pub enum OrderStatus {
    Pending,
    Ready,
    Processing,
    Valid,
    Invalid,
}

/// The kinds of challenge an authorisation offers.
#[derive(Clone, Copy, Debug, PartialEq, Eq, Structural)]
pub enum ChallengeKind {
    Http01,
    Dns01,
    TlsAlpn01,
    Other,
}

/// The name an order status is printed with.
pub open spec fn order_status_name(s: OrderStatus) -> Seq<char> {
    match s {
        OrderStatus::Pending => "Pending"@,
        OrderStatus::Ready => "Ready"@,
        OrderStatus::Processing => "Processing"@,
        OrderStatus::Valid => "Valid"@,
        OrderStatus::Invalid => "Invalid"@,
    }
}

/// A new order must be pending; otherwise issuance stops with this message.
pub open spec fn new_order_error(s: OrderStatus) -> Option<Seq<char>> {
    if s == OrderStatus::Pending {
        None
    } else {
        Some("예상치 못한 주문 상태: "@ + order_status_name(s))
    }
}

/// Checks a new order (see [`new_order_error`]).
pub fn check_new_order(s: OrderStatus) -> (r: Result<(), String>)
    ensures
        match r {
            Ok(()) => new_order_error(s) is None,
            Err(e) => new_order_error(s) == Some(e@),
        },
{
    let name = match s {
        OrderStatus::Pending => {
            return Ok(());
        },
        OrderStatus::Ready => "Ready",
        OrderStatus::Processing => "Processing",
        OrderStatus::Valid => "Valid",
        OrderStatus::Invalid => "Invalid",
    };
    let mut m = "예상치 못한 주문 상태: ".to_owned();
    m.append(name);
    Err(m)
}

/// The message when a pending authorisation offers no HTTP-01 challenge.
pub open spec fn no_http01_error() -> Seq<char> {
    "HTTP-01 챌린지를 찾을 수 없습니다."@
}

/// The challenge answered for a pending authorisation: its first HTTP-01
/// challenge.
pub fn pick_http01(kinds: &Vec<ChallengeKind>) -> (r: Result<usize, String>)
    ensures
        match r {
            Ok(i) => i < kinds.len() && kinds@[i as int] == ChallengeKind::Http01 && forall|j: int|
                0 <= j < i ==> #[trigger] kinds@[j] != ChallengeKind::Http01,
            Err(e) => e@ == no_http01_error() && forall|j: int|
                0 <= j < kinds.len() ==> #[trigger] kinds@[j] != ChallengeKind::Http01,
        },
{
    let mut i: usize = 0;
    while i < kinds.len()
        invariant
            i <= kinds.len(),
            forall|j: int| 0 <= j < i ==> #[trigger] kinds@[j] != ChallengeKind::Http01,
        decreases kinds.len() - i,
    {
        if matches!(kinds[i], ChallengeKind::Http01) {
            return Ok(i);
        }
        i += 1;
    }
    Err("HTTP-01 챌린지를 찾을 수 없습니다.".to_owned())
}

/// The polls of an order's status allowed before issuance times out.
pub const ORDER_POLL_LIMIT: u32 = 20;

/// The polls for the certificate allowed before issuance times out.
pub const CERTIFICATE_POLL_LIMIT: u32 = 15;

/// What to do after a poll.
pub enum PollStep {
    /// The awaited state is reached.
    Done,
    /// Poll again; this many polls have come back unfinished.
    Again(u32),
    /// Stop with this message.
    Fail(String),
}

/// The message when the domain could not be validated.
pub open spec fn validation_failed_error() -> Seq<char> {
    "ACME 도메인 소유권 검증에 실패했습니다. 포트 80과 도메인 라우팅을 확인하세요."@
}

/// The message when the order stays unfinished too long.
pub open spec fn validation_timeout_error() -> Seq<char> {
    "ACME 인증 시간 초과 (60초 초과)"@
}

/// The message when the certificate is not issued in time.
pub open spec fn certificate_timeout_error() -> Seq<char> {
    "인증서 생성 대기 시간 초과"@
}

/// The order's status after a refresh, with `retries` unfinished polls
/// before it: ready or valid ends the wait, invalid fails, and an
/// unfinished order is polled again unless that makes one poll too many.
pub fn order_poll_step(status: OrderStatus, retries: u32) -> (r: PollStep)
    requires
        retries <= ORDER_POLL_LIMIT,
    ensures
        (status == OrderStatus::Ready || status == OrderStatus::Valid) <==> r is Done,
        status == OrderStatus::Invalid ==> (r matches PollStep::Fail(m) && m@
            == validation_failed_error()),
        (status == OrderStatus::Pending || status == OrderStatus::Processing) ==> if retries + 1
            > ORDER_POLL_LIMIT {
            r matches PollStep::Fail(m) && m@ == validation_timeout_error()
        } else {
            r == PollStep::Again((retries + 1) as u32)
        },
{
    match status {
        OrderStatus::Ready | OrderStatus::Valid => PollStep::Done,
        OrderStatus::Invalid => PollStep::Fail(
            "ACME 도메인 소유권 검증에 실패했습니다. 포트 80과 도메인 라우팅을 확인하세요.".to_owned(),
        ),
        OrderStatus::Pending | OrderStatus::Processing => {
            let next = retries + 1;
            if next > ORDER_POLL_LIMIT {
                PollStep::Fail("ACME 인증 시간 초과 (60초 초과)".to_owned())
            } else {
                PollStep::Again(next)
            }
        },
    }
}

/// Whether the certificate came with a poll, with `retries` empty polls
/// before it: it ends the wait; without it the certificate is polled again
/// unless that makes one poll too many.
pub fn certificate_poll_step(issued: bool, retries: u32) -> (r: PollStep)
    requires
        retries <= CERTIFICATE_POLL_LIMIT,
    ensures
        issued <==> r is Done,
        !issued ==> if retries + 1 > CERTIFICATE_POLL_LIMIT {
            r matches PollStep::Fail(m) && m@ == certificate_timeout_error()
        } else {
            r == PollStep::Again((retries + 1) as u32)
        },
{
    if issued {
        PollStep::Done
    } else {
        let next = retries + 1;
        if next > CERTIFICATE_POLL_LIMIT {
            PollStep::Fail("인증서 생성 대기 시간 초과".to_owned())
        } else {
            PollStep::Again(next)
        }
    }
}

/// The account contact for an e-mail address.
pub open spec fn contact_of(email: Seq<char>) -> Seq<char> {
    "mailto:"@ + email
}

/// Builds [`contact_of`].
pub fn account_contact(email: &str) -> (r: String)
    ensures
        r@ == contact_of(email@),
{
    let mut r = "mailto:".to_owned();
    r.append(email);
    r
}

/// The file the certificate chain of a domain is saved in.
pub open spec fn cert_file_name_of(domain: Seq<char>) -> Seq<char> {
    domain + ".crt"@
}

/// The file the private key of a domain is saved in.
pub open spec fn key_file_name_of(domain: Seq<char>) -> Seq<char> {
    domain + ".key"@
}

/// The names of a domain's certificate and key files.
pub fn get_domain_cert_file_names(domain: &str) -> (r: (String, String))
    ensures
        r.0@ == cert_file_name_of(domain@),
        r.1@ == key_file_name_of(domain@),
{
    let mut c = domain.to_owned();
    c.append(".crt");
    let mut k = domain.to_owned();
    k.append(".key");
    (c, k)
}

/// The report of a successful issuance.
pub open spec fn issued_message_of(domain: Seq<char>) -> Seq<char> {
    "도메인 '"@ + domain + "'에 대한 Let's Encrypt 정식 SSL 발급이 성공하였습니다."@
}

/// Builds [`issued_message_of`].
pub fn issued_message(domain: &str) -> (r: String)
    ensures
        r@ == issued_message_of(domain@),
{
    let mut r = "도메인 '".to_owned();
    r.append(domain);
    r.append("'에 대한 Let's Encrypt 정식 SSL 발급이 성공하였습니다.");
    r
}

} // verus!
