//! The pages and fixed bodies the gateway answers with itself: the page
//! shown for a blocked request, the page for a request no route serves,
//! and the JSON bodies of its own endpoints.
use vstd::prelude::*;

verus! {

/// A fixed part of the page shown for a blocked request.
pub const BLOCK_PAGE_HEAD: &'static str = "<!DOCTYPE html>\n<html lang=\"ko\">\n<head>\n    <meta charset=\"UTF-8\">\n    <title>403 Forbidden - Vesper Gate Security Shield</title>\n    <style>\n        body { font-family: -apple-system, BlinkMacSystemFont, 'Segoe UI', Roboto, sans-serif; background: #090d16; color: #f8fafc; display: flex; align-items: center; justify-content: center; height: 100vh; margin: 0; }\n        .card { background: rgba(26, 16, 28, 0.85); border: 1px solid rgba(244, 63, 94, 0.3); border-radius: 16px; padding: 32px; max-width: 520px; box-shadow: 0 8px 32px rgba(244, 63, 94, 0.2); text-align: center; }\n        h1 { color: #f43f5e; font-size: 24px; margin-bottom: 12px; }\n        p { color: #94a3b8; font-size: 14px; line-height: 1.6; }\n        .badge { background: rgba(244, 63, 94, 0.15); color: #f43f5e; padding: 6px 12px; border-radius: 8px; font-weight: bold; font-size: 13px; display: inline-block; margin: 12px 0; }\n    </style>\n</head>\n<body>\n    <div class=\"card\">\n        <h1>🛡️ 403 Forbidden (접근 차단됨)</h1>\n        <div class=\"badge\">";

/// A fixed part of the page shown for a blocked request.
pub const BLOCK_PAGE_PART_1: &'static str = "</div>\n        <p>Vesper Gate 보안 쉴드가 비정상적이거나 악의적인 접근 시도를 감지하여 요청을 안전하게 차단했습니다.</p>\n        <p style=\"font-size: 12px; color: #64748b; margin-top: 16px;\">IP: ";

/// A fixed part of the page shown for a blocked request.
pub const BLOCK_PAGE_PART_2: &'static str = " | 시간: ";

/// A fixed part of the page shown for a blocked request.
pub const BLOCK_PAGE_TAIL: &'static str = "</p>\n    </div>\n</body>\n</html>";

/// A fixed part of the page shown when no route serves a request.
pub const NOT_FOUND_PAGE_HEAD: &'static str = "<!DOCTYPE html>\n<html lang=\"ko\">\n<head>\n    <meta charset=\"UTF-8\">\n    <title>Vesper Gate - 라우팅 경로를 찾을 수 없음</title>\n    <style>\n        body { font-family: -apple-system, BlinkMacSystemFont, 'Segoe UI', Roboto, sans-serif; background: #090d16; color: #f8fafc; display: flex; align-items: center; justify-content: center; height: 100vh; margin: 0; }\n        .card { background: rgba(18, 24, 38, 0.8); border: 1px solid rgba(255, 255, 255, 0.1); border-radius: 16px; padding: 32px; max-width: 500px; box-shadow: 0 8px 32px rgba(0,0,0,0.4); text-align: center; }\n        h1 { color: #38bdf8; font-size: 22px; margin-bottom: 12px; }\n        p { color: #94a3b8; font-size: 14px; line-height: 1.6; }\n        code { background: #0f172a; color: #f43f5e; padding: 4px 8px; border-radius: 6px; font-family: monospace; }\n    </style>\n</head>\n<body>\n    <div class=\"card\">\n        <h1>🚦 라우팅 대상을 찾을 수 없습니다</h1>\n        <p>요청된 호스트(<code>";

/// A fixed part of the page shown when no route serves a request.
pub const NOT_FOUND_PAGE_PART_1: &'static str = "</code>) 또는 경로(<code>";

/// A fixed part of the page shown when no route serves a request.
pub const NOT_FOUND_PAGE_TAIL: &'static str = "</code>)에 연결된 백엔드가 없습니다.</p>\n        <p><a href=\"/pgate/ui\" style=\"color: #38bdf8; text-decoration: none; font-weight: 600;\">👉 Vesper Gate 웹 대시보드 열기</a></p>\n    </div>\n</body>\n</html>";

/// The 403 page for a blocked request: the threat, the client address and the time.
pub open spec fn block_page_of(threat_type: Seq<char>, client_ip: Seq<char>, timestamp: Seq<char>) -> Seq<char> {
    BLOCK_PAGE_HEAD@ + threat_type + BLOCK_PAGE_PART_1@ + client_ip + BLOCK_PAGE_PART_2@ + timestamp + BLOCK_PAGE_TAIL@
}

/// Builds [`block_page_of`].
pub fn block_page(threat_type: &str, client_ip: &str, timestamp: &str) -> (r: String)
    ensures
        r@ == block_page_of(threat_type@, client_ip@, timestamp@),
{
    let mut r = BLOCK_PAGE_HEAD.to_owned();
    r.append(threat_type);
    r.append(BLOCK_PAGE_PART_1);
    r.append(client_ip);
    r.append(BLOCK_PAGE_PART_2);
    r.append(timestamp);
    r.append(BLOCK_PAGE_TAIL);
    r
}

/// The 404 page for a request no route serves: the host and the path asked for.
pub open spec fn not_found_page_of(host: Seq<char>, path: Seq<char>) -> Seq<char> {
    NOT_FOUND_PAGE_HEAD@ + host + NOT_FOUND_PAGE_PART_1@ + path + NOT_FOUND_PAGE_TAIL@
}

/// Builds [`not_found_page_of`].
pub fn not_found_page(host: &str, path: &str) -> (r: String)
    ensures
        r@ == not_found_page_of(host@, path@),
{
    let mut r = NOT_FOUND_PAGE_HEAD.to_owned();
    r.append(host);
    r.append(NOT_FOUND_PAGE_PART_1);
    r.append(path);
    r.append(NOT_FOUND_PAGE_TAIL);
    r
}

/// The body of a 502 answer.
pub const BAD_GATEWAY_BODY: &'static str = "{\"error\": \"502 Bad Gateway - 로컬 대상 서버가 꺼져 있습니다.\"}";

/// The body of a successful change through the dashboard's API.
pub const OK_BODY: &'static str = "{\"status\":\"ok\"}";

/// The body after the security log was cleared.
pub const CLEARED_BODY: &'static str = "{\"status\":\"cleared\"}";

/// The JSON error body for a message: `{"error":"<message>"}`.
pub open spec fn error_body_of(message: Seq<char>) -> Seq<char> {
    "{\"error\":\""@ + message + "\"}"@
}

/// Builds [`error_body_of`].
pub fn error_body(message: &str) -> (r: String)
    ensures
        r@ == error_body_of(message@),
{
    let mut r = "{\"error\":\"".to_owned();
    r.append(message);
    r.append("\"}");
    r
}

} // verus!
