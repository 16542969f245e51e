//! The rules of the HTTP interface: who may ask, and how errors are answered.
use vstd::prelude::*;
use vstd::slice::*;
use vstd::string::*;
use vstd::utf8::encode_utf8;

use crate::browser::text_view;
use crate::config::token_fault;
use crate::digest::{digests_match, full_hash, sha256_of};
use crate::service::{AppError, ErrorModel};
use crate::text::{
    chars_of, equals, same_text, skip_back_while, split, split_at_mark, starts_with, string_of,
    strip_prefix, trim, trim_chars, views,
};

verus! {

#[derive(Debug, Clone, Copy, PartialEq, Eq, Structural)]
pub enum HttpMethod {
    Get,
    Head,
    Options,
    Other,
}

/// What of a request decides on access: its path and method, and those of its
/// headers that are readable text.
#[derive(Debug)]
pub struct RequestHead {
    pub path: String,
    pub method: HttpMethod,
    pub authorization: Option<String>,
    pub websocket_protocol: Option<String>,
    pub fetch_site: Option<String>,
    pub origin: Option<String>,
    pub host: Option<String>,
}

#[derive(Debug, Clone, Copy, PartialEq, Eq, Structural)]
pub enum Access {
    Granted,
    /// The token is missing or another one.
    Unauthorized,
    /// A state change that a page of another origin asks for.
    CrossOrigin,
}

/// What is answered to a request that is not let in.
pub open spec fn refusal_of(access: Access) -> Option<(u16, Seq<char>)> {
    match access {
        Access::Granted => None,
        Access::Unauthorized => Some((401, "authentication required"@)),
        Access::CrossOrigin => Some((403, "cross-origin state change rejected"@)),
    }
}

/// How a request that is not let through is answered: the status and the text of
/// the error.
pub fn access_answer(access: Access) -> (r: Option<(u16, String)>)
    ensures
        r.is_some() == refusal_of(access).is_some(),
        r.is_some() ==> (r.unwrap().0, r.unwrap().1@) == refusal_of(access).unwrap(),
        r.is_none() == (access == Access::Granted),
        access == Access::Unauthorized ==> r.is_some() && r.unwrap().0 == 401 && r.unwrap().1@
            == "authentication required"@,
        access == Access::CrossOrigin ==> r.is_some() && r.unwrap().0 == 403 && r.unwrap().1@
            == "cross-origin state change rejected"@,
{
    match access {
        Access::Granted => None,
        Access::Unauthorized => Some((401, "authentication required".to_string())),
        Access::CrossOrigin => Some((403, "cross-origin state change rejected".to_string())),
    }
}

/// What the browser may load and run for a page of the program.
pub open spec fn content_policy() -> Seq<char> {
    "default-src 'self'; connect-src 'self' ws: wss:; img-src 'self' data:; style-src 'self'; script-src 'self'; base-uri 'none'; frame-ancestors 'none'; form-action 'self'"@
}

/// The headers that every answer bears, that to a refused request as well.
pub fn security_headers() -> (r: Vec<(String, String)>)
    ensures
        r@.len() == 3,
        r@[0].0@ == "x-content-type-options"@ && r@[0].1@ == "nosniff"@,
        r@[1].0@ == "referrer-policy"@ && r@[1].1@ == "no-referrer"@,
        r@[2].0@ == "content-security-policy"@ && r@[2].1@ == content_policy(),
{
    let mut headers: Vec<(String, String)> = Vec::new();
    headers.push(("x-content-type-options".to_string(), "nosniff".to_string()));
    headers.push(("referrer-policy".to_string(), "no-referrer".to_string()));
    headers.push(
        (
            "content-security-policy".to_string(),
            "default-src 'self'; connect-src 'self' ws: wss:; img-src 'self' data:; style-src 'self'; script-src 'self'; base-uri 'none'; frame-ancestors 'none'; form-action 'self'".to_string(),
        ),
    );
    headers
}

pub open spec fn bearer_of(authorization: Option<Seq<char>>) -> Option<Seq<char>> {
    match authorization {
        Some(value) if starts_with(value, "Bearer "@) => Some(value.skip(7)),
        _ => None,
    }
}

/// The token of the authorization header.
pub fn bearer_token(request: &RequestHead) -> (r: Option<String>)
    ensures
        text_view(r) == bearer_of(text_view(request.authorization)),
{
    proof {
        reveal_strlit("Bearer ");
    }
    match &request.authorization {
        Some(value) => {
            let all = chars_of(value.as_str());
            match strip_prefix(&all, "Bearer ") {
                Some(rest) => Some(string_of(rest)),
                None => None,
            }
        },
        None => None,
    }
}

/// What follows `bearer.` in the first of the protocols that begins with it.
pub open spec fn first_bearer(protocols: Seq<Seq<char>>) -> Option<Seq<char>>
    decreases protocols.len(),
{
    if protocols.len() == 0 {
        None
    } else if starts_with(trim(protocols[0]), "bearer."@) {
        Some(trim(protocols[0]).skip(7))
    } else {
        first_bearer(protocols.drop_first())
    }
}

pub open spec fn protocol_bearer(value: Option<Seq<char>>) -> Option<Seq<char>> {
    match value {
        Some(value) => first_bearer(split(value, ',')),
        None => None,
    }
}

/// The token among the protocols that a web socket offers.
pub fn websocket_token(request: &RequestHead) -> (r: Option<String>)
    ensures
        text_view(r) == protocol_bearer(text_view(request.websocket_protocol)),
{
    proof {
        reveal_strlit("bearer.");
    }
    let value = match &request.websocket_protocol {
        Some(value) => value,
        None => {
            return None;
        },
    };
    let all = chars_of(value.as_str());
    let parts = split_at_mark(&all, ',');
    let ghost texts = split(value@, ',');
    assert(texts.skip(0) =~= texts);
    for i in 0..parts.len()
        invariant
            views(parts@) == texts,
            first_bearer(texts) == first_bearer(texts.skip(i as int)),
            "bearer."@.len() == 7,
            texts == split(value@, ','),
            request.websocket_protocol == Some(*value),
    {
        proof {
            assert(views(parts@)[i as int] == parts@[i as int]@);
            assert(texts.skip(i as int)[0] == parts@[i as int]@);
            assert(texts.skip(i as int).drop_first() =~= texts.skip(i + 1));
        }
        let protocol = trim_chars(parts[i]);
        if let Some(rest) = strip_prefix(protocol, "bearer.") {
            return Some(string_of(rest));
        }
    }
    assert(texts.skip(parts@.len() as int) =~= Seq::empty());
    None
}

/// Whether a token is the one whose digest is expected.
pub fn token_matches(token: &str, expected: &[u8; 32]) -> (r: bool)
    ensures
        r == (sha256_of(encode_utf8(token@)) == expected@),
{
    let supplied = full_hash(token.as_bytes());
    digests_match(&supplied, expected)
}

pub fn mutates_state(method: HttpMethod) -> (r: bool)
    ensures
        r == (method == HttpMethod::Other),
{
    method == HttpMethod::Other
}

/// Whether a request comes from a page of the same host, or from no page at
/// all.
pub open spec fn is_same_origin(
    fetch_site: Option<Seq<char>>,
    origin: Option<Seq<char>>,
    host: Option<Seq<char>>,
) -> bool {
    if fetch_site == Some("cross-site"@) {
        false
    } else {
        match origin {
            None => true,
            Some(origin) => match host {
                None => false,
                Some(host) => {
                    ||| starts_with(origin, "http://"@) && skip_back_while(
                        origin.skip(7),
                        equals('/'),
                    ) == host
                    ||| starts_with(origin, "https://"@) && skip_back_while(
                        origin.skip(8),
                        equals('/'),
                    ) == host
                },
            },
        }
    }
}

fn without_trailing_slashes(s: &[char]) -> (r: String)
    ensures
        r@ == skip_back_while(s@, equals('/')),
{
    let mut to: usize = s.len();
    assert(s@.take(to as int) =~= s@);
    while to > 0 && s[to - 1] == '/'
        invariant
            to <= s@.len(),
            skip_back_while(s@, equals('/')) == skip_back_while(s@.take(to as int), equals('/')),
        decreases to,
    {
        assert(s@.take(to as int).drop_last() =~= s@.take(to - 1));
        to = to - 1;
    }
    assert(s@.subrange(0, to as int) =~= s@.take(to as int));
    string_of(slice_subrange(s, 0, to))
}

pub fn same_origin(request: &RequestHead) -> (r: bool)
    ensures
        r == is_same_origin(
            text_view(request.fetch_site),
            text_view(request.origin),
            text_view(request.host),
        ),
{
    proof {
        reveal_strlit("http://");
        reveal_strlit("https://");
    }
    if let Some(site) = &request.fetch_site {
        if same_text(site.as_str(), "cross-site") {
            return false;
        }
    }
    let origin = match &request.origin {
        Some(origin) => chars_of(origin.as_str()),
        None => {
            return true;
        },
    };
    let host = match &request.host {
        Some(host) => host,
        None => {
            return false;
        },
    };
    proof {
        if starts_with(origin@, "http://"@) && starts_with(origin@, "https://"@) {
            assert(origin@.take(7)[4] == ':');
            assert(origin@.take(8)[4] == 's');
            assert(false);
        }
    }
    match strip_prefix(&origin, "http://") {
        Some(rest) => same_text(without_trailing_slashes(rest).as_str(), host.as_str()),
        None => match strip_prefix(&origin, "https://") {
            Some(rest) => same_text(without_trailing_slashes(rest).as_str(), host.as_str()),
            None => false,
        },
    }
}

/// Paths that are guarded: the interface, but for its sign of life.
pub open spec fn is_guarded(path: Seq<char>) -> bool {
    starts_with(path, "/api/"@) && path != "/api/v1/health"@
}

/// The token that a request presents. Only the stream of events takes one from
/// the protocols of its web socket.
pub open spec fn presented_token(request: RequestHead) -> Option<Seq<char>> {
    let bearer = bearer_of(text_view(request.authorization));
    if bearer.is_some() || request.path@ != "/api/v1/events"@ {
        bearer
    } else {
        protocol_bearer(text_view(request.websocket_protocol))
    }
}

/// The access that a request has, by whether it presents the right token.
pub open spec fn access_of(request: RequestHead, authenticated: bool) -> Access {
    if !is_guarded(request.path@) {
        Access::Granted
    } else if !authenticated {
        Access::Unauthorized
    } else if request.method == HttpMethod::Other && !is_same_origin(
        text_view(request.fetch_site),
        text_view(request.origin),
        text_view(request.host),
    ) {
        Access::CrossOrigin
    } else {
        Access::Granted
    }
}

/// Whether a request is authenticated: it is where no token is asked for, or
/// where the digest of the presented token is the expected one.
pub open spec fn is_authenticated(request: RequestHead, expected: Option<[u8; 32]>) -> bool {
    match expected {
        None => true,
        Some(expected) => match presented_token(request) {
            None => false,
            Some(token) => sha256_of(encode_utf8(token)) == expected@,
        },
    }
}

/// Decides on a request by whether it is authenticated.
pub fn request_access(request: &RequestHead, authenticated: bool) -> (r: Access)
    ensures
        r == access_of(*request, authenticated),
{
    let path = chars_of(request.path.as_str());
    if strip_prefix(&path, "/api/").is_some() && !same_text(
        request.path.as_str(),
        "/api/v1/health",
    ) {
        if !authenticated {
            return Access::Unauthorized;
        }
        if mutates_state(request.method) && !same_origin(request) {
            return Access::CrossOrigin;
        }
    }
    Access::Granted
}

/// Decides on a request. `expected` is the digest of the token to present, where
/// one is asked for.
pub fn secure_request(request: &RequestHead, expected: &Option<[u8; 32]>) -> (r: Access)
    ensures
        r == access_of(*request, is_authenticated(*request, *expected)),
{
    let authenticated = match expected {
        None => true,
        Some(expected) => {
            let supplied = match bearer_token(request) {
                Some(token) => Some(token),
                None => if same_text(request.path.as_str(), "/api/v1/events") {
                    websocket_token(request)
                } else {
                    None
                },
            };
            assert(text_view(supplied) == presented_token(*request));
            match supplied {
                Some(token) => token_matches(token.as_str(), expected),
                None => false,
            }
        },
    };
    request_access(request, authenticated)
}

/// The status and the text with which an error is answered. What went wrong
/// inside is not told.
pub open spec fn error_answer(error: ErrorModel) -> (u16, Seq<char>) {
    match error {
        ErrorModel::Invalid(text) => (400, text),
        ErrorModel::TooLarge(text) => (413, text),
        ErrorModel::Conflict(text) => (409, text),
        ErrorModel::Unavailable(text) => (503, text),
        ErrorModel::Remote(text) => (502, text),
        ErrorModel::Internal(_) => (500, "internal server error"@),
    }
}

pub fn service_error(error: &AppError) -> (r: (u16, String))
    ensures
        (r.0, r.1@) == error_answer(error@),
{
    match error {
        AppError::Invalid(text) => (400, text.clone()),
        AppError::TooLarge(text) => (413, text.clone()),
        AppError::Conflict(text) => (409, text.clone()),
        AppError::Unavailable(text) => (503, text.clone()),
        AppError::Remote(text) => (502, text.clone()),
        AppError::Internal(_) => (500, "internal server error".to_string()),
    }
}

/// The header that names a downloaded file.
pub fn content_disposition(filename: &str) -> (r: String)
    ensures
        r@ == "attachment; filename=\""@ + filename@ + "\""@,
{
    let mut out = "attachment; filename=\"".to_string();
    out.append(filename);
    out.append("\"");
    out
}

/// What a stream of events meets.
#[derive(Debug, Clone, Copy, PartialEq, Eq, Structural)]
pub enum SocketEvent {
    /// An event was sent to the client.
    Sent,
    /// An event could not be sent.
    SendFailed,
    /// Events were lost because the client is slow.
    Lagged,
    /// There will be no more events.
    Closed,
    /// The client closed the stream, or it broke.
    ClientGone,
    /// The client sent something else.
    ClientSpoke,
}

/// Whether the stream of events goes on.
pub fn socket_continues(event: SocketEvent) -> (r: bool)
    ensures
        r == (event is Sent || event is Lagged || event is ClientSpoke),
{
    match event {
        SocketEvent::Sent => true,
        SocketEvent::Lagged => true,
        SocketEvent::ClientSpoke => true,
        SocketEvent::SendFailed => false,
        SocketEvent::Closed => false,
        SocketEvent::ClientGone => false,
    }
}

/// Where a token is asked for, a guarded path is closed to a request without
/// one, whatever else it holds.
pub proof fn law_no_token_no_access(request: RequestHead, expected: [u8; 32])
    requires
        is_guarded(request.path@),
        presented_token(request).is_none(),
    ensures
        access_of(request, is_authenticated(request, Some(expected))) == Access::Unauthorized,
{
}

/// The token of the token file opens the interface to a request that presents
/// it.
pub proof fn law_configured_token_opens(
    contents: Seq<char>,
    request: RequestHead,
    expected: [u8; 32],
)
    requires
        token_fault(trim(contents)).is_none(),
        expected@ == sha256_of(encode_utf8(trim(contents))),
        presented_token(request) == Some(trim(contents)),
    ensures
        access_of(request, is_authenticated(request, Some(expected))) != Access::Unauthorized,
{
}

/// A state change that a page of another host asks for is never granted on a
/// guarded path.
pub proof fn law_no_cross_origin_change(request: RequestHead, expected: Option<[u8; 32]>)
    requires
        is_guarded(request.path@),
        request.method == HttpMethod::Other,
        !is_same_origin(
            text_view(request.fetch_site),
            text_view(request.origin),
            text_view(request.host),
        ),
    ensures
        access_of(request, is_authenticated(request, expected)) != Access::Granted,
{
}

/// Errors are always answered with an error status.
pub proof fn law_errors_have_error_status(error: ErrorModel)
    ensures
        400 <= error_answer(error).0 < 600,
{
}

} // verus!
