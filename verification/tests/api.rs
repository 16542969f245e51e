use rsnomadnet_core::api::{
    access_answer, bearer_token, content_disposition, mutates_state, request_access, same_origin,
    secure_request, security_headers,
    service_error, socket_continues, token_matches, websocket_token, Access, HttpMethod,
    RequestHead, SocketEvent,
};
use rsnomadnet_core::config::{
    check_listen, read_auth_token, reject_insecure_mode, token_of_file, ConfigError,
};
use rsnomadnet_core::digest::digests_match;
use rsnomadnet_core::service::{parse_hash, AppError};

fn request() -> RequestHead {
    RequestHead {
        path: "/api/v1/messages".into(),
        method: HttpMethod::Other,
        authorization: None,
        websocket_protocol: None,
        fetch_site: None,
        origin: None,
        host: None,
    }
}

#[test]
fn validates_reticulum_hashes() {
    assert!(parse_hash("0123456789abcdef0123456789abcdef", "hash").is_ok());
    assert!(parse_hash("0123", "hash").is_err());
    assert!(parse_hash("zz23456789abcdef0123456789abcdef", "hash").is_err());
}

#[test]
fn bearer_tokens_are_compared_in_constant_time() {
    let expected = rns_crypto::sha256::sha256(b"0123456789abcdef0123456789abcdef");
    assert!(token_matches("0123456789abcdef0123456789abcdef", &expected));
    assert!(!token_matches(
        "0123456789abcdef0123456789abcdeg",
        &expected
    ));
    let mut request = request();
    request.websocket_protocol =
        Some("rsnomadnet, bearer.0123456789abcdef0123456789abcdef".into());
    assert_eq!(
        websocket_token(&request).as_deref(),
        Some("0123456789abcdef0123456789abcdef")
    );
}

#[test]
fn rejects_cross_origin_mutations() {
    let mut same = request();
    same.host = Some("nomad.example".into());
    same.origin = Some("https://nomad.example".into());
    assert!(same_origin(&same));

    let mut cross = request();
    cross.host = Some("nomad.example".into());
    cross.origin = Some("https://attacker.example".into());
    assert!(!same_origin(&cross));
}

#[test]
fn access_is_decided_by_path_token_and_origin() {
    let token = "0123456789abcdef0123456789abcdef";
    let expected = Some(read_auth_token(token).unwrap());
    let mut head = request();
    assert_eq!(secure_request(&head, &expected), Access::Unauthorized);
    assert_eq!(secure_request(&head, &None), Access::Granted);
    head.authorization = Some(format!("Bearer {token}"));
    assert_eq!(bearer_token(&head).as_deref(), Some(token));
    assert_eq!(secure_request(&head, &expected), Access::Granted);
    head.fetch_site = Some("cross-site".into());
    assert_eq!(secure_request(&head, &expected), Access::CrossOrigin);
    head.method = HttpMethod::Get;
    assert_eq!(secure_request(&head, &expected), Access::Granted);
    let mut events = request();
    events.method = HttpMethod::Get;
    events.websocket_protocol = Some(format!("bearer.{token}"));
    assert_eq!(secure_request(&events, &expected), Access::Unauthorized);
    events.path = "/api/v1/events".into();
    assert_eq!(secure_request(&events, &expected), Access::Granted);
    let mut health = request();
    health.path = "/api/v1/health".into();
    assert_eq!(secure_request(&health, &expected), Access::Granted);
    assert_eq!(request_access(&request(), false), Access::Unauthorized);
}

#[test]
fn origins_need_a_matching_host() {
    let mut head = request();
    assert!(same_origin(&head));
    head.origin = Some("http://a.example//".into());
    assert!(!same_origin(&head));
    head.host = Some("a.example".into());
    assert!(same_origin(&head));
    head.origin = Some("ftp://a.example".into());
    assert!(!same_origin(&head));
    assert!(mutates_state(HttpMethod::Other));
    assert!(!mutates_state(HttpMethod::Head) && !mutates_state(HttpMethod::Options));
}

#[test]
fn errors_are_answered_without_inner_details() {
    let answer = |error: AppError| service_error(&error);
    assert_eq!(answer(AppError::Invalid("a".into())), (400, "a".into()));
    assert_eq!(answer(AppError::TooLarge("b".into())), (413, "b".into()));
    assert_eq!(answer(AppError::Conflict("c".into())), (409, "c".into()));
    assert_eq!(answer(AppError::Unavailable("d".into())), (503, "d".into()));
    assert_eq!(answer(AppError::Remote("e".into())), (502, "e".into()));
    assert_eq!(
        answer(AppError::Internal("secret".into())),
        (500, "internal server error".into())
    );
}

#[test]
fn remote_bind_requires_explicit_permission() {
    assert_eq!(
        check_listen(false, false, false),
        Err(ConfigError::RemoteNotAllowed)
    );
}

#[test]
fn remote_bind_requires_authentication() {
    assert_eq!(
        check_listen(false, true, false),
        Err(ConfigError::RemoteWithoutToken)
    );
}

#[test]
fn remote_bind_accepts_a_protected_token_file() {
    assert!(check_listen(false, true, true).is_ok());
    assert!(check_listen(true, false, false).is_ok());
    assert!(reject_insecure_mode("/run/token", 0o100600).is_ok());
    assert_eq!(
        reject_insecure_mode("/run/token", 0o100640).unwrap_err().message(),
        "auth token file /run/token must not be accessible by group or others"
    );
    assert_eq!(
        read_auth_token("0123456789abcdef0123456789abcdef\n").unwrap(),
        rns_crypto::sha256::sha256(b"0123456789abcdef0123456789abcdef")
    );
}

#[test]
fn tokens_are_long_and_plain() {
    assert_eq!(token_of_file("short"), Err(ConfigError::TokenLength));
    assert_eq!(
        token_of_file(&"x".repeat(1025)),
        Err(ConfigError::TokenLength)
    );
    assert_eq!(
        token_of_file(&format!("{} {}", "x".repeat(20), "y".repeat(20))),
        Err(ConfigError::TokenCharacters)
    );
    assert_eq!(
        token_of_file(&format!(" {}-._~ ", "x".repeat(32))).unwrap().len(),
        36
    );
    assert_eq!(
        ConfigError::TokenLength.message(),
        "auth token must contain between 32 and 1024 bytes"
    );
}

#[test]
fn digests_differ_in_any_byte() {
    let left = [5; 32];
    let mut right = left;
    assert!(digests_match(&left, &right));
    right[31] ^= 0x80;
    assert!(!digests_match(&left, &right));
}

#[test]
fn streams_of_events_end_with_their_client() {
    assert!(socket_continues(SocketEvent::Sent));
    assert!(socket_continues(SocketEvent::Lagged));
    assert!(socket_continues(SocketEvent::ClientSpoke));
    assert!(!socket_continues(SocketEvent::SendFailed));
    assert!(!socket_continues(SocketEvent::Closed));
    assert!(!socket_continues(SocketEvent::ClientGone));
    assert_eq!(
        content_disposition("a.txt"),
        "attachment; filename=\"a.txt\""
    );
}

#[test]
fn refused_requests_are_answered_and_every_answer_bears_the_same_headers() {
    assert_eq!(access_answer(Access::Granted), None);
    assert_eq!(
        access_answer(Access::Unauthorized),
        Some((401, "authentication required".to_string()))
    );
    assert_eq!(
        access_answer(Access::CrossOrigin),
        Some((403, "cross-origin state change rejected".to_string()))
    );
    let headers = security_headers();
    assert_eq!(headers.len(), 3);
    assert_eq!(headers[0], ("x-content-type-options".to_string(), "nosniff".to_string()));
    assert_eq!(headers[1], ("referrer-policy".to_string(), "no-referrer".to_string()));
    assert_eq!(headers[2].0, "content-security-policy");
    assert!(headers[2].1.starts_with("default-src 'self'; connect-src 'self' ws: wss:;"));
    assert!(headers[2].1.ends_with("frame-ancestors 'none'; form-action 'self'"));
}
