use spacetime_client_sdk::errors::ClientError;
use spacetime_client_sdk::messages::IdentityTokenJson;
use spacetime_client_sdk::ws::{
    accept_key, accept_ws_res, authenticate, build_req, build_req_with_key, find_header, has_host,
    BuildConnection, Protocol, UpgradeResponse, PROTO_WEBSOCKET,
};

fn pair(name: &str, value: &str) -> (String, String) {
    (name.to_string(), value.to_string())
}

#[test]
fn accept_key_of_the_protocol_example() {
    assert_eq!(
        accept_key(b"dGhlIHNhbXBsZSBub25jZQ=="),
        "s3pPLMBiTxaQ9kYGzzhZRbK+xOo="
    );
}

#[test]
fn accept_key_is_not_the_key() {
    let key = b"x3JJHMbDL1EzLkh9GBhXDw==";
    let accept = accept_key(key);
    assert_eq!(accept, "HSmrc0sMlYUkAGmm5OPpG2HaGWk=");
    assert_eq!(accept.len(), 28);
}

#[test]
fn request_without_identity() {
    let con = BuildConnection::new(
        "ws://127.0.0.1:3000/database/subscribe?name_or_address=game".to_string(),
    );
    let request = build_req_with_key(&con, "dGhlIHNhbXBsZSBub25jZQ==").unwrap();
    assert_eq!(request.method, "GET");
    assert_eq!(
        request.uri,
        "ws://127.0.0.1:3000/database/subscribe?name_or_address=game"
    );
    assert_eq!(
        request.headers,
        vec![
            pair("Connection", "upgrade"),
            pair("Sec-WebSocket-Protocol", "v1.text.spacetimedb"),
            pair("Upgrade", "websocket"),
            pair("Sec-WebSocket-Version", "13"),
            pair("Sec-WebSocket-Accept", "s3pPLMBiTxaQ9kYGzzhZRbK+xOo="),
            pair("Sec-WebSocket-Key", "dGhlIHNhbXBsZSBub25jZQ=="),
            pair("Host", "127.0.0.1"),
        ]
    );
}

#[test]
fn request_with_identity_and_binary_frames() {
    let con = BuildConnection::new("ws://example.org/database/subscribe".to_string())
        .with_auth(IdentityTokenJson::new("me", "abc"))
        .with_protocol(Protocol::Binary);
    assert_eq!(con.protocol(), Protocol::Binary);
    assert_eq!(con.auth(), &Some(IdentityTokenJson::new("me", "abc")));
    assert_eq!(con.url(), "ws://example.org/database/subscribe");
    let request = build_req_with_key(&con, "dGhlIHNhbXBsZSBub25jZQ==").unwrap();
    assert_eq!(
        request.headers,
        vec![
            pair("Connection", "upgrade"),
            pair("Sec-WebSocket-Protocol", "v1.bin.spacetimedb"),
            pair("Upgrade", PROTO_WEBSOCKET),
            pair("Sec-WebSocket-Version", "13"),
            pair("Sec-WebSocket-Accept", "s3pPLMBiTxaQ9kYGzzhZRbK+xOo="),
            pair("Sec-WebSocket-Key", "dGhlIHNhbXBsZSBub25jZQ=="),
            pair("Authorization", "Basic dG9rZW46YWJj"),
            pair("Host", "example.org"),
        ]
    );
}

#[test]
fn request_for_a_url_without_host_is_a_configuration_error() {
    let relative = BuildConnection::new("/database/subscribe".to_string());
    assert_eq!(
        build_req_with_key(&relative, "k"),
        Err(ClientError::Configuration)
    );
    assert_eq!(build_req(&relative), Err(ClientError::Configuration));
    let malformed = BuildConnection::new("ws://exa mple.org/".to_string());
    assert_eq!(build_req(&malformed), Err(ClientError::Configuration));
    assert!(!has_host("/only/a/path"));
    assert!(!has_host("not a url"));
    assert!(has_host("ws://localhost:3000/x"));
}

#[test]
fn fresh_requests_have_fresh_keys() {
    let con = BuildConnection::new("ws://localhost:3000/database/subscribe".to_string());
    let first = build_req(&con).unwrap();
    let second = build_req(&con).unwrap();
    let key = |r: &spacetime_client_sdk::ws::UpgradeRequest| {
        find_header(&r.headers, "Sec-WebSocket-Key").unwrap().clone()
    };
    assert_ne!(key(&first), key(&second));
    assert_eq!(key(&first).len(), 24);
    let accept = find_header(&first.headers, "Sec-WebSocket-Accept").unwrap();
    assert_eq!(accept, &accept_key(key(&first).as_bytes()));
    assert_eq!(find_header(&first.headers, "Host"), Some(&"localhost".to_string()));
    assert_eq!(find_header(&first.headers, "Authorization"), None);
}

#[test]
fn accepting_response() {
    let response = accept_ws_res(
        "dGhlIHNhbXBsZSBub25jZQ==",
        "v1.text.spacetimedb",
        vec![pair("spacetime-identity", "me"), pair("x-b", "2")],
    );
    assert_eq!(response.status, 101);
    assert_eq!(
        response.headers,
        vec![
            pair("Upgrade", "websocket"),
            pair("Connection", "upgrade"),
            pair("Sec-WebSocket-Accept", "s3pPLMBiTxaQ9kYGzzhZRbK+xOo="),
            pair("Sec-WebSocket-Protocol", "v1.text.spacetimedb"),
            pair("spacetime-identity", "me"),
            pair("x-b", "2"),
        ]
    );
}

#[test]
fn identity_comes_from_the_response_headers() {
    let con = BuildConnection::new("ws://localhost/db".to_string());
    let response = UpgradeResponse {
        status: 101,
        headers: vec![
            pair("upgrade", "websocket"),
            pair("spacetime-identity-token", "tk"),
            pair("spacetime-identity", "me"),
            pair("spacetime-identity", "other"),
        ],
    };
    let next = authenticate(con.clone(), &response).unwrap();
    assert_eq!(next.auth(), &Some(IdentityTokenJson::new("me", "tk")));
    assert_eq!(next.url(), con.url());
    assert_eq!(next.protocol(), Protocol::Text);
}

#[test]
fn missing_identity_headers_are_an_authentication_error() {
    let con = BuildConnection::new("ws://localhost/db".to_string());
    let only_token = UpgradeResponse {
        status: 101,
        headers: vec![pair("spacetime-identity-token", "tk")],
    };
    assert_eq!(authenticate(con.clone(), &only_token), Err(ClientError::Auth));
    let only_identity = UpgradeResponse {
        status: 101,
        headers: vec![pair("spacetime-identity", "me")],
    };
    assert_eq!(authenticate(con.clone(), &only_identity), Err(ClientError::Auth));
    let none = UpgradeResponse { status: 101, headers: vec![] };
    assert_eq!(authenticate(con, &none), Err(ClientError::Auth));
}

#[test]
fn a_response_that_does_not_accept_is_a_transport_error() {
    let con = BuildConnection::new("ws://localhost/db".to_string());
    let refused = UpgradeResponse {
        status: 403,
        headers: vec![
            pair("spacetime-identity-token", "tk"),
            pair("spacetime-identity", "me"),
        ],
    };
    assert_eq!(
        authenticate(con, &refused),
        Err(ClientError::Transport("the upgrade was not accepted".to_string()))
    );
}
