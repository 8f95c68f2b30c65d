use ws_uring::client::ClientError;
use ws_uring::handshake::create_request;
use ws_uring::handshake::validate_response;

#[test]
fn accepts_switching_protocols() {
    let response = b"HTTP/1.1 101 Switching Protocols\r\nUpgrade: websocket\r\nConnection: Upgrade\r\n\r\n";
    assert!(validate_response(response, response.len()).is_ok());
}

#[test]
fn accepts_bare_status_line() {
    let response = b"HTTP/1.1 101 Switching Protocols\r\n\r\n";
    assert!(validate_response(response, response.len()).is_ok());
}

#[test]
fn rejects_other_status() {
    let response = b"HTTP/1.1 404 Not Found\r\n\r\n";
    let r = validate_response(response, response.len());
    assert!(matches!(r, Err(ClientError::Handshake(_))));
}

#[test]
fn rejects_wrong_reason_phrase() {
    let response = b"HTTP/1.1 101 Upgraded\r\n\r\n";
    let r = validate_response(response, response.len());
    assert!(matches!(r, Err(ClientError::Handshake(_))));
}

#[test]
fn rejects_incomplete_status_line() {
    let response = b"HTTP/1.1 1";
    let r = validate_response(response, response.len());
    assert!(matches!(r, Err(ClientError::Handshake(_))));
}

#[test]
fn rejects_garbage() {
    let response = b"\xFF\xFE not http at all";
    let r = validate_response(response, response.len());
    assert!(matches!(r, Err(ClientError::Handshake(_))));
}

#[test]
fn request_has_the_upgrade_shape() {
    let request = create_request("localhost");
    assert!(request.starts_with("GET / HTTP/1.1\r\nHost: localhost\r\n"));
    assert!(request.contains("Upgrade: websocket\r\n"));
    assert!(request.contains("Connection: Upgrade\r\n"));
    assert!(request.contains("content-length: 0\r\n"));
    assert!(request.contains("sec-websocket-version: 13\r\n"));
    assert!(request.ends_with("\r\n\r\n"));

    let key_line = request
        .lines()
        .find(|line| line.starts_with("sec-websocket-key: "))
        .expect("the request names a key");
    let key = &key_line["sec-websocket-key: ".len()..];
    // sixteen random bytes, base64: twenty-four characters ending in padding
    assert_eq!(key.len(), 24);
}

#[test]
fn request_key_is_fresh_per_call() {
    let first = create_request("localhost");
    let second = create_request("localhost");
    assert_ne!(first, second);
}
