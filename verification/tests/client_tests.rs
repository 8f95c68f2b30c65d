use ws_uring::client::Client;
use ws_uring::client::ClientError;
use ws_uring::client::Completion;
use ws_uring::client::ConnectState;
use ws_uring::client::Operation;
use ws_uring::client::State;
use ws_uring::client::Submission;
use ws_uring::client::parse_url;

fn fresh_client() -> Client {
    Client::new("localhost".to_string(), 8080)
}

#[test]
fn url_parsing_matches_the_original_lookups() {
    let (host, port) = parse_url("http://localhost:8080").unwrap();
    assert_eq!(host, "localhost");
    assert_eq!(port, 8080);

    let (host, port) = parse_url("http://www.example.com").unwrap();
    assert_eq!(host, "www.example.com");
    assert_eq!(port, 80);

    let (_, port) = parse_url("https://www.example.com").unwrap();
    assert_eq!(port, 443);

    let (_, port) = parse_url("wss://example.com").unwrap();
    assert_eq!(port, 443);

    let (host, port) = parse_url("ws://localhost:8080").unwrap();
    assert_eq!(host, "localhost");
    assert_eq!(port, 8080);
}

#[test]
fn url_parsing_rejects_what_the_original_rejected() {
    assert!(matches!(parse_url(""), Err(ClientError::InvalidUrl)));
    assert!(matches!(parse_url("example.com"), Err(ClientError::InvalidUrl)));
    assert!(matches!(parse_url("www.example.com"), Err(ClientError::InvalidUrl)));
    assert!(matches!(parse_url("data:text/plain,x"), Err(ClientError::NoHost)));
}

#[test]
fn buffer_exhaustion_fails_with_oom_and_submits_nothing() {
    let mut client = fresh_client();
    client.issue_connect();
    let buffer: Vec<u8> = Vec::new();
    let r = client.issue_read(&buffer);
    assert!(matches!(r, Err(ClientError::OOM)));
    assert_eq!(client.bump_index, 0);
    assert!(client.has_socket);
}

#[test]
fn issue_read_asks_for_the_room_left() {
    let mut client = fresh_client();
    client.issue_connect();
    let buffer = vec![0u8; 64];
    match client.issue_read(&buffer) {
        Ok(Submission::Recv { offset, len, op }) => {
            assert_eq!(offset, 0);
            assert_eq!(len, 64);
            assert_eq!(op, Operation::Read);
        }
        _ => panic!("room left in the buffer: a receive must be asked for"),
    }
}

#[test]
fn reconnect_discards_state() {
    let mut client = fresh_client();

    let first = client.issue_connect();
    assert!(matches!(first[..], [Submission::Connect]));
    assert!(client.has_socket);
    assert_eq!(client.conn_state, ConnectState::Connecting);

    // accumulate part of a frame so the accumulator is not trivially zero
    let mut buffer = vec![0u8; 16];
    buffer[0] = 0x82;
    buffer[1] = 5;
    let r = client
        .step(Some(Completion { op: Operation::Read, result: 2 }), &buffer)
        .unwrap();
    assert!(matches!(r.state, State::Idle));
    assert_eq!(client.bump_index, 2);

    let second = client.issue_connect();
    assert!(matches!(second[..], [Submission::Close, Submission::Connect]));
    assert!(client.has_socket);
    assert_eq!(client.bump_index, 0);
}

#[test]
fn graceful_close_yields_empty_read_and_resets() {
    let mut client = fresh_client();
    client.issue_connect();
    let buffer = vec![0u8; 8];
    let r = client
        .step(Some(Completion { op: Operation::Read, result: 0 }), &buffer)
        .unwrap();
    assert!(matches!(r.state, State::Read(None)));
    assert!(r.submissions.is_empty());
    assert_eq!(client.bump_index, 0);
}

#[test]
fn negative_completion_result_is_an_io_error() {
    let mut client = fresh_client();
    client.issue_connect();
    let buffer = vec![0u8; 8];
    let r = client.step(Some(Completion { op: Operation::Write, result: -111 }), &buffer);
    assert!(matches!(r, Err(ClientError::IO(111))));
}

#[test]
fn idle_when_nothing_completed() {
    let mut client = fresh_client();
    let buffer = vec![0u8; 8];
    let r = client.step(None, &buffer).unwrap();
    assert!(matches!(r.state, State::Idle));
    assert!(r.submissions.is_empty());
}

#[test]
fn write_and_close_completions_are_quiet() {
    let mut client = fresh_client();
    client.issue_connect();
    let buffer = vec![0u8; 8];
    let r = client
        .step(Some(Completion { op: Operation::Write, result: 6 }), &buffer)
        .unwrap();
    assert!(matches!(r.state, State::Idle));
    let r = client
        .step(Some(Completion { op: Operation::Close, result: 0 }), &buffer)
        .unwrap();
    assert!(matches!(r.state, State::Idle));
}

#[test]
fn connect_completion_with_a_full_buffer_is_oom() {
    let mut client = fresh_client();
    client.issue_connect();
    let buffer: Vec<u8> = Vec::new();
    let r = client.step(Some(Completion { op: Operation::Connect, result: 0 }), &buffer);
    assert!(matches!(r, Err(ClientError::OOM)));
}

#[test]
fn handshake_rejection_is_a_handshake_error() {
    let mut client = fresh_client();
    client.issue_connect();
    let response = b"HTTP/1.1 404 Not Found\r\n\r\n";
    let mut buffer = vec![0u8; 256];
    buffer[..response.len()].copy_from_slice(response);
    let r = client.step(
        Some(Completion { op: Operation::Handshake, result: response.len() as i32 }),
        &buffer,
    );
    assert!(matches!(r, Err(ClientError::Handshake(_))));
}

#[test]
fn one_message_per_step_resets_the_accumulator() {
    let mut client = fresh_client();
    client.issue_connect();
    // a complete two-byte-payload frame followed by the start of another
    let mut buffer = vec![0u8; 16];
    buffer[..6].copy_from_slice(&[0x82, 2, 0xAA, 0xBB, 0x82, 1]);
    let r = client
        .step(Some(Completion { op: Operation::Read, result: 6 }), &buffer)
        .unwrap();
    match r.state {
        State::Read(Some(message)) => assert_eq!(&message.payload[..], &[0xAA, 0xBB]),
        _ => panic!("the complete frame is delivered"),
    }
    // the accumulator resets: the trailing bytes are not carried over
    assert_eq!(client.bump_index, 0);
    assert!(r.submissions.is_empty());
}

#[test]
fn end_to_end_echo_scenario() {
    let (host, port) = parse_url("ws://localhost:8080").unwrap();
    assert_eq!(port, 8080);
    let mut client = Client::new(host, port);
    let mut buffer = vec![0u8; 1024];

    // start the connection
    let subs = client.issue_connect();
    assert!(matches!(subs[..], [Submission::Connect]));

    // nothing ready yet: idle steps
    let r = client.step(None, &buffer).unwrap();
    assert!(matches!(r.state, State::Idle));

    // the connect completion triggers the handshake send and receive
    let r = client
        .step(Some(Completion { op: Operation::Connect, result: 0 }), &buffer)
        .unwrap();
    assert!(matches!(r.state, State::Idle));
    assert_eq!(r.submissions.len(), 2);
    match &r.submissions[0] {
        Submission::Send(request) => {
            let text = std::str::from_utf8(request).unwrap();
            assert!(text.starts_with("GET / HTTP/1.1\r\nHost: localhost\r\n"));
            assert!(text.ends_with("\r\n\r\n"));
        }
        _ => panic!("the upgrade request is sent first"),
    }
    match &r.submissions[1] {
        Submission::Recv { offset, len, op } => {
            assert_eq!(*offset, 0);
            assert_eq!(*len, 1024);
            assert_eq!(*op, Operation::Handshake);
        }
        _ => panic!("the response read follows the request"),
    }
    assert_eq!(client.conn_state, ConnectState::Handshaking);

    // the write of the request completes quietly
    let r = client
        .step(Some(Completion { op: Operation::Write, result: 100 }), &buffer)
        .unwrap();
    assert!(matches!(r.state, State::Idle));

    // the server switches protocols: the caller observes Connect
    let response = b"HTTP/1.1 101 Switching Protocols\r\nUpgrade: websocket\r\n\r\n";
    buffer[..response.len()].copy_from_slice(response);
    let r = client
        .step(
            Some(Completion { op: Operation::Handshake, result: response.len() as i32 }),
            &buffer,
        )
        .unwrap();
    assert!(matches!(r.state, State::Connect));
    assert_eq!(client.conn_state, ConnectState::Connected);

    // send a text frame
    let sub = client.issue_write("Hello!");
    let encoded = match sub {
        Submission::Send(bytes) => bytes,
        _ => panic!("a write is a send"),
    };
    assert_eq!(&encoded[..2], &[0x81, 6]);
    assert_eq!(&encoded[2..], b"Hello!");

    // the server echoes the frame; deliver it split across two reads
    buffer[..3].copy_from_slice(&encoded[..3]);
    let r = client
        .step(Some(Completion { op: Operation::Read, result: 3 }), &buffer)
        .unwrap();
    assert!(matches!(r.state, State::Idle));
    match &r.submissions[..] {
        [Submission::Recv { offset, len, op }] => {
            assert_eq!(*offset, 3);
            assert_eq!(*len, 1024 - 3);
            assert_eq!(*op, Operation::Read);
        }
        _ => panic!("a partial frame re-issues the read"),
    }
    assert_eq!(client.bump_index, 3);

    buffer[3..encoded.len()].copy_from_slice(&encoded[3..]);
    let r = client
        .step(
            Some(Completion { op: Operation::Read, result: (encoded.len() - 3) as i32 }),
            &buffer,
        )
        .unwrap();
    match r.state {
        State::Read(Some(message)) => {
            assert_eq!(&message.payload[..], b"Hello!");
        }
        _ => panic!("the echoed frame is delivered whole"),
    }
    assert_eq!(client.bump_index, 0);
}
