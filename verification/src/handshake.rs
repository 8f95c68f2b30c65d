//! The WebSocket opening handshake: formatting the HTTP upgrade request and
//! validating the protocol switch in an accumulated response.

use vstd::prelude::*;
use vstd::slice::slice_subrange;
use vstd::string::StringExecFns;

use crate::client::ClientError;
use crate::text::opt_string_view;
use crate::text::str_eq;

verus! {

/// The characters that base64 encoding yields for a byte string. Relied on
/// only through `base64_encode`: the outcome is a function of the input
/// bytes alone.
pub uninterp spec fn base64_chars(input: Seq<u8>) -> Seq<char>;

/// Relies on data_encoding::BASE64.encode: standard base64 with padding,
/// four ASCII characters for every three bytes begun; it refuses inputs
/// beyond a 512th of the address space.
#[verifier::external_body]
fn base64_encode(input: &[u8]) -> (r: String)
    requires
        input@.len() <= usize::MAX / 512,
    ensures
        r@ == base64_chars(input@),
        r@.len() == ((input@.len() + 2) / 3) * 4,
{
    data_encoding::BASE64.encode(input)
}

/// Relies on rand::random: sixteen bytes drawn from the thread-local
/// generator. Nothing is promised of the value, and two calls may differ.
#[verifier::external_body]
fn random_key_bytes() -> (r: [u8; 16]) {
    rand::random()
}

/// The HTTP/1.1 upgrade request this client sends: a GET of `/` against
/// `host`, asking for the switch to the WebSocket protocol under `key`.
pub open spec fn upgrade_request_chars(host: Seq<char>, key: Seq<char>) -> Seq<char> {
    "GET / HTTP/1.1\r\nHost: "@ + host + "\r\nUpgrade: websocket\r\nConnection: Upgrade\r\ncontent-length: 0\r\nsec-websocket-version: 13\r\nsec-websocket-key: "@
        + key + "\r\n\r\n"@
}

/// Formats the upgrade request for `uri`, under a key of sixteen bytes
/// drawn fresh on every call and sent base64-encoded.
pub fn create_request(uri: &str) -> (r: String)
    ensures
        exists|key: Seq<u8>|
            key.len() == 16 && r@ == upgrade_request_chars(uri@, base64_chars(key)),
{
    let key_bytes = random_key_bytes();
    let key = base64_encode(key_bytes.as_slice());

    let mut request = String::new();
    request.append("GET / HTTP/1.1\r\nHost: ");
    request.append(uri);
    request.append(
        "\r\nUpgrade: websocket\r\nConnection: Upgrade\r\ncontent-length: 0\r\nsec-websocket-version: 13\r\nsec-websocket-key: ",
    );
    request.append(key.as_str());
    request.append("\r\n\r\n");
    proof {
        assert(request@ =~= upgrade_request_chars(uri@, base64_chars(key_bytes@)));
    }
    request
}

/// The status line a parse attempt sees in a byte span: whether the bytes
/// parse as an HTTP response, and the status code and reason phrase found.
/// Relied on only through `parse_http_response`: the outcome is a function
/// of the bytes alone.
pub uninterp spec fn http_head_of(b: Seq<u8>) -> (bool, Option<u16>, Option<Seq<char>>);

/// What one HTTP response parse attempt saw.
pub struct HttpHead {
    /// Whether the parser accepted the bytes so far.
    pub ok: bool,
    /// The status code, if the status line was complete.
    pub code: Option<u16>,
    /// The reason phrase, if the status line was complete.
    pub reason: Option<String>,
}

/// Relies on httparse's ParserConfig::parse_response over sixteen header
/// slots, with obsolete multi-line headers tolerated, and on Response::new.
#[verifier::external_body]
fn parse_http_response(buffer: &[u8]) -> (r: HttpHead)
    ensures
        (r.ok, r.code, opt_string_view(r.reason)) == http_head_of(buffer@),
{
    let mut headers = [httparse::EMPTY_HEADER; 16];
    let mut response = httparse::Response::new(&mut headers);
    let parsed = httparse::ParserConfig::default()
        .allow_obsolete_multiline_headers_in_responses(true)
        .parse_response(&mut response, buffer);
    match parsed {
        Ok(_) => HttpHead {
            ok: true,
            code: response.code,
            reason: response.reason.map(|s| s.to_string()),
        },
        Err(_) => HttpHead { ok: false, code: None, reason: None },
    }
}

/// A byte span carries an accepted upgrade exactly when it parses as an
/// HTTP response whose status code is 101 and whose reason phrase is
/// exactly "Switching Protocols".
pub open spec fn upgrade_accepted(b: Seq<u8>) -> bool {
    http_head_of(b) == (true, Some(101u16), Some("Switching Protocols"@))
}

/// Validates the accumulated response in `buffer[..len]`: Ok exactly when
/// the span carries an accepted upgrade, a `Handshake` error otherwise.
pub fn validate_response(buffer: &[u8], len: usize) -> (r: Result<(), ClientError>)
    requires
        len <= buffer@.len(),
    ensures
        r is Ok <==> upgrade_accepted(buffer@.take(len as int)),
        r is Err ==> (r matches Err(ClientError::Handshake(s)) && s@ == "Switching protocol"@),
{
    let head = parse_http_response(slice_subrange(buffer, 0, len));
    let code_ok = match &head.code {
        Some(code) => *code == 101,
        None => false,
    };
    let reason_ok = match &head.reason {
        Some(reason) => str_eq(reason.as_str(), "Switching Protocols"),
        None => false,
    };
    if head.ok && code_ok && reason_ok {
        Ok(())
    } else {
        Err(ClientError::Handshake(<String as StringExecFns>::from_str("Switching protocol")))
    }
}

} // verus!
