//! The connection state machine: mapping caller intents and drained ring
//! completions onto protocol-level states and submission-queue entries.
//!
//! The machine never performs I/O itself. Each `issue_*` call and each
//! `step` returns the entries the caller must submit to its ring; the caller
//! hands every drained completion back through `step`. Exactly one
//! operation is outstanding at a time, so a completion's tag attributes it
//! without ambiguity.

use vstd::prelude::*;
use vstd::slice::slice_to_vec;
use vstd::string::StrSliceExecFns;
use vstd::string::StringSliceAdditionalSpecFns;
use vstd::utf8::encode_utf8;

use crate::buf::buf_as_slice;
use crate::buf::buf_from_slice;
use crate::buf::buf_new;
use crate::buf::buf_view;
use crate::frame::decode;
use crate::frame::frame_bytes;
use crate::frame::spec_decode;
use crate::frame::DecodeOutcome;
use crate::frame::Frame;
use crate::frame::OpCode;
use crate::frame::SpecDecode;
use crate::frame::MAX_HEAD_SIZE;
use crate::handshake::base64_chars;
use crate::handshake::create_request;
use crate::handshake::upgrade_accepted;
use crate::handshake::upgrade_request_chars;
use crate::handshake::validate_response;
use crate::text::opt_string_view;
use crate::text::str_eq;

verus! {

/// Why a call failed. An `IO` value wraps the platform error code of a
/// failed completion or syscall.
#[derive(Debug)]
pub enum ClientError {
    IO(i32),
    Disconnected,
    InvalidUrl,
    NoHost,
    ResolveHost,
    OOM,
    Handshake(String),
}

/// The protocol-level state one `step` reports.
#[derive(Debug)]
pub enum State {
    Idle,
    Read(Option<Frame>),
    Connect,
}

/// The tag identifying what kind of intent a submitted entry represents.
#[derive(Debug, Clone, Copy, PartialEq, Eq, Structural)]
pub enum Operation {
    Read,
    Write,
    Connect,
    Close,
    Handshake,
}

/// One drained completion: the tag of the entry it answers, and its result
/// (a count for reads and writes, negative for a platform error).
#[derive(Debug, Clone, Copy, PartialEq, Eq, Structural)]
pub struct Completion {
    pub op: Operation,
    pub result: i32,
}

/// The connection's progress, driven solely by completions observed
/// through `step`.
#[derive(Debug, Clone, Copy, PartialEq, Eq, Structural)]
pub enum ConnectState {
    Idle,
    Connecting,
    Handshaking,
    Connected,
}

/// One entry for the caller's submission queue. The caller tags each entry
/// so that its completion carries the tag back: `Close` with
/// `Operation::Close`, `Connect` with `Operation::Connect`, `Send` with
/// `Operation::Write`, and `Recv` with the operation it names.
#[derive(Debug)]
pub enum Submission {
    /// Close the owned socket.
    Close,
    /// Create a fresh non-blocking stream socket and connect it.
    Connect,
    /// Send these bytes whole.
    Send(Vec<u8>),
    /// Receive into `buffer[offset..offset + len]` of the caller's buffer.
    Recv { offset: usize, len: usize, op: Operation },
}

/// What one `step` produced: the state to report, and the entries the
/// caller must now submit.
pub struct StepOutcome {
    pub state: State,
    pub submissions: Vec<Submission>,
}

/// The connection state machine.
pub struct Client {
    /// The host named at construction, sent in the upgrade request.
    pub host: String,
    /// Whether the machine currently owns a live socket.
    pub has_socket: bool,
    /// How many bytes of a not-yet-complete unit the caller's buffer holds.
    pub bump_index: usize,
    /// The connection's progress.
    pub conn_state: ConnectState,
}

impl Client {
    /// A machine for a connection to `host`. Performs no I/O. An encrypted
    /// port is refused: this client has no encrypted transport.
    pub fn new(host: String, port: u16) -> (c: Client)
        requires
            port != 443,
        ensures
            c.host == host,
            !c.has_socket,
            c.bump_index == 0,
            c.conn_state is Idle,
    {
        Client { host, has_socket: false, bump_index: 0, conn_state: ConnectState::Idle }
    }

    /// Gives up the owned socket: one close entry to submit, after which
    /// the machine owns no socket.
    pub fn issue_close(&mut self) -> (sub: Submission)
        requires
            old(self).has_socket,
        ensures
            !final(self).has_socket,
            final(self).host == old(self).host,
            final(self).bump_index == old(self).bump_index,
            final(self).conn_state is Idle,
            sub is Close,
    {
        self.has_socket = false;
        self.conn_state = ConnectState::Idle;
        Submission::Close
    }

    /// Starts a connection attempt. A socket already owned is first given
    /// up — exactly one close entry stands before the connect entry — and
    /// the accumulator is reset, so nothing of the old connection survives.
    pub fn issue_connect(&mut self) -> (subs: Vec<Submission>)
        ensures
            final(self).host == old(self).host,
            final(self).has_socket,
            final(self).bump_index == 0,
            final(self).conn_state is Connecting,
            old(self).has_socket ==> subs@ =~= seq![Submission::Close, Submission::Connect],
            !old(self).has_socket ==> subs@ =~= seq![Submission::Connect],
    {
        let mut subs: Vec<Submission> = Vec::new();
        if self.has_socket {
            let close = self.issue_close();
            subs.push(close);
        }
        self.has_socket = true;
        self.bump_index = 0;
        self.conn_state = ConnectState::Connecting;
        subs.push(Submission::Connect);
        subs
    }

    /// Asks for a receive into the room left in the caller's buffer. Fails
    /// with `OOM`, asking for nothing, exactly when the accumulator has
    /// already reached the buffer's end.
    pub fn issue_read(&mut self, buffer: &[u8]) -> (r: Result<Submission, ClientError>)
        requires
            old(self).bump_index < buffer@.len() ==> old(self).has_socket,
        ensures
            *final(self) == *old(self),
            old(self).bump_index >= buffer@.len() <==> r == Err::<Submission, ClientError>(
                ClientError::OOM,
            ),
            old(self).bump_index < buffer@.len() ==> r == Ok::<Submission, ClientError>(
                (Submission::Recv {
                    offset: old(self).bump_index,
                    len: (buffer@.len() - old(self).bump_index) as usize,
                    op: Operation::Read,
                }),
            ),
    {
        if self.bump_index >= buffer.len() {
            return Err(ClientError::OOM);
        }
        Ok(
            Submission::Recv {
                offset: self.bump_index,
                len: buffer.len() - self.bump_index,
                op: Operation::Read,
            },
        )
    }

    /// Encodes `bytes` as a final text frame, unmasked: one send entry
    /// holding exactly the frame's wire form.
    pub fn issue_write(&mut self, bytes: &str) -> (sub: Submission)
        requires
            old(self).has_socket,
            bytes.spec_bytes().len() + MAX_HEAD_SIZE <= isize::MAX as usize,
        ensures
            *final(self) == *old(self),
            sub matches Submission::Send(v) && v@ == frame_bytes(
                true,
                OpCode::Text,
                bytes.spec_bytes(),
            ),
    {
        let payload = buf_from_slice(bytes.as_bytes());
        let mut message = Frame::new(true, OpCode::Text, payload);
        let mut out = buf_new();
        message.write(&mut out);
        let encoded = slice_to_vec(buf_as_slice(&out));
        proof {
            assert(encoded@ =~= frame_bytes(true, OpCode::Text, bytes.spec_bytes()));
        }
        Submission::Send(encoded)
    }

    /// Drains at most one completion, handed in by the caller together with
    /// the caller's read buffer.
    ///
    /// With nothing ready the step is `Idle`. A negative result is a
    /// platform error, terminal for the current socket. Otherwise the tag
    /// decides: a read completion of zero bytes is the remote's graceful
    /// close; read bytes are accumulated and decoded, yielding one message
    /// or a follow-up receive; a connect completion sends the upgrade
    /// request and asks for the response; a handshake completion validates
    /// the accumulated response and reports `Connect`; write and close
    /// completions are quiet.
    ///
    /// The caller must not hand in a read completion whose bytes the buffer
    /// cannot hold, nor one whose accumulated span this codec's format
    /// rejects (`frame::decode` tells them apart beforehand); a connect or
    /// read completion can only arrive while the machine owns the socket it
    /// was submitted on.
    pub fn step(&mut self, completion: Option<Completion>, buffer: &[u8]) -> (r: Result<
        StepOutcome,
        ClientError,
    >)
        requires
            completion matches Some(c) ==> {
                &&& c.result != i32::MIN
                &&& (c.op == Operation::Connect && c.result >= 0 ==> old(self).has_socket)
                &&& (c.op == Operation::Read && c.result > 0 ==> {
                    &&& old(self).has_socket
                    &&& old(self).bump_index + c.result <= buffer@.len()
                    &&& !(spec_decode(buffer@.take(old(self).bump_index + c.result)) is Invalid)
                })
                &&& (c.op == Operation::Handshake && c.result >= 0 ==> c.result <= buffer@.len())
            },
        ensures
            final(self).host == old(self).host,
            completion is None ==> ({
                &&& r matches Ok(o) && o.state is Idle && o.submissions@.len() == 0
                &&& *final(self) == *old(self)
            }),
            completion matches Some(c) ==> (c.result < 0 ==> ({
                &&& r == Err::<StepOutcome, ClientError>(
                    ClientError::IO((0 - c.result as int) as i32),
                )
                &&& *final(self) == *old(self)
            })),
            completion matches Some(c) ==> (c.result >= 0 && c.op == Operation::Write ==> ({
                &&& r matches Ok(o) && o.state is Idle && o.submissions@.len() == 0
                &&& *final(self) == *old(self)
            })),
            completion matches Some(c) ==> (c.result >= 0 && c.op == Operation::Close ==> ({
                &&& r matches Ok(o) && o.state is Idle && o.submissions@.len() == 0
                &&& *final(self) == *old(self)
            })),
            completion matches Some(c) ==> (c.result == 0 && c.op == Operation::Read ==> ({
                &&& r matches Ok(o) && o.state matches State::Read(None) && o.submissions@.len()
                    == 0
                &&& final(self).bump_index == 0
                &&& final(self).has_socket == old(self).has_socket
                &&& final(self).conn_state == old(self).conn_state
            })),
            completion matches Some(c) ==> (c.result > 0 && c.op == Operation::Read ==> (match spec_decode(
                buffer@.take(old(self).bump_index + c.result),
            ) {
                SpecDecode::Frame { fin, opcode, payload } => {
                    &&& r matches Ok(o) && o.state matches State::Read(Some(f)) && f.fin == fin
                        && f.opcode == opcode && buf_view(f.payload) == payload
                        && o.submissions@.len() == 0
                    &&& final(self).bump_index == 0
                    &&& final(self).has_socket == old(self).has_socket
                    &&& final(self).conn_state == old(self).conn_state
                },
                SpecDecode::NeedMore => {
                    &&& final(self).bump_index == old(self).bump_index + c.result
                    &&& final(self).has_socket == old(self).has_socket
                    &&& final(self).conn_state == old(self).conn_state
                    &&& (old(self).bump_index + c.result >= buffer@.len() ==> r == Err::<
                        StepOutcome,
                        ClientError,
                    >(ClientError::OOM))
                    &&& (old(self).bump_index + c.result < buffer@.len() ==> (r matches Ok(o)
                        && o.state is Idle && o.submissions@ =~= seq![
                        (Submission::Recv {
                            offset: (old(self).bump_index + c.result) as usize,
                            len: (buffer@.len() - old(self).bump_index - c.result) as usize,
                            op: Operation::Read,
                        }),
                    ]))
                },
                SpecDecode::Invalid => true,
            })),
            completion matches Some(c) ==> (c.result >= 0 && c.op == Operation::Connect ==> ({
                &&& (old(self).bump_index >= buffer@.len() ==> ({
                    &&& r == Err::<StepOutcome, ClientError>(ClientError::OOM)
                    &&& *final(self) == *old(self)
                }))
                &&& (old(self).bump_index < buffer@.len() ==> ({
                    &&& r matches Ok(o) && o.state is Idle && o.submissions@.len() == 2
                    &&& (r matches Ok(o) ==> (o.submissions@[0] matches Submission::Send(v)
                        && exists|key: Seq<u8>|
                        key.len() == 16 && v@ == encode_utf8(
                            upgrade_request_chars(old(self).host@, base64_chars(key)),
                        )))
                    &&& (r matches Ok(o) ==> o.submissions@[1] == (Submission::Recv {
                        offset: old(self).bump_index,
                        len: (buffer@.len() - old(self).bump_index) as usize,
                        op: Operation::Handshake,
                    }))
                    &&& final(self).conn_state is Handshaking
                    &&& final(self).bump_index == old(self).bump_index
                    &&& final(self).has_socket == old(self).has_socket
                }))
            })),
            completion matches Some(c) ==> (c.result >= 0 && c.op == Operation::Handshake ==> ({
                &&& (upgrade_accepted(buffer@.take(c.result as int)) ==> ({
                    &&& r matches Ok(o) && o.state is Connect && o.submissions@.len() == 0
                    &&& final(self).conn_state is Connected
                    &&& final(self).bump_index == old(self).bump_index
                    &&& final(self).has_socket == old(self).has_socket
                }))
                &&& (!upgrade_accepted(buffer@.take(c.result as int)) ==> ({
                    &&& (r matches Err(e) && e matches ClientError::Handshake(s) && s@
                        == "Switching protocol"@)
                    &&& *final(self) == *old(self)
                }))
            })),
    {
        let completion = match completion {
            None => {
                return Ok(StepOutcome { state: State::Idle, submissions: Vec::new() });
            },
            Some(c) => c,
        };
        if completion.result < 0 {
            return Err(ClientError::IO(0 - completion.result));
        }
        match completion.op {
            Operation::Read => {
                if completion.result == 0 {
                    self.bump_index = 0;
                    return Ok(StepOutcome { state: State::Read(None), submissions: Vec::new() });
                }
                let buffer_len = buffer.len();
                assert(self.bump_index + completion.result <= buffer_len);
                let end = self.bump_index + completion.result as usize;
                match decode(buffer, end) {
                    DecodeOutcome::Complete(message) => {
                        self.bump_index = 0;
                        Ok(StepOutcome { state: State::Read(Some(message)), submissions: Vec::new() })
                    },
                    DecodeOutcome::NeedMore => {
                        self.bump_index = end;
                        if end >= buffer.len() {
                            return Err(ClientError::OOM);
                        }
                        let mut subs: Vec<Submission> = Vec::new();
                        subs.push(
                            Submission::Recv {
                                offset: end,
                                len: buffer.len() - end,
                                op: Operation::Read,
                            },
                        );
                        Ok(StepOutcome { state: State::Idle, submissions: subs })
                    },
                    DecodeOutcome::Invalid => {
                        // the caller's obligation rules this span out
                        proof {
                            assert(false);
                        }
                        Err(ClientError::OOM)
                    },
                }
            },
            Operation::Write => Ok(StepOutcome { state: State::Idle, submissions: Vec::new() }),
            Operation::Connect => {
                if self.bump_index >= buffer.len() {
                    return Err(ClientError::OOM);
                }
                let request = create_request(self.host.as_str());
                let request_bytes = request.as_str().as_bytes_vec();
                proof {
                    let key = choose|key: Seq<u8>|
                        key.len() == 16 && request@ == upgrade_request_chars(
                            self.host@,
                            base64_chars(key),
                        );
                    assert(request_bytes@ == encode_utf8(
                        upgrade_request_chars(self.host@, base64_chars(key)),
                    ));
                }
                let mut subs: Vec<Submission> = Vec::new();
                subs.push(Submission::Send(request_bytes));
                subs.push(
                    Submission::Recv {
                        offset: self.bump_index,
                        len: buffer.len() - self.bump_index,
                        op: Operation::Handshake,
                    },
                );
                self.conn_state = ConnectState::Handshaking;
                Ok(StepOutcome { state: State::Idle, submissions: subs })
            },
            Operation::Handshake => {
                match validate_response(buffer, completion.result as usize) {
                    Ok(_) => {
                        self.conn_state = ConnectState::Connected;
                        Ok(StepOutcome { state: State::Connect, submissions: Vec::new() })
                    },
                    Err(e) => Err(e),
                }
            },
            Operation::Close => Ok(StepOutcome { state: State::Idle, submissions: Vec::new() }),
        }
    }
}

/// Whether the url crate parses a string. Relied on only through
/// `inspect_url`: the outcome is a function of the string alone.
pub uninterp spec fn url_parses(s: Seq<char>) -> bool;

/// The host of a parsed URL, if it has one (`url::Url::host_str`).
pub uninterp spec fn url_host(s: Seq<char>) -> Option<Seq<char>>;

/// The explicit port of a parsed URL, if it names one (`url::Url::port`).
pub uninterp spec fn url_port(s: Seq<char>) -> Option<u16>;

/// The scheme of a parsed URL (`url::Url::scheme`).
pub uninterp spec fn url_scheme(s: Seq<char>) -> Seq<char>;

/// What the url crate sees in a string.
pub struct UrlInfo {
    /// Whether the string parses as a URL at all.
    pub parsed: bool,
    /// The host component, if any.
    pub host: Option<String>,
    /// The port the URL names explicitly, if any.
    pub port: Option<u16>,
    /// The scheme.
    pub scheme: String,
}

/// Relies on url::Url::parse and its accessors host_str, port and scheme:
/// each outcome is a function of the input string alone.
#[verifier::external_body]
fn inspect_url(s: &str) -> (r: UrlInfo)
    ensures
        r.parsed == url_parses(s@),
        r.parsed ==> opt_string_view(r.host) == url_host(s@),
        r.parsed ==> r.port == url_port(s@),
        r.parsed ==> r.scheme@ == url_scheme(s@),
{
    match url::Url::parse(s) {
        Ok(u) => UrlInfo {
            parsed: true,
            host: u.host_str().map(|h| h.to_string()),
            port: u.port(),
            scheme: u.scheme().to_string(),
        },
        Err(_) => UrlInfo { parsed: false, host: None, port: None, scheme: String::new() },
    }
}

/// The port a URL stands for when it names none: 443 for the encrypted
/// schemes, 80 otherwise.
pub open spec fn default_port(scheme: Seq<char>) -> u16 {
    if scheme == "https"@ || scheme == "wss"@ {
        443
    } else {
        80
    }
}

/// The host and port a URL names: `InvalidUrl` for a string that does not
/// parse, `NoHost` for one without a host, else the host together with the
/// explicit port or the scheme's default.
pub fn parse_url(url: &str) -> (r: Result<(String, u16), ClientError>)
    ensures
        !url_parses(url@) ==> r == Err::<(String, u16), ClientError>(ClientError::InvalidUrl),
        url_parses(url@) && url_host(url@) is None ==> r == Err::<(String, u16), ClientError>(
            ClientError::NoHost,
        ),
        url_parses(url@) ==> (url_host(url@) matches Some(h) ==> (r matches Ok(t) && t.0@ == h
            && t.1 == (match url_port(url@) {
            Some(p) => p,
            None => default_port(url_scheme(url@)),
        }))),
{
    let info = inspect_url(url);
    if !info.parsed {
        return Err(ClientError::InvalidUrl);
    }
    let host = match info.host {
        Some(h) => h,
        None => {
            return Err(ClientError::NoHost);
        },
    };
    let port = match info.port {
        Some(p) => p,
        None => {
            if str_eq(info.scheme.as_str(), "https") || str_eq(info.scheme.as_str(), "wss") {
                443
            } else {
                80
            }
        },
    };
    Ok((host, port))
}

} // verus!
