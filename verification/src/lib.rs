//! A client-side WebSocket engine driven by a completion-queue I/O facility.
//!
//! The library holds the verified core: the frame codec, the opening
//! handshake, and the connection state machine that maps caller intents and
//! ring completions onto protocol-level states. The surrounding process —
//! socket creation, ring submission, name resolution — lives outside the
//! library and drives it through plain values.

pub mod buf;
pub mod client;
pub mod frame;
pub mod handshake;
pub mod text;

pub use frame::is_control;
pub use frame::OpCode;
