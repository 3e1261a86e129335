//! Decision logic for tunnelling a byte stream over a WebSocket connection.
//!
//! A forwarding session joins a message-framed WebSocket endpoint to an
//! unframed byte-stream endpoint (a TCP socket, or standard input and output).
//! The I/O itself is done by the caller; this crate decides, for each thing
//! that happens on either endpoint, what is to be done next, and proves that
//! the bytes pass through unchanged and that a session stops exactly once.
pub mod frame;
pub mod session;
pub mod trace;
pub mod acceptor;
