//! Why the engine refuses a segment or a packet.

use vstd::prelude::*;

verus! {

/// A protocol-level refusal. None of these is fatal: the segment is
/// dropped and the engine goes on.
#[derive(Clone, Copy, Debug, PartialEq, Eq, Structural)]
pub enum TcpError {
    /// The segment cannot start a connection: it is not a SYN without ACK.
    HandshakeIncomplete,
    /// No connection exists for the segment's quad, and the segment is not
    /// an opening SYN addressed to a listening endpoint.
    NoMatchingConnection,
}

} // verus!
