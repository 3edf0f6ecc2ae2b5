//! Session core of a minimal game-world server speaking a versioned,
//! binary, packet-oriented protocol.
//!
//! After a lower layer has completed the handshake and authentication and
//! produced a packet reader/writer pair, this library decides everything the
//! session does: the ordered onboarding packet sequence, the periodic
//! keep-alive schedule, the inbound drain policy, and the versioned
//! dimension-registry documents the onboarding sequence carries.
//!
//! All I/O (sockets, timers, task spawning) lives outside; the library works
//! on plain values and is verified.

pub mod config;
pub mod join;
pub mod nbt;
pub mod registry;
pub mod session;

use vstd::prelude::*;

verus! {

/// Why decoding a binary registry resource failed.
#[derive(Clone, Copy, Debug, PartialEq, Eq, Structural)]
pub enum DecodeError {
    /// The stream ended before the document was complete.
    Truncated,
    /// The accumulated size of the decoded data passed the configured bound.
    SizeLimitExceeded,
    /// A tag id outside the known range, or a negative length field.
    Malformed,
    /// The resource decoded cleanly but carried no root compound document.
    /// With the resources bundled in this crate it cannot occur; it is kept
    /// because a corrupted build artifact would surface exactly here.
    MissingRootDocument,
}

/// A transport-level failure on the connection, as the lower layer reports
/// it: a clean end of stream is distinguished from every other failure.
#[derive(Clone, Copy, Debug, PartialEq, Eq, Structural)]
pub enum TransportError {
    /// Clean end of stream: the peer closed the connection.
    Eof,
    /// Any other I/O failure, carried as the lower layer's error code.
    Failed(u32),
}

/// A session-ending failure, as the supervisor surfaces it to the acceptor.
#[derive(Clone, Copy, Debug, PartialEq, Eq, Structural)]
pub enum SessionError {
    /// Loading the dimension registry failed.
    Decode(DecodeError),
    /// A read or write on the connection failed. A clean end of stream on
    /// the inbound source ends the session with success, never through this
    /// variant; on the outbound sink it is a write failure like any other.
    Transport(TransportError),
}

} // verus!
