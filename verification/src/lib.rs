//! Client-side core of the RCON remote-console protocol: a verified packet
//! codec for the length-prefixed binary wire format, and the verified
//! decision logic of the protocol exchanges (authentication handshake,
//! command execution with reassembly of fragmented responses, and the
//! retry rule for interrupted writes). Transport I/O stays outside; the
//! functions here turn the bytes and packets a transport hands over into
//! exact, proved results.

use vstd::prelude::*;

pub mod client;
pub mod packet;
pub mod text;
pub mod wire;

verus! {

/// The distinct, inspectable ways a protocol exchange can fail. Transport
/// establishment errors stay with the transport layer; these are the
/// failures the protocol core itself decides.
#[derive(Clone, Copy, Debug, PartialEq, Eq, Structural)]
pub enum RconError {
    /// The authentication reply carried the failure sentinel id `-1`:
    /// the password was rejected.
    AuthenticationFailed,
    /// Fewer bytes were available than a frame declared, or a frame
    /// declared an impossible size; the session is unusable.
    TruncatedStream,
    /// A reply carried an id that is neither the primary nor the sentinel
    /// id: the session is desynchronized and unusable.
    UnexpectedResponseId,
    /// A write attempt failed with anything other than a transient
    /// interruption; the failure is fatal and never retried.
    WriteFailed,
}

} // verus!
