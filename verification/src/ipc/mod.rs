//! Transports between two ends of a connection.

use vstd::prelude::*;

pub mod frame;
pub mod intra;
pub mod port;
pub mod stream_socket;
pub mod udp;

verus! {

/// An error that a transport reports to the caller of `send` or `recv`.
#[derive(Clone, Copy, Debug, PartialEq, Eq, Structural)]
pub enum TransportError {
    /// The call could not be finished within its timeout.
    TimeOut,
    /// The transport was told to terminate.
    Termination,
    /// Any other error.
    Custom,
}

/// The kinds of I/O errors that the transports tell apart.
#[derive(Clone, Copy, Debug, PartialEq, Eq, Structural)]
pub enum IoErrorKind {
    UnexpectedEof,
    ConnectionRefused,
    WouldBlock,
    Interrupted,
    TimedOut,
    NotConnected,
    Other,
}

/// A condition under which a transport cannot go on at all. Unlike a `TransportError` it is not
/// meant to be handled: whoever drives the transport panics on it.
#[derive(Clone, Copy, Debug, PartialEq, Eq, Structural)]
pub enum Fault {
    /// An I/O error of a kind that is never expected.
    UnexpectedError(IoErrorKind),
    /// A stream claims to have moved more bytes than it was given room for.
    ExcessBytes,
    /// A frame announces an empty packet.
    EmptyFrame,
    /// A frame announces a packet longer than any buffer.
    OversizedFrame,
    /// The description of an end of a connection cannot be read.
    BadArguments,
    /// The key of an end of a connection is already taken.
    DuplicateKey,
    /// No end of a connection has this key.
    UnknownKey,
    /// A step of a handshake failed, or the other end did not say what it has to.
    Handshake,
    /// An event is about something else than the socket.
    InvalidEvent,
    /// Nobody is there to take a signal.
    SignalLost,
    /// The thread that delivers packets is gone.
    Disconnected,
    /// A datagram was sent only in part: "Too big packet".
    TooBigPacket,
    /// A datagram came from somebody else than the other end.
    UnknownPeer,
    /// The handle of a service cannot be read.
    BadHandle,
}

/// Why a packet was not sent or received: an error to report, or a fault.
#[derive(Clone, Copy, Debug, PartialEq, Eq, Structural)]
pub enum TransportFailure {
    Error(TransportError),
    Fault(Fault),
}

/// What sending a packet reports, when the packet was accepted and when it was not.
pub open spec fn report_of(accepted: bool) -> Result<(), TransportError> {
    if accepted {
        Ok(())
    } else {
        Err(TransportError::Custom)
    }
}

/// Sending is reported as a success just when the packet was accepted; the one error is `Custom`.
pub proof fn law_report_is_faithful(accepted: bool)
    ensures
        report_of(accepted) is Ok <==> accepted,
        report_of(accepted) matches Err(error) ==> error == TransportError::Custom,
{
}

/// What sending a packet reports, when the packet was accepted and when it was not.
pub fn sent(accepted: bool) -> (result: Result<(), TransportError>)
    ensures
        result == report_of(accepted),
        result == (if accepted {
            Ok(())
        } else {
            Err(TransportError::Custom)
        }),
{
    if accepted {
        Ok(())
    } else {
        Err(TransportError::Custom)
    }
}

} // verus!
