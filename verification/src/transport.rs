//! What the loops ask of the QUIC stack and the sockets, and what they learn
//! from them.

use crate::addr::SocketAddr;
use vstd::prelude::*;

verus! {

/// Largest UDP payload that is sent or received.
pub const MAX_DATAGRAM_SIZE: usize = 1350;

/// Size of the buffers that datagrams are read into and bursts are built in.
pub const MAX_BUF_SIZE: usize = 65507;

/// Length of the connection identifiers that are generated.
pub const MAX_CONN_ID_LEN: usize = 20;

/// How long an idle path thread waits for a readable socket, in milliseconds.
pub const POLL_TIMEOUT_MS: u64 = 10;

/// How the transfer on one path ended.
#[derive(Clone, Copy, Debug, PartialEq, Eq, Structural)]
pub enum MulticoreStatus {
    Success,
    Error,
}

/// Outcome of handing a datagram to a socket.
#[derive(Clone, Copy, Debug, PartialEq, Eq, Structural)]
pub enum SocketSend {
    Sent,
    WouldBlock,
    Failed,
}

/// Outcome of reading a datagram from a socket.
#[derive(Clone, Copy, Debug, PartialEq, Eq, Structural)]
pub enum SocketRecv {
    Received { len: usize, from: SocketAddr },
    WouldBlock,
    Failed,
}

/// The length and the destination of a packet.
#[derive(Clone, Copy, Debug, PartialEq, Eq, Structural)]
pub struct Outgoing {
    pub len: usize,
    pub to: SocketAddr,
}

/// Outcome of asking the QUIC stack for the next packet of a path.
#[derive(Clone, Copy, Debug, PartialEq, Eq, Structural)]
pub enum PathSend {
    /// A packet of `len` bytes for `to` was written to the buffer.
    Packet { len: usize, to: SocketAddr },
    /// There is nothing to send.
    Done,
    /// The connection is draining.
    Draining,
    /// Any other error.
    Failed,
}

/// What the QUIC stack reports about a path.
#[derive(Clone, Copy, Debug, PartialEq, Eq, Structural)]
pub enum PathEvent {
    New { local: SocketAddr, peer: SocketAddr },
    Validated { local: SocketAddr, peer: SocketAddr },
    FailedValidation { local: SocketAddr, peer: SocketAddr },
    Closed { local: SocketAddr, peer: SocketAddr },
    ReusedSourceConnectionId { seq: u64 },
    PeerMigrated { local: SocketAddr, peer: SocketAddr },
    PeerPathStatus { local: SocketAddr, peer: SocketAddr },
    PacketNumSpaceDiscarded { local: SocketAddr, peer: SocketAddr },
}

/// Why a connection is closed by this end.
#[derive(Clone, Copy, Debug, PartialEq, Eq, Structural)]
pub enum CloseCause {
    /// The transfer is complete.
    Complete,
    /// The peer selected another application protocol.
    WrongProtocol,
    /// The QUIC stack failed to produce a packet.
    SendFailure,
}

/// The bytes of "fail".
pub open spec fn fail_reason() -> Seq<u8> {
    seq![102u8, 97, 105, 108]
}

/// The bytes of "APLN not mMPQUIC".
pub open spec fn wrong_protocol_reason() -> Seq<u8> {
    seq![65u8, 80, 76, 78, 32, 110, 111, 116, 32, 109, 77, 80, 81, 85, 73, 67]
}

impl CloseCause {
    /// The error is one of the application rather than of the transport.
    pub open spec fn app_level(self) -> bool {
        !(self is SendFailure)
    }

    pub open spec fn code(self) -> u64 {
        if self is SendFailure {
            1
        } else {
            0
        }
    }

    pub open spec fn reason_bytes(self) -> Seq<u8> {
        match self {
            CloseCause::Complete => seq![],
            CloseCause::WrongProtocol => wrong_protocol_reason(),
            CloseCause::SendFailure => fail_reason(),
        }
    }

    /// Tells whether the close frame is one of the application.
    pub fn is_app_level(&self) -> (r: bool)
        ensures
            r == self.app_level(),
    {
        match self {
            CloseCause::SendFailure => false,
            _ => true,
        }
    }

    /// The error code of the close frame.
    pub fn error_code(&self) -> (r: u64)
        ensures
            r == self.code(),
    {
        match self {
            CloseCause::SendFailure => 1,
            _ => 0,
        }
    }

    /// The reason phrase of the close frame.
    pub fn reason(&self) -> (r: Vec<u8>)
        ensures
            r@ == self.reason_bytes(),
    {
        match self {
            CloseCause::Complete => {
                let bytes: Vec<u8> = Vec::new();
                assert(bytes@ =~= self.reason_bytes());
                bytes
            },
            CloseCause::WrongProtocol => {
                let bytes: Vec<u8> = vec![
                    65, 80, 76, 78, 32, 110, 111, 116, 32, 109, 77, 80, 81, 85, 73, 67,
                ];
                assert(bytes@ =~= self.reason_bytes());
                bytes
            },
            CloseCause::SendFailure => {
                let bytes: Vec<u8> = vec![102, 97, 105, 108];
                assert(bytes@ =~= self.reason_bytes());
                bytes
            },
        }
    }
}

/// The status that a path reports when the connection is draining.
pub open spec fn draining_status(can_close: bool) -> MulticoreStatus {
    if can_close {
        MulticoreStatus::Success
    } else {
        MulticoreStatus::Error
    }
}

pub(crate) fn status_when_draining(can_close: bool) -> (r: MulticoreStatus)
    ensures
        r == draining_status(can_close),
{
    if can_close {
        MulticoreStatus::Success
    } else {
        MulticoreStatus::Error
    }
}

/// What a close frame says depends on its cause. Only a failure to send is an error of the
/// transport: with code 1 and the reason "fail". The others are of the application and have
/// code 0: the end of a transfer without a reason, and the wrong protocol with
/// "APLN not mMPQUIC".
pub proof fn close_frames_tell_their_cause(cause: CloseCause)
    ensures
        cause.app_level() <==> cause is Complete || cause is WrongProtocol,
        cause.code() == 1 <==> cause is SendFailure,
        cause.code() == 0 <==> !(cause is SendFailure),
        cause is Complete ==> cause.reason_bytes().len() == 0,
        cause is SendFailure ==> cause.reason_bytes() == "fail"@.map_values(|c: char| c as u8),
        cause is WrongProtocol ==> cause.reason_bytes() == "APLN not mMPQUIC"@.map_values(
            |c: char| c as u8,
        ),
{
    reveal_strlit("fail");
    reveal_strlit("APLN not mMPQUIC");
    assert(fail_reason() =~= "fail"@.map_values(|c: char| c as u8));
    assert(wrong_protocol_reason() =~= "APLN not mMPQUIC"@.map_values(|c: char| c as u8));
}

} // verus!
