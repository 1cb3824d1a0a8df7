//! The multicore client: one thread for each path of the connection.

use crate::addr::{pair_addresses, pick_family, pick_first, SocketAddr};
use crate::args::{ClientArgs, ClientError, CommonArgs};
use crate::machine::Machine;
use crate::transport::{
    status_when_draining, CloseCause, MulticoreStatus, Outgoing, PathSend, SocketRecv, SocketSend,
    POLL_TIMEOUT_MS,
};
use vstd::prelude::*;

verus! {

/// What the loop that writes packets to the socket of a path asks for.
#[derive(Clone, Copy, Debug, PartialEq, Eq, Structural)]
pub enum WriteRequest {
    /// Ask the QUIC stack for the next packet of the path.
    SendOnPath,
    /// Hand the first `len` bytes of the buffer to the socket, for `to`.
    SendTo { len: usize, to: SocketAddr },
    /// Report to the other threads that the path is done.
    SignalDone { status: MulticoreStatus },
    /// Close the connection, whatever comes of it.
    Close { cause: CloseCause },
    /// The loop is over. The thread of the path ends if `finished`.
    Return { finished: bool },
    /// The socket failed.
    Fail,
}

/// The answers to a `WriteRequest`.
#[derive(Clone, Copy, Debug, PartialEq, Eq, Structural)]
pub enum WriteReply {
    Path(PathSend),
    Socket(SocketSend),
    /// Whether the report went out.
    Signalled(bool),
    Closed,
}

/// Writes the packets of a path to its socket until there are no more.
#[derive(Clone, Copy, Debug, PartialEq, Eq, Structural)]
pub struct WriteLoop {
    /// Size of the packet buffer.
    pub buf_len: usize,
    pub can_close_conn: bool,
    pub request: WriteRequest,
}

impl Machine for WriteLoop {
    type Reply = WriteReply;

    open spec fn accepts(self, reply: WriteReply) -> bool {
        match self.request {
            WriteRequest::SendOnPath => reply matches WriteReply::Path(sent) && (sent matches
                PathSend::Packet { len, .. } ==> len <= self.buf_len),
            WriteRequest::SendTo { .. } => reply is Socket,
            WriteRequest::SignalDone { .. } => reply is Signalled,
            WriteRequest::Close { .. } => reply is Closed,
            WriteRequest::Return { .. } | WriteRequest::Fail => false,
        }
    }

    open spec fn next(self, reply: WriteReply) -> WriteLoop {
        let give_up = WriteRequest::Return { finished: false };
        match reply {
            WriteReply::Path(PathSend::Packet { len, to }) => self.with(
                WriteRequest::SendTo { len, to },
            ),
            WriteReply::Path(PathSend::Done) => self.with(give_up),
            WriteReply::Path(PathSend::Draining) => self.with(
                WriteRequest::SignalDone {
                    status: crate::transport::draining_status(self.can_close_conn),
                },
            ),
            WriteReply::Path(PathSend::Failed) => self.with(
                WriteRequest::Close { cause: CloseCause::SendFailure },
            ),
            WriteReply::Socket(SocketSend::Sent) => self.with(WriteRequest::SendOnPath),
            WriteReply::Socket(SocketSend::WouldBlock) => self.with(give_up),
            WriteReply::Socket(SocketSend::Failed) => self.with(WriteRequest::Fail),
            WriteReply::Signalled(true) => self.with(WriteRequest::Return { finished: true }),
            WriteReply::Signalled(false) => WriteLoop { can_close_conn: true, ..self.with(give_up) },
            WriteReply::Closed => self.with(give_up),
        }
    }
}

impl WriteLoop {
    pub open spec fn with(self, request: WriteRequest) -> WriteLoop {
        WriteLoop { request, ..self }
    }

    pub open spec fn start(buf_len: usize, can_close_conn: bool) -> WriteLoop {
        WriteLoop { buf_len, can_close_conn, request: WriteRequest::SendOnPath }
    }

    /// The datagram that is being handed to the socket, if one is.
    pub open spec fn datagram() -> spec_fn(WriteLoop) -> Option<Outgoing> {
        |m: WriteLoop|
            match m.request {
                WriteRequest::SendTo { len, to } => Some(Outgoing { len, to }),
                _ => None,
            }
    }

    /// How the loop ended, if it has.
    pub open spec fn ended(self) -> Option<WriteOutcome> {
        match self.request {
            WriteRequest::Return { finished: true } => Some(WriteOutcome::Finished),
            WriteRequest::Return { finished: false } => Some(
                WriteOutcome::Continue { can_close_conn: self.can_close_conn },
            ),
            WriteRequest::Fail => Some(WriteOutcome::Failed),
            _ => None,
        }
    }

    /// Starts on a path whose transfer is complete if `can_close_conn`.
    pub fn new(buf_len: usize, can_close_conn: bool) -> (r: WriteLoop)
        ensures
            r == WriteLoop::start(buf_len, can_close_conn),
    {
        WriteLoop { buf_len, can_close_conn, request: WriteRequest::SendOnPath }
    }

    /// Tells whether `reply` answers the pending request.
    pub fn expects(&self, reply: &WriteReply) -> (r: bool)
        ensures
            r == self.accepts(*reply),
    {
        match (self.request, reply) {
            (WriteRequest::SendOnPath, WriteReply::Path(PathSend::Packet { len, .. })) => *len
                <= self.buf_len,
            (WriteRequest::SendOnPath, WriteReply::Path(_)) => true,
            (WriteRequest::SendTo { .. }, WriteReply::Socket(_)) => true,
            (WriteRequest::SignalDone { .. }, WriteReply::Signalled(_)) => true,
            (WriteRequest::Close { .. }, WriteReply::Closed) => true,
            _ => false,
        }
    }

    /// Tells how the loop ended, if it has.
    pub fn outcome(&self) -> (r: Option<WriteOutcome>)
        ensures
            r == self.ended(),
    {
        match self.request {
            WriteRequest::Return { finished } => if finished {
                Some(WriteOutcome::Finished)
            } else {
                Some(WriteOutcome::Continue { can_close_conn: self.can_close_conn })
            },
            WriteRequest::Fail => Some(WriteOutcome::Failed),
            _ => None,
        }
    }

    /// Takes the answer to the pending request.
    pub fn advance(&mut self, reply: WriteReply)
        requires
            old(self).accepts(reply),
        ensures
            *final(self) == old(self).next(reply),
    {
        self.request = match reply {
            WriteReply::Path(PathSend::Packet { len, to }) => WriteRequest::SendTo { len, to },
            WriteReply::Path(PathSend::Done) => WriteRequest::Return { finished: false },
            WriteReply::Path(PathSend::Draining) => WriteRequest::SignalDone {
                status: status_when_draining(self.can_close_conn),
            },
            WriteReply::Path(PathSend::Failed) => WriteRequest::Close {
                cause: CloseCause::SendFailure,
            },
            WriteReply::Socket(SocketSend::Sent) => WriteRequest::SendOnPath,
            WriteReply::Socket(SocketSend::WouldBlock) => WriteRequest::Return { finished: false },
            WriteReply::Socket(SocketSend::Failed) => WriteRequest::Fail,
            WriteReply::Signalled(true) => WriteRequest::Return { finished: true },
            WriteReply::Signalled(false) => {
                self.can_close_conn = true;
                WriteRequest::Return { finished: false }
            },
            WriteReply::Closed => WriteRequest::Return { finished: false },
        };
    }
}

/// What led to the state that a writing loop is in: the socket is handed the
/// packet that the path came up with last, a report is due when the connection
/// drains, and the loop fails when the socket does.
pub proof fn write_loop_follows_its_replies(
    buf_len: usize,
    can_close_conn: bool,
    replies: Seq<WriteReply>,
)
    requires
        crate::machine::admits(WriteLoop::start(buf_len, can_close_conn), replies),
    ensures
        ({
            let m = crate::machine::run(WriteLoop::start(buf_len, can_close_conn), replies);
            let last = replies.last();
            let begun = replies.len() > 0;
            &&& m.buf_len == buf_len
            &&& m.request matches WriteRequest::SendTo { len, to } ==> begun && len <= buf_len
                && last == WriteReply::Path(PathSend::Packet { len, to })
            &&& m.request matches WriteRequest::SignalDone { status } ==> begun && last
                == WriteReply::Path(PathSend::Draining) && status
                == crate::transport::draining_status(can_close_conn)
            &&& m.request is Close <==> begun && last == WriteReply::Path(PathSend::Failed)
            &&& m.request matches WriteRequest::Close { cause } ==> cause == CloseCause::SendFailure
            &&& m.request is Fail <==> begun && last == WriteReply::Socket(SocketSend::Failed)
            &&& m.ended() == Some(WriteOutcome::Finished) <==> begun && last
                == WriteReply::Signalled(true)
            &&& m.can_close_conn <==> can_close_conn || (begun && last == WriteReply::Signalled(
                false,
            ))
        }),
    decreases replies.len(),
{
    if replies.len() > 0 {
        write_loop_follows_its_replies(buf_len, can_close_conn, replies.drop_last());
    }
}

/// The packets that the path came up with, in order.
pub open spec fn packets_of_path(replies: Seq<WriteReply>) -> Seq<Outgoing>
    decreases replies.len(),
{
    if replies.len() == 0 {
        seq![]
    } else {
        let before = packets_of_path(replies.drop_last());
        match replies.last() {
            WriteReply::Path(PathSend::Packet { len, to }) => before.push(Outgoing { len, to }),
            _ => before,
        }
    }
}

/// The socket is handed the packets that the path came up with: all of them,
/// in order, each one once and for its own destination. The connection is
/// closed once if the path fails, and not at all if it does not. A path that has
/// no more packets ends the loop, and so does a socket that would block.
pub proof fn written_packets_are_those_of_the_path(
    buf_len: usize,
    can_close_conn: bool,
    replies: Seq<WriteReply>,
)
    requires
        crate::machine::admits(WriteLoop::start(buf_len, can_close_conn), replies),
    ensures
        ({
            let start = WriteLoop::start(buf_len, can_close_conn);
            let m = crate::machine::run(start, replies);
            let last = replies.last();
            let begun = replies.len() > 0;
            let closes = crate::machine::visits(start, replies, |m: WriteLoop| m.request is Close);
            &&& crate::machine::issued(start, replies, WriteLoop::datagram()) == packets_of_path(
                replies,
            )
            &&& m.request is SendOnPath <==> !begun || last == WriteReply::Socket(SocketSend::Sent)
            &&& closes == if replies.contains(WriteReply::Path(PathSend::Failed)) {
                1nat
            } else {
                0
            }
            &&& closes == 1 <==> m.request is Close || begun && last == WriteReply::Closed
            &&& begun && last == WriteReply::Path(PathSend::Done) ==> m.ended() == Some(
                WriteOutcome::Continue { can_close_conn },
            ) && closes == 0
            &&& begun && last == WriteReply::Socket(SocketSend::WouldBlock) ==> m.ended() == Some(
                WriteOutcome::Continue { can_close_conn },
            ) && closes == 0
            &&& begun && last == WriteReply::Closed ==> m.ended() == Some(
                WriteOutcome::Continue { can_close_conn },
            ) && closes == 1
        }),
    decreases replies.len(),
{
    write_loop_follows_its_replies(buf_len, can_close_conn, replies);
    if replies.len() > 0 {
        let before = replies.drop_last();
        written_packets_are_those_of_the_path(buf_len, can_close_conn, before);
        write_loop_follows_its_replies(buf_len, can_close_conn, before);
        let failed = WriteReply::Path(PathSend::Failed);
        assert(replies =~= before.push(replies.last()));
        assert(replies.contains(failed) <==> before.contains(failed) || replies.last() == failed)
            by {
            if before.contains(failed) {
                let i = choose|i: int| 0 <= i < before.len() && before[i] == failed;
                assert(replies[i] == failed);
            }
            if replies.last() == failed {
                assert(replies[replies.len() - 1] == failed);
            }
        }
    }
}

/// What the loop that reads packets from the socket of a path asks for.
#[derive(Clone, Copy, Debug, PartialEq, Eq, Structural)]
pub enum ReadRequest {
    /// Take the next readiness event of the poll.
    NextEvent,
    /// Read a datagram from the socket.
    RecvFrom,
    /// Feed the first `len` bytes of the buffer to the path.
    PathRecv { len: usize, from: SocketAddr },
    /// All events are handled.
    Return,
    /// The socket failed.
    Fail,
}

/// The answers to a `ReadRequest`.
#[derive(Clone, Copy, Debug, PartialEq, Eq, Structural)]
pub enum ReadReply {
    /// The next event, and whether it says that the socket is readable.
    Event(Option<bool>),
    Socket(SocketRecv),
    /// The packet was processed, or refused.
    Processed,
}

/// Reads datagrams for each event of a poll and feeds them to the path.
#[derive(Clone, Copy, Debug, PartialEq, Eq, Structural)]
pub struct ReadLoop {
    /// Size of the datagram buffer.
    pub buf_len: usize,
    pub request: ReadRequest,
}

impl Machine for ReadLoop {
    type Reply = ReadReply;

    open spec fn accepts(self, reply: ReadReply) -> bool {
        match self.request {
            ReadRequest::NextEvent => reply is Event,
            ReadRequest::RecvFrom => reply matches ReadReply::Socket(received) && (received matches
                SocketRecv::Received { len, .. } ==> len <= self.buf_len),
            ReadRequest::PathRecv { .. } => reply is Processed,
            ReadRequest::Return | ReadRequest::Fail => false,
        }
    }

    open spec fn next(self, reply: ReadReply) -> ReadLoop {
        let request = match reply {
            ReadReply::Event(None) => ReadRequest::Return,
            ReadReply::Event(Some(true)) => ReadRequest::RecvFrom,
            ReadReply::Event(Some(false)) => ReadRequest::NextEvent,
            ReadReply::Socket(SocketRecv::Received { len, from }) => ReadRequest::PathRecv {
                len,
                from,
            },
            ReadReply::Socket(SocketRecv::WouldBlock) => ReadRequest::NextEvent,
            ReadReply::Socket(SocketRecv::Failed) => ReadRequest::Fail,
            ReadReply::Processed => ReadRequest::RecvFrom,
        };
        ReadLoop { request, ..self }
    }
}

impl ReadLoop {
    pub open spec fn start(buf_len: usize) -> ReadLoop {
        ReadLoop { buf_len, request: ReadRequest::NextEvent }
    }

    /// Whether reading succeeded, once the loop has ended.
    pub open spec fn ended(self) -> Option<bool> {
        match self.request {
            ReadRequest::Return => Some(true),
            ReadRequest::Fail => Some(false),
            _ => None,
        }
    }

    pub fn new(buf_len: usize) -> (r: ReadLoop)
        ensures
            r == ReadLoop::start(buf_len),
    {
        ReadLoop { buf_len, request: ReadRequest::NextEvent }
    }

    /// Tells whether `reply` answers the pending request.
    pub fn expects(&self, reply: &ReadReply) -> (r: bool)
        ensures
            r == self.accepts(*reply),
    {
        match (self.request, reply) {
            (ReadRequest::NextEvent, ReadReply::Event(_)) => true,
            (ReadRequest::RecvFrom, ReadReply::Socket(SocketRecv::Received { len, .. })) => *len
                <= self.buf_len,
            (ReadRequest::RecvFrom, ReadReply::Socket(_)) => true,
            (ReadRequest::PathRecv { .. }, ReadReply::Processed) => true,
            _ => false,
        }
    }

    /// Tells whether reading succeeded, once the loop has ended.
    pub fn outcome(&self) -> (r: Option<bool>)
        ensures
            r == self.ended(),
    {
        match self.request {
            ReadRequest::Return => Some(true),
            ReadRequest::Fail => Some(false),
            _ => None,
        }
    }

    /// Takes the answer to the pending request.
    pub fn advance(&mut self, reply: ReadReply)
        requires
            old(self).accepts(reply),
        ensures
            *final(self) == old(self).next(reply),
    {
        self.request = match reply {
            ReadReply::Event(None) => ReadRequest::Return,
            ReadReply::Event(Some(readable)) => if readable {
                ReadRequest::RecvFrom
            } else {
                ReadRequest::NextEvent
            },
            ReadReply::Socket(SocketRecv::Received { len, from }) => ReadRequest::PathRecv {
                len,
                from,
            },
            ReadReply::Socket(SocketRecv::WouldBlock) => ReadRequest::NextEvent,
            ReadReply::Socket(SocketRecv::Failed) => ReadRequest::Fail,
            ReadReply::Processed => ReadRequest::RecvFrom,
        };
    }
}

/// What led to the state that a reading loop is in: the path is fed the
/// datagram that came last, and the loop ends with the events or when the
/// socket fails.
pub proof fn read_loop_follows_its_replies(buf_len: usize, replies: Seq<ReadReply>)
    requires
        crate::machine::admits(ReadLoop::start(buf_len), replies),
    ensures
        ({
            let m = crate::machine::run(ReadLoop::start(buf_len), replies);
            let last = replies.last();
            let begun = replies.len() > 0;
            &&& m.buf_len == buf_len
            &&& m.request matches ReadRequest::PathRecv { len, from } ==> begun && len <= buf_len
                && last == ReadReply::Socket(SocketRecv::Received { len, from })
            &&& m.ended() == Some(true) <==> begun && last == ReadReply::Event(None)
            &&& m.ended() == Some(false) <==> begun && last == ReadReply::Socket(SocketRecv::Failed)
        }),
    decreases replies.len(),
{
    if replies.len() > 0 {
        read_loop_follows_its_replies(buf_len, replies.drop_last());
    }
}

impl ReadLoop {
    /// The datagram that is being fed to the path, if one is.
    pub open spec fn fed() -> spec_fn(ReadLoop) -> Option<(usize, SocketAddr)> {
        |m: ReadLoop|
            match m.request {
                ReadRequest::PathRecv { len, from } => Some((len, from)),
                _ => None,
            }
    }
}

/// The datagrams that came in, in order.
pub open spec fn datagrams_read(replies: Seq<ReadReply>) -> Seq<(usize, SocketAddr)>
    decreases replies.len(),
{
    if replies.len() == 0 {
        seq![]
    } else {
        let before = datagrams_read(replies.drop_last());
        match replies.last() {
            ReadReply::Socket(SocketRecv::Received { len, from }) => before.push((len, from)),
            _ => before,
        }
    }
}

/// The path is fed the datagrams that came in: all of them, in order, each one
/// once.
pub proof fn read_datagrams_are_fed(buf_len: usize, replies: Seq<ReadReply>)
    requires
        crate::machine::admits(ReadLoop::start(buf_len), replies),
    ensures
        crate::machine::issued(ReadLoop::start(buf_len), replies, ReadLoop::fed())
            == datagrams_read(replies),
    decreases replies.len(),
{
    if replies.len() > 0 {
        read_datagrams_are_fed(buf_len, replies.drop_last());
    }
}

/// Why the thread of a path reports that the path is done.
#[derive(Clone, Copy, Debug, PartialEq, Eq, Structural)]
pub enum Occasion {
    /// Reading from the socket failed.
    ReadError,
    /// All data of the path was received.
    DataReceived,
}

/// Why the thread of a path fails.
#[derive(Clone, Copy, Debug, PartialEq, Eq, Structural)]
pub enum ThreadFailure {
    /// Reading from the socket failed.
    Read,
    /// The reports of the other threads could not be taken.
    DonePaths,
    /// Writing to the socket failed.
    Write,
    /// The connection was closed before it was established.
    Handshake,
    /// The connection could not be closed.
    Close,
}

impl ThreadFailure {
    /// The error that the thread ends with. `cause` is the one that came from
    /// outside, if any did.
    pub fn error(self, cause: ClientError) -> (r: ClientError)
        ensures
            self is Handshake ==> r is HandshakeFail,
            !(self is Handshake) ==> r == cause,
    {
        match self {
            ThreadFailure::Handshake => ClientError::HandshakeFail,
            _ => cause,
        }
    }
}

/// What the client makes of the ends of its threads, of which `panicked` tells
/// whether they panicked: it fails if one did, and does not ask what the others
/// came to.
pub fn joined(panicked: &Vec<bool>) -> (r: Result<(), ClientError>)
    ensures
        r is Ok <==> !panicked@.contains(true),
        r matches Err(e) ==> (e matches ClientError::Other(message) && message@
            == "Error in thread"@),
{
    for i in 0..panicked.len()
        invariant
            forall|j: int| 0 <= j < i ==> !#[trigger] panicked@[j],
    {
        if panicked[i] {
            assert(panicked@[i as int] == true);
            return Err(ClientError::Other("Error in thread".to_owned()));
        }
    }
    Ok(())
}

/// How the loop that writes packets ended.
#[derive(Clone, Copy, Debug, PartialEq, Eq, Structural)]
pub enum WriteOutcome {
    /// The thread of the path ends.
    Finished,
    /// The thread goes on. The transfer is complete if `can_close_conn`.
    Continue { can_close_conn: bool },
    Failed,
}

/// What the thread of a path asks for.
#[derive(Clone, Copy, Debug, PartialEq, Eq, Structural)]
pub enum ThreadRequest {
    /// Send the first datagram of the connection.
    InitiateConnection,
    /// Wait for the socket to become readable.
    Poll { timeout_ms: u64 },
    /// Read the datagrams that have arrived.
    ReadPackets,
    /// Handle the timeout of the path.
    OnTimeout,
    /// Report to the other threads that the path is done.
    SignalDone { status: MulticoreStatus, on: Occasion },
    /// Take the reports of the other threads.
    HandleDonePaths,
    /// Read the data of the transfer.
    ReceiveData,
    /// Handle the events of the path.
    HandlePathEvents,
    /// Find out whether the peer can take another connection identifier.
    SourceCidsLeft,
    /// Give the peer a new connection identifier.
    NewSourceCid,
    /// Find out whether there is an unused identifier of the peer.
    AvailableDcids,
    /// Send a challenge on the path.
    ProbePath,
    /// Write the packets of the path to the socket.
    WritePackets { can_close_conn: bool },
    /// Find out whether the connection is closed, and was established.
    QueryClosed,
    /// Close the connection.
    Close { cause: CloseCause },
    /// The thread ends.
    Return,
    /// The thread fails.
    Fail { failure: ThreadFailure },
}

/// The answers to a `ThreadRequest`.
#[derive(Clone, Copy, Debug, PartialEq, Eq, Structural)]
pub enum ThreadReply {
    /// The request was carried out.
    Done,
    /// The answer to a question, or the success of an attempt.
    Flag(bool),
    /// The number of paths that are still active, unless taking the reports
    /// failed.
    ActivePaths(Option<usize>),
    Wrote(WriteOutcome),
    ConnState { closed: bool, established: bool },
}

/// The thread of one path of a client.
#[derive(Clone, Copy, Debug, PartialEq, Eq, Structural)]
pub struct ClientThread {
    /// This is the path that the connection starts on.
    pub initiate_connection: bool,
    pub multipath_requested: bool,
    pub nb_active_paths: usize,
    /// The path was probed, or needs no probe.
    pub probed_my_path: bool,
    /// The transfer on the path is complete.
    pub can_close_conn: bool,
    pub requested_conn_close: bool,
    pub request: ThreadRequest,
}

pub open spec fn poll_request() -> ThreadRequest {
    ThreadRequest::Poll { timeout_ms: POLL_TIMEOUT_MS }
}

impl Machine for ClientThread {
    type Reply = ThreadReply;

    open spec fn accepts(self, reply: ThreadReply) -> bool {
        match self.request {
            ThreadRequest::InitiateConnection | ThreadRequest::OnTimeout
            | ThreadRequest::HandlePathEvents => reply is Done,
            ThreadRequest::Poll { .. } | ThreadRequest::ReadPackets
            | ThreadRequest::SignalDone { .. } | ThreadRequest::ReceiveData
            | ThreadRequest::SourceCidsLeft | ThreadRequest::NewSourceCid
            | ThreadRequest::AvailableDcids | ThreadRequest::ProbePath
            | ThreadRequest::Close { .. } => reply is Flag,
            ThreadRequest::HandleDonePaths => reply is ActivePaths,
            ThreadRequest::WritePackets { .. } => reply matches ThreadReply::Wrote(outcome) && (
            outcome matches WriteOutcome::Continue { can_close_conn } ==> (self.can_close_conn
                ==> can_close_conn)),
            ThreadRequest::QueryClosed => reply is ConnState,
            ThreadRequest::Return | ThreadRequest::Fail { .. } => false,
        }
    }

    open spec fn next(self, reply: ThreadReply) -> ClientThread {
        match (self.request, reply) {
            (ThreadRequest::InitiateConnection, _) => self.with(poll_request()),
            // The flag tells whether any event came before the timeout.
            (ThreadRequest::Poll { .. }, ThreadReply::Flag(true)) => self.with(
                ThreadRequest::ReadPackets,
            ),
            (ThreadRequest::Poll { .. }, ThreadReply::Flag(false)) => self.with(
                ThreadRequest::OnTimeout,
            ),
            (ThreadRequest::ReadPackets, ThreadReply::Flag(false)) => self.with(
                ThreadRequest::SignalDone {
                    status: MulticoreStatus::Error,
                    on: Occasion::ReadError,
                },
            ),
            (
                ThreadRequest::SignalDone { on: Occasion::ReadError, .. },
                ThreadReply::Flag(true),
            ) => self.fail(ThreadFailure::Read),
            (ThreadRequest::ReadPackets, _) | (ThreadRequest::OnTimeout, _) | (
                ThreadRequest::SignalDone { on: Occasion::ReadError, .. },
                _,
            ) => self.with(ThreadRequest::HandleDonePaths),
            (ThreadRequest::HandleDonePaths, ThreadReply::ActivePaths(Some(n))) => ClientThread {
                nb_active_paths: n,
                ..self.with(
                    if self.can_close_conn {
                        ThreadRequest::HandlePathEvents
                    } else {
                        ThreadRequest::ReceiveData
                    },
                )
            },
            (ThreadRequest::HandleDonePaths, _) => self.fail(ThreadFailure::DonePaths),
            (ThreadRequest::ReceiveData, ThreadReply::Flag(true)) => ClientThread {
                can_close_conn: true,
                ..self.with(
                    ThreadRequest::SignalDone {
                        status: MulticoreStatus::Success,
                        on: Occasion::DataReceived,
                    },
                )
            },
            (ThreadRequest::SignalDone { .. }, ThreadReply::Flag(true)) => self.with(
                ThreadRequest::Return,
            ),
            (ThreadRequest::ReceiveData, _) | (ThreadRequest::SignalDone { .. }, _) => self.with(
                ThreadRequest::HandlePathEvents,
            ),
            // Only the path that the connection starts on gives out identifiers.
            (ThreadRequest::HandlePathEvents, _) => if self.initiate_connection {
                self.with(ThreadRequest::SourceCidsLeft)
            } else {
                self.probe_or_write()
            },
            (ThreadRequest::SourceCidsLeft, ThreadReply::Flag(true)) => self.with(
                ThreadRequest::NewSourceCid,
            ),
            (ThreadRequest::NewSourceCid, ThreadReply::Flag(true)) => self.with(
                ThreadRequest::SourceCidsLeft,
            ),
            (ThreadRequest::SourceCidsLeft, _) | (ThreadRequest::NewSourceCid, _) => self.probe_or_write(),
            (ThreadRequest::AvailableDcids, ThreadReply::Flag(true)) => self.with(
                ThreadRequest::ProbePath,
            ),
            (ThreadRequest::ProbePath, ThreadReply::Flag(true)) => ClientThread {
                probed_my_path: true,
                ..self
            }.write_or_close(),
            (ThreadRequest::AvailableDcids, _) | (ThreadRequest::ProbePath, _) => self.write_or_close(),
            (
                ThreadRequest::WritePackets { .. },
                ThreadReply::Wrote(WriteOutcome::Continue { can_close_conn }),
            ) => ClientThread { can_close_conn, ..self }.close_or_poll(),
            (
                ThreadRequest::WritePackets { .. },
                ThreadReply::Wrote(WriteOutcome::Finished),
            ) => self.with(ThreadRequest::Return),
            (ThreadRequest::WritePackets { .. }, _) => self.fail(ThreadFailure::Write),
            (ThreadRequest::QueryClosed, ThreadReply::ConnState { closed, established }) => if !closed {
                self.with(poll_request())
            } else if established {
                self.with(ThreadRequest::Return)
            } else {
                self.fail(ThreadFailure::Handshake)
            },
            (ThreadRequest::Close { .. }, ThreadReply::Flag(true)) => ClientThread {
                requested_conn_close: true,
                ..self.with(poll_request())
            },
            (ThreadRequest::Close { .. }, _) => self.fail(ThreadFailure::Close),
            _ => self,
        }
    }
}

impl ClientThread {
    pub open spec fn with(self, request: ThreadRequest) -> ClientThread {
        ClientThread { request, ..self }
    }

    pub open spec fn fail(self, failure: ThreadFailure) -> ClientThread {
        self.with(ThreadRequest::Fail { failure })
    }

    /// A path that is not probed yet is probed once there is an identifier of
    /// the peer to probe it with.
    pub open spec fn probe_or_write(self) -> ClientThread {
        if self.multipath_requested && !self.probed_my_path {
            self.with(ThreadRequest::AvailableDcids)
        } else {
            self.write_or_close()
        }
    }

    /// Nothing is sent on a path that is not probed.
    pub open spec fn write_or_close(self) -> ClientThread {
        if self.probed_my_path {
            self.with(ThreadRequest::WritePackets { can_close_conn: self.can_close_conn })
        } else {
            self.close_or_poll()
        }
    }

    /// The last active path closes the connection when its transfer is
    /// complete, and then waits for it to be closed.
    pub open spec fn close_or_poll(self) -> ClientThread {
        if self.nb_active_paths == 1 && self.can_close_conn {
            if self.requested_conn_close {
                self.with(ThreadRequest::QueryClosed)
            } else {
                self.with(ThreadRequest::Close { cause: CloseCause::Complete })
            }
        } else {
            self.with(poll_request())
        }
    }

    /// The state in which a thread starts.
    pub open spec fn start(
        initiate_connection: bool,
        multipath_requested: bool,
        nb_initiated_paths: usize,
    ) -> ClientThread {
        ClientThread {
            initiate_connection,
            multipath_requested,
            nb_active_paths: nb_initiated_paths,
            probed_my_path: initiate_connection,
            can_close_conn: false,
            requested_conn_close: false,
            request: if initiate_connection {
                ThreadRequest::InitiateConnection
            } else {
                ThreadRequest::Poll { timeout_ms: POLL_TIMEOUT_MS }
            },
        }
    }

    /// Starts the thread of one of `nb_initiated_paths` paths.
    pub fn new(
        initiate_connection: bool,
        multipath_requested: bool,
        nb_initiated_paths: usize,
    ) -> (r: ClientThread)
        ensures
            r == ClientThread::start(initiate_connection, multipath_requested, nb_initiated_paths),
    {
        ClientThread {
            initiate_connection,
            multipath_requested,
            nb_active_paths: nb_initiated_paths,
            probed_my_path: initiate_connection,
            can_close_conn: false,
            requested_conn_close: false,
            request: if initiate_connection {
                ThreadRequest::InitiateConnection
            } else {
                ThreadRequest::Poll { timeout_ms: POLL_TIMEOUT_MS }
            },
        }
    }

    /// Tells whether `reply` answers the pending request.
    pub fn expects(&self, reply: &ThreadReply) -> (r: bool)
        ensures
            r == self.accepts(*reply),
    {
        match (self.request, reply) {
            (ThreadRequest::InitiateConnection, ThreadReply::Done) => true,
            (ThreadRequest::OnTimeout, ThreadReply::Done) => true,
            (ThreadRequest::HandlePathEvents, ThreadReply::Done) => true,
            (ThreadRequest::Poll { .. }, ThreadReply::Flag(_)) => true,
            (ThreadRequest::ReadPackets, ThreadReply::Flag(_)) => true,
            (ThreadRequest::SignalDone { .. }, ThreadReply::Flag(_)) => true,
            (ThreadRequest::ReceiveData, ThreadReply::Flag(_)) => true,
            (ThreadRequest::SourceCidsLeft, ThreadReply::Flag(_)) => true,
            (ThreadRequest::NewSourceCid, ThreadReply::Flag(_)) => true,
            (ThreadRequest::AvailableDcids, ThreadReply::Flag(_)) => true,
            (ThreadRequest::ProbePath, ThreadReply::Flag(_)) => true,
            (ThreadRequest::Close { .. }, ThreadReply::Flag(_)) => true,
            (ThreadRequest::HandleDonePaths, ThreadReply::ActivePaths(_)) => true,
            (
                ThreadRequest::WritePackets { .. },
                ThreadReply::Wrote(WriteOutcome::Continue { can_close_conn }),
            ) => !self.can_close_conn || *can_close_conn,
            (ThreadRequest::WritePackets { .. }, ThreadReply::Wrote(_)) => true,
            (ThreadRequest::QueryClosed, ThreadReply::ConnState { .. }) => true,
            _ => false,
        }
    }

    fn go_probe_or_write(&mut self)
        ensures
            *final(self) == old(self).probe_or_write(),
    {
        if self.multipath_requested && !self.probed_my_path {
            self.request = ThreadRequest::AvailableDcids;
        } else {
            self.go_write_or_close();
        }
    }

    fn go_write_or_close(&mut self)
        ensures
            *final(self) == old(self).write_or_close(),
    {
        if self.probed_my_path {
            self.request = ThreadRequest::WritePackets { can_close_conn: self.can_close_conn };
        } else {
            self.go_close_or_poll();
        }
    }

    fn go_close_or_poll(&mut self)
        ensures
            *final(self) == old(self).close_or_poll(),
    {
        self.request = if self.nb_active_paths == 1 && self.can_close_conn {
            if self.requested_conn_close {
                ThreadRequest::QueryClosed
            } else {
                ThreadRequest::Close { cause: CloseCause::Complete }
            }
        } else {
            ThreadRequest::Poll { timeout_ms: POLL_TIMEOUT_MS }
        };
    }

    /// Takes the answer to the pending request.
    pub fn advance(&mut self, reply: ThreadReply)
        requires
            old(self).accepts(reply),
        ensures
            *final(self) == old(self).next(reply),
    {
        match (self.request, reply) {
            (ThreadRequest::InitiateConnection, _) => {
                self.request = ThreadRequest::Poll { timeout_ms: POLL_TIMEOUT_MS };
            },
            (ThreadRequest::Poll { .. }, ThreadReply::Flag(events)) => {
                self.request = if events {
                    ThreadRequest::ReadPackets
                } else {
                    ThreadRequest::OnTimeout
                };
            },
            (ThreadRequest::ReadPackets, ThreadReply::Flag(ok)) => {
                self.request = if ok {
                    ThreadRequest::HandleDonePaths
                } else {
                    ThreadRequest::SignalDone {
                        status: MulticoreStatus::Error,
                        on: Occasion::ReadError,
                    }
                };
            },
            (ThreadRequest::OnTimeout, _) => {
                self.request = ThreadRequest::HandleDonePaths;
            },
            (ThreadRequest::SignalDone { on, .. }, ThreadReply::Flag(signalled)) => {
                self.request = match (on, signalled) {
                    (Occasion::ReadError, true) => ThreadRequest::Fail {
                        failure: ThreadFailure::Read,
                    },
                    (Occasion::ReadError, false) => ThreadRequest::HandleDonePaths,
                    (Occasion::DataReceived, true) => ThreadRequest::Return,
                    (Occasion::DataReceived, false) => ThreadRequest::HandlePathEvents,
                };
            },
            (ThreadRequest::HandleDonePaths, ThreadReply::ActivePaths(None)) => {
                self.request = ThreadRequest::Fail { failure: ThreadFailure::DonePaths };
            },
            (ThreadRequest::HandleDonePaths, ThreadReply::ActivePaths(Some(n))) => {
                self.nb_active_paths = n;
                self.request = if self.can_close_conn {
                    ThreadRequest::HandlePathEvents
                } else {
                    ThreadRequest::ReceiveData
                };
            },
            (ThreadRequest::ReceiveData, ThreadReply::Flag(complete)) => {
                if complete {
                    self.can_close_conn = true;
                    self.request = ThreadRequest::SignalDone {
                        status: MulticoreStatus::Success,
                        on: Occasion::DataReceived,
                    };
                } else {
                    self.request = ThreadRequest::HandlePathEvents;
                }
            },
            (ThreadRequest::HandlePathEvents, _) => {
                if self.initiate_connection {
                    self.request = ThreadRequest::SourceCidsLeft;
                } else {
                    self.go_probe_or_write();
                }
            },
            (ThreadRequest::SourceCidsLeft, ThreadReply::Flag(left)) => {
                if left {
                    self.request = ThreadRequest::NewSourceCid;
                } else {
                    self.go_probe_or_write();
                }
            },
            (ThreadRequest::NewSourceCid, ThreadReply::Flag(ok)) => {
                if ok {
                    self.request = ThreadRequest::SourceCidsLeft;
                } else {
                    self.go_probe_or_write();
                }
            },
            (ThreadRequest::AvailableDcids, ThreadReply::Flag(available)) => {
                if available {
                    self.request = ThreadRequest::ProbePath;
                } else {
                    self.go_write_or_close();
                }
            },
            (ThreadRequest::ProbePath, ThreadReply::Flag(ok)) => {
                if ok {
                    self.probed_my_path = true;
                }
                self.go_write_or_close();
            },
            (ThreadRequest::WritePackets { .. }, ThreadReply::Wrote(outcome)) => {
                match outcome {
                    WriteOutcome::Finished => {
                        self.request = ThreadRequest::Return;
                    },
                    WriteOutcome::Continue { can_close_conn } => {
                        self.can_close_conn = can_close_conn;
                        self.go_close_or_poll();
                    },
                    WriteOutcome::Failed => {
                        self.request = ThreadRequest::Fail { failure: ThreadFailure::Write };
                    },
                }
            },
            (ThreadRequest::QueryClosed, ThreadReply::ConnState { closed, established }) => {
                self.request = if !closed {
                    ThreadRequest::Poll { timeout_ms: POLL_TIMEOUT_MS }
                } else if established {
                    ThreadRequest::Return
                } else {
                    ThreadRequest::Fail { failure: ThreadFailure::Handshake }
                };
            },
            (ThreadRequest::Close { .. }, ThreadReply::Flag(ok)) => {
                if ok {
                    self.requested_conn_close = true;
                    self.request = ThreadRequest::Poll { timeout_ms: POLL_TIMEOUT_MS };
                } else {
                    self.request = ThreadRequest::Fail { failure: ThreadFailure::Close };
                }
            },
            _ => {},
        }
    }
}

impl ClientThread {
    /// What each pending request tells about the thread.
    pub open spec fn coherent(self) -> bool {
        &&& self.initiate_connection ==> self.probed_my_path
        &&& self.probed_my_path ==> self.initiate_connection || self.multipath_requested
        &&& self.requested_conn_close ==> self.can_close_conn
        &&& match self.request {
            ThreadRequest::InitiateConnection => self.initiate_connection,
            ThreadRequest::ReceiveData => !self.can_close_conn,
            ThreadRequest::SourceCidsLeft | ThreadRequest::NewSourceCid => self.initiate_connection,
            ThreadRequest::AvailableDcids | ThreadRequest::ProbePath => self.multipath_requested
                && !self.probed_my_path,
            ThreadRequest::WritePackets { can_close_conn } => self.probed_my_path && can_close_conn
                == self.can_close_conn,
            ThreadRequest::QueryClosed => self.nb_active_paths == 1 && self.can_close_conn
                && self.requested_conn_close,
            ThreadRequest::Close { cause } => self.nb_active_paths == 1 && self.can_close_conn
                && !self.requested_conn_close && cause == CloseCause::Complete,
            _ => true,
        }
    }
}

/// A thread is coherent in every state of every run, and its arguments stay as
/// they are.
pub proof fn client_threads_stay_coherent(
    initiate_connection: bool,
    multipath_requested: bool,
    nb_initiated_paths: usize,
    replies: Seq<ThreadReply>,
)
    requires
        crate::machine::admits(
            ClientThread::start(initiate_connection, multipath_requested, nb_initiated_paths),
            replies,
        ),
    ensures
        ({
            let m = crate::machine::run(
                ClientThread::start(initiate_connection, multipath_requested, nb_initiated_paths),
                replies,
            );
            &&& m.coherent()
            &&& m.initiate_connection == initiate_connection
            &&& m.multipath_requested == multipath_requested
        }),
{
    let inv = |m: ClientThread|
        m.coherent() && m.initiate_connection == initiate_connection && m.multipath_requested
            == multipath_requested;
    crate::machine::invariant_holds(
        ClientThread::start(initiate_connection, multipath_requested, nb_initiated_paths),
        replies,
        inv,
    );
}

impl ClientThread {
    /// A probe of the path of the thread succeeds.
    pub open spec fn probe_succeeds() -> spec_fn(ClientThread, ThreadReply) -> bool {
        |m: ClientThread, reply: ThreadReply|
            m.request is ProbePath && reply == ThreadReply::Flag(true)
    }
}

/// A thread writes packets only on the path that the connection starts on or
/// after it has probed its own path with success, which takes a connection of
/// several paths.
pub proof fn paths_are_probed_before_use(
    initiate_connection: bool,
    multipath_requested: bool,
    nb_initiated_paths: usize,
    replies: Seq<ThreadReply>,
)
    requires
        crate::machine::admits(
            ClientThread::start(initiate_connection, multipath_requested, nb_initiated_paths),
            replies,
        ),
        crate::machine::run(
            ClientThread::start(initiate_connection, multipath_requested, nb_initiated_paths),
            replies,
        ).request is WritePackets,
    ensures
        initiate_connection || {
            &&& multipath_requested
            &&& crate::machine::answered(
                ClientThread::start(initiate_connection, multipath_requested, nb_initiated_paths),
                replies,
                ClientThread::probe_succeeds(),
            )
        },
{
    client_threads_stay_coherent(
        initiate_connection,
        multipath_requested,
        nb_initiated_paths,
        replies,
    );
    lemma_probed(initiate_connection, multipath_requested, nb_initiated_paths, replies);
}

proof fn lemma_probed(
    initiate_connection: bool,
    multipath_requested: bool,
    nb_initiated_paths: usize,
    replies: Seq<ThreadReply>,
)
    requires
        crate::machine::admits(
            ClientThread::start(initiate_connection, multipath_requested, nb_initiated_paths),
            replies,
        ),
    ensures
        ({
            let start = ClientThread::start(
                initiate_connection,
                multipath_requested,
                nb_initiated_paths,
            );
            crate::machine::run(start, replies).probed_my_path && !initiate_connection
                ==> crate::machine::answered(start, replies, ClientThread::probe_succeeds())
        }),
    decreases replies.len(),
{
    if replies.len() > 0 {
        lemma_probed(
            initiate_connection,
            multipath_requested,
            nb_initiated_paths,
            replies.drop_last(),
        );
    }
}

/// Only the thread of the path that the connection starts on gives out
/// connection identifiers.
pub proof fn one_thread_gives_out_identifiers(
    multipath_requested: bool,
    nb_initiated_paths: usize,
    replies: Seq<ThreadReply>,
)
    requires
        crate::machine::admits(
            ClientThread::start(false, multipath_requested, nb_initiated_paths),
            replies,
        ),
    ensures
        !(crate::machine::run(
            ClientThread::start(false, multipath_requested, nb_initiated_paths),
            replies,
        ).request is NewSourceCid),
{
    client_threads_stay_coherent(false, multipath_requested, nb_initiated_paths, replies);
}

/// A thread closes the connection at most once, and only as the last active
/// one and with its transfer complete.
pub proof fn connection_is_closed_once(
    initiate_connection: bool,
    multipath_requested: bool,
    nb_initiated_paths: usize,
    replies: Seq<ThreadReply>,
)
    requires
        crate::machine::admits(
            ClientThread::start(initiate_connection, multipath_requested, nb_initiated_paths),
            replies,
        ),
    ensures
        ({
            let start = ClientThread::start(
                initiate_connection,
                multipath_requested,
                nb_initiated_paths,
            );
            let m = crate::machine::run(start, replies);
            &&& crate::machine::visits(start, replies, |m: ClientThread| m.request is Close) <= 1
            &&& m.request is Close ==> m.nb_active_paths == 1 && m.can_close_conn
        }),
{
    client_threads_stay_coherent(
        initiate_connection,
        multipath_requested,
        nb_initiated_paths,
        replies,
    );
    crate::machine::happens_at_most_once(
        ClientThread::start(initiate_connection, multipath_requested, nb_initiated_paths),
        replies,
        |m: ClientThread| m.coherent(),
        |m: ClientThread| m.request is Close,
        |m: ClientThread| m.requested_conn_close || m.request is Fail,
    );
}

/// A transfer that is complete stays complete, a path that was probed stays
/// probed, and a request to close the connection is not forgotten.
pub proof fn client_thread_flags_stay(m: ClientThread, replies: Seq<ThreadReply>)
    requires
        crate::machine::admits(m, replies),
    ensures
        m.can_close_conn ==> crate::machine::run(m, replies).can_close_conn,
        m.probed_my_path ==> crate::machine::run(m, replies).probed_my_path,
        m.requested_conn_close ==> crate::machine::run(m, replies).requested_conn_close,
    decreases replies.len(),
{
    if replies.len() > 0 {
        client_thread_flags_stay(m, replies.drop_last());
    }
}

/// What a writing loop comes to is an answer to the thread that asked for it.
pub proof fn write_outcomes_are_accepted(
    m: ClientThread,
    buf_len: usize,
    replies: Seq<WriteReply>,
)
    requires
        m.request is WritePackets,
        crate::machine::admits(WriteLoop::start(buf_len, m.can_close_conn), replies),
        crate::machine::run(WriteLoop::start(buf_len, m.can_close_conn), replies).ended() is Some,
    ensures
        m.accepts(
            ThreadReply::Wrote(
                crate::machine::run(
                    WriteLoop::start(buf_len, m.can_close_conn),
                    replies,
                ).ended()->0,
            ),
        ),
{
    write_loop_follows_its_replies(buf_len, m.can_close_conn, replies);
}

/// The addresses of the server that the paths lead to: the one that is
/// connected to, then the others of its IP version.
pub open spec fn peer_addresses(connect_to: SocketAddr, servers: Seq<SocketAddr>) -> Seq<
    SocketAddr,
> {
    seq![connect_to] + crate::addr::of_family(servers, connect_to)
}

/// There is one local address for each address of the server, and none of those
/// of the IP version that is connected to is left without a peer.
pub open spec fn addresses_pair_up(
    connect_to: SocketAddr,
    addrs: Seq<SocketAddr>,
    servers: Seq<SocketAddr>,
) -> bool {
    let locals = crate::addr::of_family(addrs, connect_to);
    &&& addrs.len() == servers.len() + 1
    &&& locals.len() <= peer_addresses(connect_to, servers).len()
}

fn peers_of(connect_to: &SocketAddr, servers: &Vec<SocketAddr>) -> (r: Vec<SocketAddr>)
    ensures
        r@ == peer_addresses(*connect_to, servers@),
{
    let mut others = pick_family(servers, connect_to);
    let mut peers: Vec<SocketAddr> = vec![*connect_to];
    peers.append(&mut others);
    peers
}

/// Tells whether the addresses of the client and the server pair up.
pub fn can_prepare_addresses(
    connect_to: &SocketAddr,
    args: &ClientArgs,
    common_args: &CommonArgs,
) -> (r: bool)
    ensures
        r == addresses_pair_up(*connect_to, args.addrs@, common_args.server_addresses@),
{
    let locals = pick_family(&args.addrs, connect_to);
    let peers = peers_of(connect_to, &common_args.server_addresses);
    args.addrs.len() > 0 && args.addrs.len() - 1 == common_args.server_addresses.len()
        && locals.len() <= peers.len()
}

/// Pairs each local address with an address of the server, and picks the local
/// address that the connection starts from: that of the first pair, or one that
/// lets the system choose where there is no pair.
pub fn multicore_prepare_addresses(
    connect_to: &SocketAddr,
    args: &ClientArgs,
    common_args: &CommonArgs,
) -> (r: (Vec<(SocketAddr, SocketAddr)>, SocketAddr))
    requires
        addresses_pair_up(*connect_to, args.addrs@, common_args.server_addresses@),
    ensures
        r.0@ == crate::addr::pair_up(
            crate::addr::of_family(args.addrs@, *connect_to),
            peer_addresses(*connect_to, common_args.server_addresses@),
        ),
        r.1 == crate::addr::first_local(*connect_to, args.addrs@),
{
    let locals = pick_family(&args.addrs, connect_to);
    let peers = peers_of(connect_to, &common_args.server_addresses);
    let tuples = pair_addresses(&locals, &peers);
    (tuples, pick_first(&args.addrs, connect_to))
}

/// A path besides the one that the connection starts on, and the position of
/// the core that its thread runs on.
#[derive(Clone, Copy, Debug, PartialEq, Eq, Structural)]
pub struct PathPlan {
    pub local: SocketAddr,
    pub peer: SocketAddr,
    pub core: usize,
}

/// The pairs whose local address is not `local`.
pub open spec fn other_pairs(
    tuples: Seq<(SocketAddr, SocketAddr)>,
    local: SocketAddr,
) -> Seq<(SocketAddr, SocketAddr)> {
    tuples.filter(|t: (SocketAddr, SocketAddr)| crate::addr::differs(t.0, local))
}

/// The threads of the other paths run on the cores below the last one, which
/// is for the path that the connection starts on.
pub open spec fn path_plans(
    tuples: Seq<(SocketAddr, SocketAddr)>,
    local: SocketAddr,
    nb_cores: usize,
) -> Seq<PathPlan> {
    let others = other_pairs(tuples, local);
    Seq::new(
        others.len(),
        |j: int|
            PathPlan {
                local: others[j].0,
                peer: others[j].1,
                core: (nb_cores - 2 - j) as usize,
            },
    )
}

/// The position of the core for the path that the connection starts on.
pub fn first_core(nb_cores: usize) -> (r: usize)
    requires
        nb_cores > 0,
    ensures
        r == nb_cores - 1,
{
    nb_cores - 1
}

/// Assigns a core to each path besides the one that starts at `local`, or
/// gives up where there are too few cores.
pub fn plan_paths(
    tuples: &Vec<(SocketAddr, SocketAddr)>,
    local: &SocketAddr,
    nb_cores: usize,
) -> (r: Option<Vec<PathPlan>>)
    ensures
        match r {
            Some(plans) => {
                &&& other_pairs(tuples@, *local).len() < nb_cores
                &&& plans@ == path_plans(tuples@, *local, nb_cores)
            },
            None => other_pairs(tuples@, *local).len() >= nb_cores,
        },
{
    let mut plans: Vec<PathPlan> = Vec::new();
    assert(other_pairs(tuples@.take(0), *local) =~= Seq::empty()) by {
        reveal(Seq::filter);
    }
    if nb_cores == 0 {
        return None;
    }
    for i in 0..tuples.len()
        invariant
            plans@.len() < nb_cores,
            plans@ =~= path_plans(tuples@.take(i as int), *local, nb_cores),
    {
        assert(tuples@.take(i + 1).drop_last() =~= tuples@.take(i as int));
        assert(tuples@.take(i + 1).last() == tuples@[i as int]);
        reveal(Seq::filter);
        let (src, dst) = tuples[i];
        if src != *local {
            if plans.len() == nb_cores - 1 {
                proof {
                    lemma_other_pairs_grow(tuples@, *local, i + 1);
                }
                return None;
            }
            plans.push(PathPlan { local: src, peer: dst, core: nb_cores - 2 - plans.len() });
        }
    }
    assert(tuples@.take(tuples@.len() as int) =~= tuples@);
    Some(plans)
}

/// A prefix holds no more of the other pairs than the whole.
proof fn lemma_other_pairs_grow(
    tuples: Seq<(SocketAddr, SocketAddr)>,
    local: SocketAddr,
    n: int,
)
    requires
        0 <= n <= tuples.len(),
    ensures
        other_pairs(tuples.take(n), local).len() <= other_pairs(tuples, local).len(),
    decreases tuples.len() - n,
{
    if n == tuples.len() {
        assert(tuples.take(n) =~= tuples);
    } else {
        reveal(Seq::filter);
        assert(tuples.take(n + 1).drop_last() =~= tuples.take(n));
        lemma_other_pairs_grow(tuples, local, n + 1);
    }
}

/// The paths join addresses of one IP version. The connection starts from an
/// address of that version: on the first path, which leads to the address that
/// is connected to, if there is one.
pub proof fn prepared_paths_are_of_one_family(
    connect_to: SocketAddr,
    addrs: Seq<SocketAddr>,
    servers: Seq<SocketAddr>,
)
    requires
        addresses_pair_up(connect_to, addrs, servers),
    ensures
        ({
            let pairs = crate::addr::pair_up(
                crate::addr::of_family(addrs, connect_to),
                peer_addresses(connect_to, servers),
            );
            &&& crate::addr::same_family(crate::addr::first_local(connect_to, addrs), connect_to)
            &&& pairs.len() > 0 ==> pairs[0] == (
                crate::addr::first_local(connect_to, addrs),
                connect_to,
            )
            &&& pairs.len() == 0 <==> forall|i: int|
                0 <= i < addrs.len() ==> !crate::addr::same_family(#[trigger] addrs[i], connect_to)
            &&& forall|i: int|
                0 <= i < pairs.len() ==> {
                    &&& crate::addr::same_family((#[trigger] pairs[i]).0, connect_to)
                    &&& crate::addr::same_family(pairs[i].1, connect_to)
                    &&& addrs.contains(pairs[i].0)
                    &&& pairs[i].1 == connect_to || servers.contains(pairs[i].1)
                }
        }),
{
    crate::addr::picked_addresses_are_of_the_family(addrs, connect_to);
    crate::addr::picked_addresses_are_of_the_family(servers, connect_to);
    let locals = crate::addr::of_family(addrs, connect_to);
    if locals.len() > 0 {
        assert(addrs.contains(locals[0]));
    }
    assert forall|i: int|
        0 <= i < addrs.len() && crate::addr::same_family(
            #[trigger] addrs[i],
            connect_to,
        ) implies locals.len() > 0 by {
        addrs.lemma_filter_contains(
            |a: SocketAddr| crate::addr::same_family(a, connect_to),
            i,
        );
    }
}

/// The other paths start elsewhere than at `local`, and each thread has a core
/// of its own, other than that of the path that the connection starts on.
pub proof fn path_threads_have_their_own_cores(
    tuples: Seq<(SocketAddr, SocketAddr)>,
    local: SocketAddr,
    nb_cores: usize,
)
    requires
        other_pairs(tuples, local).len() < nb_cores,
    ensures
        ({
            let plans = path_plans(tuples, local, nb_cores);
            &&& forall|i: int|
                0 <= i < plans.len() ==> {
                    &&& (#[trigger] plans[i]).local != local
                    &&& plans[i].core < nb_cores - 1
                    &&& tuples.contains((plans[i].local, plans[i].peer))
                }
            &&& forall|i: int, j: int|
                0 <= i < j < plans.len() ==> plans[i].core != plans[j].core
        }),
{
    let pred = |t: (SocketAddr, SocketAddr)| crate::addr::differs(t.0, local);
    let others = other_pairs(tuples, local);
    assert forall|i: int| 0 <= i < others.len() implies (#[trigger] others[i]).0 != local
        && tuples.contains(others[i]) by {
        tuples.lemma_filter_pred(pred, i);
        assert(others.contains(others[i]));
        tuples.lemma_filter_contains_rev(pred, others[i]);
    }
}

impl ClientThread {
    /// All data of the path has come in, as the path itself or the writing of its
    /// packets tells.
    pub open spec fn told_complete() -> spec_fn(ClientThread, ThreadReply) -> bool {
        |m: ClientThread, reply: ThreadReply|
            {
                ||| m.request is ReceiveData && reply == ThreadReply::Flag(true)
                ||| m.request is WritePackets && reply == ThreadReply::Wrote(
                    WriteOutcome::Continue { can_close_conn: true },
                )
            }
    }

    /// The connection was asked to close.
    pub open spec fn close_succeeds() -> spec_fn(ClientThread, ThreadReply) -> bool {
        |m: ClientThread, reply: ThreadReply|
            m.request is Close && reply == ThreadReply::Flag(true)
    }

    /// The number of active paths that the reports of the other threads come to.
    pub open spec fn active_paths() -> spec_fn(ClientThread, ThreadReply) -> Option<usize> {
        |m: ClientThread, reply: ThreadReply|
            match (m.request, reply) {
                (ThreadRequest::HandleDonePaths, ThreadReply::ActivePaths(told)) => told,
                _ => None,
            }
    }
}

/// What a thread holds is what it was told: the number of active paths that the
/// reports came to last, that its path was probed with success, that all data has
/// come in, and that the connection was asked to close.
pub proof fn client_threads_know_what_they_were_told(
    initiate_connection: bool,
    multipath_requested: bool,
    nb_initiated_paths: usize,
    replies: Seq<ThreadReply>,
)
    requires
        crate::machine::admits(
            ClientThread::start(initiate_connection, multipath_requested, nb_initiated_paths),
            replies,
        ),
    ensures
        ({
            let start = ClientThread::start(
                initiate_connection,
                multipath_requested,
                nb_initiated_paths,
            );
            let m = crate::machine::run(start, replies);
            &&& m.initiate_connection == initiate_connection
            &&& m.multipath_requested == multipath_requested
            &&& m.nb_active_paths == crate::machine::told_or(
                crate::machine::latest(start, replies, ClientThread::active_paths()),
                nb_initiated_paths,
            )
            &&& m.probed_my_path <==> initiate_connection || crate::machine::answered(
                start,
                replies,
                ClientThread::probe_succeeds(),
            )
            &&& m.can_close_conn <==> crate::machine::answered(
                start,
                replies,
                ClientThread::told_complete(),
            )
            &&& m.requested_conn_close <==> crate::machine::answered(
                start,
                replies,
                ClientThread::close_succeeds(),
            )
        }),
    decreases replies.len(),
{
    if replies.len() > 0 {
        client_threads_know_what_they_were_told(
            initiate_connection,
            multipath_requested,
            nb_initiated_paths,
            replies.drop_last(),
        );
    }
}

/// A thread starts the connection if it is to, and then goes round: it waits, reads
/// or times out, takes the reports of the other threads, and receives data until all
/// has come in, which it reports. A read that fails is reported and ends the thread,
/// unless there is nobody to report to.
pub proof fn client_threads_read_in_order(
    initiate_connection: bool,
    multipath_requested: bool,
    nb_initiated_paths: usize,
    replies: Seq<ThreadReply>,
)
    requires
        crate::machine::admits(
            ClientThread::start(initiate_connection, multipath_requested, nb_initiated_paths),
            replies,
        ),
    ensures
        ({
            let start = ClientThread::start(
                initiate_connection,
                multipath_requested,
                nb_initiated_paths,
            );
            let asked = crate::machine::run(start, replies.drop_last()).request;
            let last = replies.last();
            let next = crate::machine::run(start, replies).request;
            let wait = ThreadRequest::Poll { timeout_ms: 10 };
            let complete = crate::machine::answered(start, replies, ClientThread::told_complete());
            &&& replies.len() == 0 ==> next == if initiate_connection {
                ThreadRequest::InitiateConnection
            } else {
                wait
            }
            &&& replies.len() > 0 ==> {
                &&& asked is InitiateConnection ==> next == wait
                &&& asked is Poll ==> next == if last == ThreadReply::Flag(true) {
                    ThreadRequest::ReadPackets
                } else {
                    ThreadRequest::OnTimeout
                }
                &&& asked is ReadPackets ==> next == if last == ThreadReply::Flag(true) {
                    ThreadRequest::HandleDonePaths
                } else {
                    ThreadRequest::SignalDone {
                        status: MulticoreStatus::Error,
                        on: Occasion::ReadError,
                    }
                }
                &&& asked is OnTimeout ==> next == ThreadRequest::HandleDonePaths
                &&& asked matches ThreadRequest::SignalDone { on, .. } ==> next == match (
                    on,
                    last == ThreadReply::Flag(true),
                ) {
                    (Occasion::ReadError, true) => ThreadRequest::Fail {
                        failure: ThreadFailure::Read,
                    },
                    (Occasion::ReadError, false) => ThreadRequest::HandleDonePaths,
                    (Occasion::DataReceived, true) => ThreadRequest::Return,
                    (Occasion::DataReceived, false) => ThreadRequest::HandlePathEvents,
                }
                &&& asked is HandleDonePaths ==> next == if last == ThreadReply::ActivePaths(None) {
                    ThreadRequest::Fail { failure: ThreadFailure::DonePaths }
                } else if complete {
                    ThreadRequest::HandlePathEvents
                } else {
                    ThreadRequest::ReceiveData
                }
                &&& asked is ReceiveData ==> next == if last == ThreadReply::Flag(true) {
                    ThreadRequest::SignalDone {
                        status: MulticoreStatus::Success,
                        on: Occasion::DataReceived,
                    }
                } else {
                    ThreadRequest::HandlePathEvents
                }
            }
        }),
{
    client_threads_know_what_they_were_told(
        initiate_connection,
        multipath_requested,
        nb_initiated_paths,
        replies,
    );
    if replies.len() > 0 {
        client_threads_know_what_they_were_told(
            initiate_connection,
            multipath_requested,
            nb_initiated_paths,
            replies.drop_last(),
        );
    }
}

/// After the path events a thread gives out identifiers if the connection started on
/// its path, for as long as the peer takes them. It probes its path if that is still
/// to be done and can be done, and writes packets once the path is probed. Then, with
/// one path left and all data in, it closes the connection, or finds out whether a
/// connection that was asked to close is closed. Else it goes round again.
pub proof fn client_threads_write_in_order(
    initiate_connection: bool,
    multipath_requested: bool,
    nb_initiated_paths: usize,
    replies: Seq<ThreadReply>,
)
    requires
        crate::machine::admits(
            ClientThread::start(initiate_connection, multipath_requested, nb_initiated_paths),
            replies,
        ),
        replies.len() > 0,
    ensures
        ({
            let start = ClientThread::start(
                initiate_connection,
                multipath_requested,
                nb_initiated_paths,
            );
            let asked = crate::machine::run(start, replies.drop_last()).request;
            let last = replies.last();
            let yes = last == ThreadReply::Flag(true);
            let next = crate::machine::run(start, replies).request;
            let wait = ThreadRequest::Poll { timeout_ms: 10 };
            let complete = crate::machine::answered(start, replies, ClientThread::told_complete());
            let probed = initiate_connection || crate::machine::answered(
                start,
                replies,
                ClientThread::probe_succeeds(),
            );
            let closing = crate::machine::answered(start, replies, ClientThread::close_succeeds());
            let active = crate::machine::told_or(
                crate::machine::latest(start, replies, ClientThread::active_paths()),
                nb_initiated_paths,
            );
            // The identifiers are dealt with.
            let ids_done = {
                ||| asked is HandlePathEvents && !initiate_connection
                ||| asked is SourceCidsLeft && !yes
                ||| asked is NewSourceCid && !yes
            };
            let to_probe = multipath_requested && !probed;
            let probe_done = (ids_done && !to_probe) || (asked is AvailableDcids && !yes)
                || asked is ProbePath;
            let written = asked is WritePackets && last is Wrote && last->Wrote_0 is Continue;
            let round_done = written || (probe_done && !probed);
            &&& asked is HandlePathEvents && initiate_connection ==> next
                == ThreadRequest::SourceCidsLeft
            &&& asked is SourceCidsLeft && yes ==> next == ThreadRequest::NewSourceCid
            &&& asked is NewSourceCid && yes ==> next == ThreadRequest::SourceCidsLeft
            &&& ids_done && to_probe ==> next == ThreadRequest::AvailableDcids
            &&& asked is AvailableDcids && yes ==> next == ThreadRequest::ProbePath
            &&& probe_done && probed ==> next == (ThreadRequest::WritePackets {
                can_close_conn: complete,
            })
            &&& asked is WritePackets && last == ThreadReply::Wrote(WriteOutcome::Finished) ==> next
                == ThreadRequest::Return
            &&& asked is WritePackets && last == ThreadReply::Wrote(WriteOutcome::Failed) ==> next
                == (ThreadRequest::Fail { failure: ThreadFailure::Write })
            &&& round_done && active == 1 && complete && !closing ==> next
                == (ThreadRequest::Close { cause: CloseCause::Complete })
            &&& round_done && active == 1 && complete && closing ==> next
                == ThreadRequest::QueryClosed
            &&& round_done && !(active == 1 && complete) ==> next == wait
            &&& asked is Close ==> next == if yes {
                wait
            } else {
                ThreadRequest::Fail { failure: ThreadFailure::Close }
            }
            &&& asked is QueryClosed ==> match last {
                ThreadReply::ConnState { closed: false, .. } => next == wait,
                ThreadReply::ConnState { established: true, .. } => next == ThreadRequest::Return,
                _ => next == (ThreadRequest::Fail { failure: ThreadFailure::Handshake }),
            }
            &&& next is Close ==> round_done && active == 1 && complete && !closing
        }),
{
    client_threads_know_what_they_were_told(
        initiate_connection,
        multipath_requested,
        nb_initiated_paths,
        replies,
    );
    client_threads_know_what_they_were_told(
        initiate_connection,
        multipath_requested,
        nb_initiated_paths,
        replies.drop_last(),
    );
    client_threads_stay_coherent(
        initiate_connection,
        multipath_requested,
        nb_initiated_paths,
        replies.drop_last(),
    );
}

/// A writing loop asks the path for a packet, hands each packet to the socket and asks for
/// the next. It ends when the path has no more packets or the socket blocks, and fails when
/// the socket does. A draining connection is reported, as a success if all data has come
/// in, and a path that fails closes the connection.
pub proof fn write_loops_go_in_order(
    buf_len: usize,
    can_close_conn: bool,
    replies: Seq<WriteReply>,
)
    requires
        crate::machine::admits(WriteLoop::start(buf_len, can_close_conn), replies),
    ensures
        ({
            let start = WriteLoop::start(buf_len, can_close_conn);
            let m = crate::machine::run(start, replies);
            let next = m.request;
            let complete = can_close_conn || (replies.len() > 0 && replies.last()
                == WriteReply::Signalled(false));
            let over = WriteRequest::Return { finished: false };
            &&& m.ended() == match next {
                WriteRequest::Return { finished: true } => Some(WriteOutcome::Finished),
                WriteRequest::Return { finished: false } => Some(
                    WriteOutcome::Continue { can_close_conn: complete },
                ),
                WriteRequest::Fail => Some(WriteOutcome::Failed),
                _ => None,
            }
            &&& replies.len() == 0 ==> next == WriteRequest::SendOnPath
            &&& replies.len() > 0 ==> next == match replies.last() {
                WriteReply::Path(PathSend::Packet { len, to }) => WriteRequest::SendTo { len, to },
                WriteReply::Path(PathSend::Done) => over,
                WriteReply::Path(PathSend::Draining) => WriteRequest::SignalDone {
                    status: if can_close_conn {
                        MulticoreStatus::Success
                    } else {
                        MulticoreStatus::Error
                    },
                },
                WriteReply::Path(PathSend::Failed) => WriteRequest::Close {
                    cause: CloseCause::SendFailure,
                },
                WriteReply::Socket(SocketSend::Sent) => WriteRequest::SendOnPath,
                WriteReply::Socket(SocketSend::WouldBlock) => over,
                WriteReply::Socket(SocketSend::Failed) => WriteRequest::Fail,
                WriteReply::Signalled(signalled) => WriteRequest::Return { finished: signalled },
                WriteReply::Closed => over,
            }
        }),
{
    write_loop_follows_its_replies(buf_len, can_close_conn, replies);
    if replies.len() > 0 {
        write_loop_follows_its_replies(buf_len, can_close_conn, replies.drop_last());
    }
}

/// A reading loop takes one event after the other. For each that says that the socket is
/// readable it reads until the socket blocks.
pub proof fn read_loops_go_in_order(buf_len: usize, replies: Seq<ReadReply>)
    requires
        crate::machine::admits(ReadLoop::start(buf_len), replies),
    ensures
        ({
            let next = crate::machine::run(ReadLoop::start(buf_len), replies).request;
            &&& replies.len() == 0 ==> next == ReadRequest::NextEvent
            &&& replies.len() > 0 ==> next == match replies.last() {
                ReadReply::Event(None) => ReadRequest::Return,
                ReadReply::Event(Some(readable)) => if readable {
                    ReadRequest::RecvFrom
                } else {
                    ReadRequest::NextEvent
                },
                ReadReply::Socket(SocketRecv::Received { len, from }) => ReadRequest::PathRecv {
                    len,
                    from,
                },
                ReadReply::Socket(SocketRecv::WouldBlock) => ReadRequest::NextEvent,
                ReadReply::Socket(SocketRecv::Failed) => ReadRequest::Fail,
                ReadReply::Processed => ReadRequest::RecvFrom,
            }
        }),
{
}

/// The path at each position starts at the local address of the right IP version at that
/// position. The first leads to the address that is connected to, the others to the further
/// addresses of the server that are of the same IP version, in order.
pub proof fn paths_are_prepared_by_position(
    connect_to: SocketAddr,
    addrs: Seq<SocketAddr>,
    servers: Seq<SocketAddr>,
)
    ensures
        ({
            let locals = crate::addr::of_family(addrs, connect_to);
            let others = crate::addr::of_family(servers, connect_to);
            let pairs = crate::addr::pair_up(locals, peer_addresses(connect_to, servers));
            &&& addresses_pair_up(connect_to, addrs, servers) <==> {
                &&& addrs.len() == servers.len() + 1
                &&& locals.len() <= others.len() + 1
            }
            &&& addresses_pair_up(connect_to, addrs, servers) ==> pairs.len() == locals.len() && (
            pairs.len() > 0 ==> pairs[0] == (locals[0], connect_to)) && forall|i: int|
                1 <= i < pairs.len() ==> #[trigger] pairs[i] == (locals[i], others[i - 1])
        }),
{
}

/// The paths that do not start at `local` get threads, in order, on the cores counted down
/// from the last but one.
pub proof fn path_threads_are_planned_one_by_one(
    tuples: Seq<(SocketAddr, SocketAddr)>,
    pair: (SocketAddr, SocketAddr),
    local: SocketAddr,
    nb_cores: usize,
)
    requires
        other_pairs(tuples, local).len() + 1 < nb_cores,
    ensures
        path_plans(Seq::empty(), local, nb_cores) == Seq::<PathPlan>::empty(),
        path_plans(tuples.push(pair), local, nb_cores) == if pair.0 == local {
            path_plans(tuples, local, nb_cores)
        } else {
            path_plans(tuples, local, nb_cores).push(
                PathPlan {
                    local: pair.0,
                    peer: pair.1,
                    core: (nb_cores - 2 - path_plans(tuples, local, nb_cores).len()) as usize,
                },
            )
        },
        path_plans(tuples, local, nb_cores).len() == other_pairs(tuples, local).len(),
        other_pairs(tuples.push(pair), local).len() == other_pairs(tuples, local).len() + if pair.0
            == local {
            0int
        } else {
            1
        },
{
    reveal(Seq::filter);
    assert(tuples.push(pair).drop_last() =~= tuples);
    assert(path_plans(Seq::empty(), local, nb_cores) =~= Seq::<PathPlan>::empty());
    if pair.0 == local {
        assert(other_pairs(tuples.push(pair), local) =~= other_pairs(tuples, local));
    } else {
        assert(other_pairs(tuples.push(pair), local) =~= other_pairs(tuples, local).push(pair));
        assert(path_plans(tuples.push(pair), local, nb_cores) =~= path_plans(
            tuples,
            local,
            nb_cores,
        ).push(
            PathPlan {
                local: pair.0,
                peer: pair.1,
                core: (nb_cores - 2 - path_plans(tuples, local, nb_cores).len()) as usize,
            },
        ));
    }
}

/// Every answer of the right kind is taken, whatever it says, and none of another kind. A packet
/// or a datagram must fit the buffer.
pub proof fn path_loops_take_every_answer(
    write: WriteLoop,
    wrote: WriteReply,
    read: ReadLoop,
    got: ReadReply,
)
    ensures
        write.request is SendOnPath ==> (write.accepts(wrote) <==> match wrote {
            WriteReply::Path(PathSend::Packet { len, .. }) => len <= write.buf_len,
            WriteReply::Path(_) => true,
            _ => false,
        }),
        write.request is SendTo ==> (write.accepts(wrote) <==> wrote is Socket),
        write.request is SignalDone ==> (write.accepts(wrote) <==> wrote is Signalled),
        write.request is Close ==> (write.accepts(wrote) <==> wrote is Closed),
        write.request is Return || write.request is Fail ==> !write.accepts(wrote),
        read.request is NextEvent ==> (read.accepts(got) <==> got is Event),
        read.request is RecvFrom ==> (read.accepts(got) <==> match got {
            ReadReply::Socket(SocketRecv::Received { len, .. }) => len <= read.buf_len,
            ReadReply::Socket(_) => true,
            _ => false,
        }),
        read.request is PathRecv ==> (read.accepts(got) <==> got is Processed),
        read.request is Return || read.request is Fail ==> !read.accepts(got),
{
}

/// Every answer of the right kind is taken, whatever it says, and none of another kind. Only a
/// transfer that is complete stays so.
pub proof fn client_threads_take_every_answer(m: ClientThread, reply: ThreadReply)
    ensures
        m.request is InitiateConnection || m.request is OnTimeout || m.request is HandlePathEvents
            ==> (m.accepts(reply) <==> reply is Done),
        m.request is Poll || m.request is ReadPackets || m.request is SignalDone || m.request
            is ReceiveData || m.request is SourceCidsLeft || m.request is NewSourceCid || m.request
            is AvailableDcids || m.request is ProbePath || m.request is Close ==> (m.accepts(reply)
            <==> reply is Flag),
        m.request is HandleDonePaths ==> (m.accepts(reply) <==> reply is ActivePaths),
        m.request is WritePackets ==> (m.accepts(reply) <==> reply is Wrote && !(m.can_close_conn
            && reply->Wrote_0 == (WriteOutcome::Continue { can_close_conn: false }))),
        m.request is QueryClosed ==> (m.accepts(reply) <==> reply is ConnState),
        m.request is Return || m.request is Fail ==> !m.accepts(reply),
{
}

} // verus!
