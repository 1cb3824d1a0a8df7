//! The client that serves all paths of a connection in one thread.

use crate::addr::SocketAddr;
use crate::args::ClientError;
use crate::machine::Machine;
use crate::transport::{CloseCause, SocketRecv};
use vstd::prelude::*;

verus! {

/// Largest number of packets that are counted.
pub const MAX_PACKET_COUNT: u32 = 0x7fff_ffff;

/// What the loop over the readable sockets asks for. A socket is named by the
/// position of its event.
#[derive(Clone, Copy, Debug, PartialEq, Eq, Structural)]
pub enum EventsRequest {
    /// Read a datagram from the socket.
    RecvFrom { event: usize },
    /// Write the datagram to the dump of the given number.
    DumpPacket { event: usize, number: u32, len: usize, from: SocketAddr },
    /// Feed the first `len` bytes of the buffer to the connection.
    ConnRecv { event: usize, len: usize, from: SocketAddr },
    /// All events are handled.
    Return,
    /// The socket failed.
    Fail,
}

/// The answers to an `EventsRequest`.
#[derive(Clone, Copy, Debug, PartialEq, Eq, Structural)]
pub enum EventsReply {
    Socket(SocketRecv),
    /// The request was carried out, or its failure does not matter.
    Done,
}

/// Reads the datagrams of each readable socket and feeds them to the
/// connection.
#[derive(Clone, Copy, Debug, PartialEq, Eq, Structural)]
pub struct SocketEvents {
    pub nb_events: usize,
    /// Size of the datagram buffer.
    pub buf_len: usize,
    /// Write each datagram to a dump.
    pub dump: bool,
    /// Number of datagrams that were received.
    pub pkt_count: u32,
    pub request: EventsRequest,
}

impl SocketEvents {
    pub open spec fn with(self, request: EventsRequest) -> SocketEvents {
        SocketEvents { request, ..self }
    }

    /// Turns to the event at `event`, or ends.
    pub open spec fn turn_to(self, event: int) -> SocketEvents {
        if event < self.nb_events {
            self.with(EventsRequest::RecvFrom { event: event as usize })
        } else {
            self.with(EventsRequest::Return)
        }
    }

    /// The state in which `nb_events` events are taken up.
    pub open spec fn start(
        nb_events: usize,
        buf_len: usize,
        dump: bool,
        pkt_count: u32,
    ) -> SocketEvents {
        (SocketEvents {
            nb_events,
            buf_len,
            dump,
            pkt_count,
            request: EventsRequest::Return,
        }).turn_to(0)
    }

    /// Whether reading succeeded, once all events are handled.
    pub open spec fn ended(self) -> Option<bool> {
        match self.request {
            EventsRequest::Return => Some(true),
            EventsRequest::Fail => Some(false),
            _ => None,
        }
    }

    /// The event that has its turn.
    pub open spec fn turn(self) -> Option<usize> {
        match self.request {
            EventsRequest::RecvFrom { event } | EventsRequest::DumpPacket { event, .. }
            | EventsRequest::ConnRecv { event, .. } => Some(event),
            EventsRequest::Return | EventsRequest::Fail => None,
        }
    }

    /// The pending request is about one of the events.
    pub open spec fn well_formed(self) -> bool {
        match self.request {
            EventsRequest::RecvFrom { event } => event < self.nb_events,
            EventsRequest::DumpPacket { event, number, len, .. } => {
                &&& event < self.nb_events
                &&& len <= self.buf_len
                &&& number == self.pkt_count < MAX_PACKET_COUNT
            },
            EventsRequest::ConnRecv { event, len, .. } => event < self.nb_events && len
                <= self.buf_len,
            EventsRequest::Return | EventsRequest::Fail => true,
        }
    }
}

impl Machine for SocketEvents {
    type Reply = EventsReply;

    open spec fn accepts(self, reply: EventsReply) -> bool {
        match self.request {
            EventsRequest::RecvFrom { .. } => reply matches EventsReply::Socket(received) && (
            received matches SocketRecv::Received { len, .. } ==> len <= self.buf_len
                && self.pkt_count < MAX_PACKET_COUNT),
            EventsRequest::DumpPacket { .. } | EventsRequest::ConnRecv { .. } => reply is Done,
            EventsRequest::Return | EventsRequest::Fail => false,
        }
    }

    open spec fn next(self, reply: EventsReply) -> SocketEvents {
        match (self.request, reply) {
            (
                EventsRequest::RecvFrom { event },
                EventsReply::Socket(SocketRecv::Received { len, from }),
            ) => if self.dump {
                self.with(EventsRequest::DumpPacket { event, number: self.pkt_count, len, from })
            } else {
                SocketEvents {
                    pkt_count: (self.pkt_count + 1) as u32,
                    ..self.with(EventsRequest::ConnRecv { event, len, from })
                }
            },
            (
                EventsRequest::RecvFrom { event },
                EventsReply::Socket(SocketRecv::WouldBlock),
            ) => self.turn_to(event + 1),
            (EventsRequest::RecvFrom { .. }, _) => self.with(EventsRequest::Fail),
            (EventsRequest::DumpPacket { event, len, from, .. }, _) => SocketEvents {
                pkt_count: (self.pkt_count + 1) as u32,
                ..self.with(EventsRequest::ConnRecv { event, len, from })
            },
            (EventsRequest::ConnRecv { event, .. }, _) => self.turn_to(event as int),
            _ => self,
        }
    }
}

impl SocketEvents {
    /// Starts on `nb_events` events, after `pkt_count` datagrams.
    pub fn new(nb_events: usize, buf_len: usize, dump: bool, pkt_count: u32) -> (r: SocketEvents)
        ensures
            r == SocketEvents::start(nb_events, buf_len, dump, pkt_count),
            r.well_formed(),
    {
        SocketEvents {
            nb_events,
            buf_len,
            dump,
            pkt_count,
            request: if 0 < nb_events {
                EventsRequest::RecvFrom { event: 0 }
            } else {
                EventsRequest::Return
            },
        }
    }

    /// Tells whether `reply` answers the pending request.
    pub fn expects(&self, reply: &EventsReply) -> (r: bool)
        ensures
            r == self.accepts(*reply),
    {
        match (self.request, reply) {
            (
                EventsRequest::RecvFrom { .. },
                EventsReply::Socket(SocketRecv::Received { len, .. }),
            ) => *len <= self.buf_len && self.pkt_count < MAX_PACKET_COUNT,
            (EventsRequest::RecvFrom { .. }, EventsReply::Socket(_)) => true,
            (EventsRequest::DumpPacket { .. }, EventsReply::Done) => true,
            (EventsRequest::ConnRecv { .. }, EventsReply::Done) => true,
            _ => false,
        }
    }

    /// Tells whether reading succeeded, once all events are handled.
    pub fn outcome(&self) -> (r: Option<bool>)
        ensures
            r == self.ended(),
    {
        match self.request {
            EventsRequest::Return => Some(true),
            EventsRequest::Fail => Some(false),
            _ => None,
        }
    }

    /// Takes the answer to the pending request.
    pub fn advance(&mut self, reply: EventsReply)
        requires
            old(self).accepts(reply),
            old(self).well_formed(),
        ensures
            *final(self) == old(self).next(reply),
            final(self).well_formed(),
    {
        match (self.request, reply) {
            (EventsRequest::RecvFrom { event }, EventsReply::Socket(received)) => {
                match received {
                    SocketRecv::Received { len, from } => {
                        if self.dump {
                            self.request = EventsRequest::DumpPacket {
                                event,
                                number: self.pkt_count,
                                len,
                                from,
                            };
                        } else {
                            self.pkt_count = self.pkt_count + 1;
                            self.request = EventsRequest::ConnRecv { event, len, from };
                        }
                    },
                    SocketRecv::WouldBlock => {
                        self.request = if event + 1 < self.nb_events {
                            EventsRequest::RecvFrom { event: event + 1 }
                        } else {
                            EventsRequest::Return
                        };
                    },
                    SocketRecv::Failed => {
                        self.request = EventsRequest::Fail;
                    },
                }
            },
            (EventsRequest::DumpPacket { event, len, from, .. }, _) => {
                self.pkt_count = self.pkt_count + 1;
                self.request = EventsRequest::ConnRecv { event, len, from };
            },
            (EventsRequest::ConnRecv { event, .. }, _) => {
                self.request = EventsRequest::RecvFrom { event };
            },
            _ => {},
        }
    }
}

/// The number of datagrams among the replies.
pub open spec fn datagrams(replies: Seq<EventsReply>) -> nat
    decreases replies.len(),
{
    if replies.len() == 0 {
        0
    } else {
        datagrams(replies.drop_last()) + if replies.last() matches EventsReply::Socket(
            SocketRecv::Received { .. },
        ) {
            1nat
        } else {
            0nat
        }
    }
}

/// Every datagram is counted, dumped under its number if dumps are asked for,
/// and fed to the connection. Numbers are consecutive.
pub proof fn datagrams_are_numbered(
    nb_events: usize,
    buf_len: usize,
    dump: bool,
    pkt_count: u32,
    replies: Seq<EventsReply>,
)
    requires
        crate::machine::admits(SocketEvents::start(nb_events, buf_len, dump, pkt_count), replies),
        pkt_count <= MAX_PACKET_COUNT,
    ensures
        ({
            let m = crate::machine::run(
                SocketEvents::start(nb_events, buf_len, dump, pkt_count),
                replies,
            );
            let last = replies.last();
            let begun = replies.len() > 0;
            &&& m.well_formed()
            &&& m.nb_events == nb_events && m.buf_len == buf_len && m.dump == dump
            &&& m.pkt_count <= MAX_PACKET_COUNT
            &&& m.pkt_count + (if m.request is DumpPacket {
                1int
            } else {
                0int
            }) == pkt_count + datagrams(replies)
            &&& m.request matches EventsRequest::DumpPacket { number, len, from, .. } ==> {
                &&& dump
                &&& begun
                &&& last == EventsReply::Socket(SocketRecv::Received { len, from })
                &&& number + 1 == pkt_count + datagrams(replies)
            }
            &&& m.request matches EventsRequest::ConnRecv { len, from, .. } ==> {
                &&& begun
                &&& if dump {
                    last == EventsReply::Done
                } else {
                    last == EventsReply::Socket(SocketRecv::Received { len, from })
                }
            }
            &&& m.ended() == Some(false) <==> begun && last == EventsReply::Socket(
                SocketRecv::Failed,
            )
        }),
    decreases replies.len(),
{
    if replies.len() > 0 {
        datagrams_are_numbered(nb_events, buf_len, dump, pkt_count, replies.drop_last());
    }
}

impl SocketEvents {
    /// The datagram that is being fed to the connection, if one is, and its event.
    pub open spec fn fed() -> spec_fn(SocketEvents) -> Option<(usize, usize, SocketAddr)> {
        |m: SocketEvents|
            match m.request {
                EventsRequest::ConnRecv { event, len, from } => Some((event, len, from)),
                _ => None,
            }
    }

    /// The datagram that is being dumped, if one is, and its number.
    pub open spec fn dumped() -> spec_fn(SocketEvents) -> Option<(u32, usize, SocketAddr)> {
        |m: SocketEvents|
            match m.request {
                EventsRequest::DumpPacket { number, len, from, .. } => Some((number, len, from)),
                _ => None,
            }
    }
}

/// The datagrams that came in, in order, each with the event that had its turn.
pub open spec fn datagrams_read(start: SocketEvents, replies: Seq<EventsReply>) -> Seq<
    (usize, usize, SocketAddr),
>
    decreases replies.len(),
{
    if replies.len() == 0 {
        seq![]
    } else {
        let before = datagrams_read(start, replies.drop_last());
        let turn = crate::machine::run(start, replies.drop_last()).turn();
        match replies.last() {
            EventsReply::Socket(SocketRecv::Received { len, from }) => before.push(
                (turn->0, len, from),
            ),
            _ => before,
        }
    }
}

/// The connection is fed the datagrams that came in: all of them, in order, each
/// one once. One that is being dumped waits. If dumps are asked for all of them
/// are dumped, each under its own number, and else none is.
pub proof fn datagrams_are_fed(
    nb_events: usize,
    buf_len: usize,
    dump: bool,
    pkt_count: u32,
    replies: Seq<EventsReply>,
)
    requires
        crate::machine::admits(SocketEvents::start(nb_events, buf_len, dump, pkt_count), replies),
        pkt_count <= MAX_PACKET_COUNT,
    ensures
        ({
            let start = SocketEvents::start(nb_events, buf_len, dump, pkt_count);
            let read = datagrams_read(start, replies);
            let fed = crate::machine::issued(start, replies, SocketEvents::fed());
            let dumped = crate::machine::issued(start, replies, SocketEvents::dumped());
            &&& match crate::machine::run(start, replies).request {
                EventsRequest::DumpPacket { event, len, from, .. } => read == fed.push(
                    (event, len, from),
                ),
                _ => read == fed,
            }
            &&& read.len() == datagrams(replies)
            &&& dumped.len() == if dump {
                read.len()
            } else {
                0
            }
            &&& forall|k: int|
                0 <= k < dumped.len() ==> {
                    &&& (#[trigger] dumped[k]).0 == pkt_count + k
                    &&& dumped[k].1 == read[k].1
                    &&& dumped[k].2 == read[k].2
                }
        }),
    decreases replies.len(),
{
    datagrams_are_numbered(nb_events, buf_len, dump, pkt_count, replies);
    if replies.len() > 0 {
        datagrams_are_fed(nb_events, buf_len, dump, pkt_count, replies.drop_last());
        datagrams_are_numbered(nb_events, buf_len, dump, pkt_count, replies.drop_last());
    }
}

/// The events have their turns in order.
pub proof fn events_are_handled_in_order(m: SocketEvents, replies: Seq<EventsReply>)
    requires
        m.well_formed(),
        crate::machine::admits(m, replies),
    ensures
        ({
            let later = crate::machine::run(m, replies);
            &&& later.well_formed()
            &&& later.nb_events == m.nb_events
            &&& m.turn() is None ==> later == m
            &&& later.turn() matches Some(event) ==> m.turn()->0 <= event
        }),
    decreases replies.len(),
{
    if replies.len() > 0 {
        events_are_handled_in_order(m, replies.drop_last());
    }
}

/// Reading succeeds only after every readable socket was read from.
pub proof fn every_event_is_handled(
    nb_events: usize,
    buf_len: usize,
    dump: bool,
    pkt_count: u32,
    replies: Seq<EventsReply>,
    event: usize,
)
    requires
        crate::machine::admits(SocketEvents::start(nb_events, buf_len, dump, pkt_count), replies),
        crate::machine::run(
            SocketEvents::start(nb_events, buf_len, dump, pkt_count),
            replies,
        ).ended() == Some(true),
        event < nb_events,
    ensures
        crate::machine::reaches(
            SocketEvents::start(nb_events, buf_len, dump, pkt_count),
            replies,
            |m: SocketEvents| m.request == (EventsRequest::RecvFrom { event }),
        ),
{
    lemma_events_reached(
        SocketEvents::start(nb_events, buf_len, dump, pkt_count),
        replies,
        event,
    );
}

proof fn lemma_events_reached(start: SocketEvents, replies: Seq<EventsReply>, event: usize)
    requires
        start == start.turn_to(0),
        crate::machine::admits(start, replies),
        event < start.nb_events,
    ensures
        ({
            let m = crate::machine::run(start, replies);
            (m.request is Return || (m.turn() matches Some(turn) && event <= turn))
                ==> crate::machine::reaches(
                start,
                replies,
                |m: SocketEvents| m.request == (EventsRequest::RecvFrom { event }),
            )
        }),
    decreases replies.len(),
{
    events_are_handled_in_order(start, replies);
    if replies.len() > 0 {
        events_are_handled_in_order(start, replies.drop_last());
        lemma_events_reached(start, replies.drop_last(), event);
    }
}

/// Why the client fails.
#[derive(Clone, Copy, Debug, PartialEq, Eq, Structural)]
pub enum ConnectFailure {
    /// Reading failed.
    Recv,
    /// Writing to a socket failed.
    Send,
    /// The connection was closed before it was established.
    Handshake,
    /// The connection was closed before the transfer was complete.
    Incomplete,
}

impl ConnectFailure {
    /// The error that the client ends with. `detail` says what went wrong
    /// outside.
    pub fn error(self, detail: String) -> (r: ClientError)
        ensures
            match self {
                ConnectFailure::Recv | ConnectFailure::Send => r == ClientError::Other(detail),
                ConnectFailure::Handshake => r is HandshakeFail,
                ConnectFailure::Incomplete => r is HttpFail,
            },
    {
        match self {
            ConnectFailure::Recv | ConnectFailure::Send => ClientError::Other(detail),
            ConnectFailure::Handshake => ClientError::HandshakeFail,
            ConnectFailure::Incomplete => ClientError::HttpFail,
        }
    }
}

/// What the client asks for.
#[derive(Clone, Copy, Debug, PartialEq, Eq, Structural)]
pub enum ConnectRequest {
    /// Find out whether the handshake is still under way while early data can
    /// be sent.
    IsInEarlyData,
    /// Wait for a socket to become readable or for the timeout of the
    /// connection.
    Poll,
    /// Count the readiness events.
    CountEvents,
    /// Handle the timeout of the connection.
    OnTimeout,
    /// Read the datagrams of `nb_events` readable sockets.
    ReadSockets { nb_events: usize },
    /// Find out whether the connection is closed, after reading or after
    /// sending.
    IsClosed { after_sending: bool },
    /// Find out whether the connection was established.
    IsEstablished,
    /// Save the session to the session file.
    SaveSession,
    /// Find out whether the transfer is incomplete.
    ReportIncomplete,
    /// Find out whether the handshake is complete or early data can be sent.
    CanStart,
    /// Find out whether the peer selected the protocol of the client.
    CheckProtocol,
    /// Create the transfer.
    CreateTransfer,
    /// Read the data of the transfer.
    ReceiveData,
    /// Close the connection.
    Close { cause: CloseCause },
    /// Handle the events of the paths.
    HandlePathEvents { migrated: bool },
    /// Do the upkeep of the connection.
    Upkeep,
    /// Send what the paths have to send, in the order of the schedule.
    Send,
    /// The connection is over.
    Return,
    /// The client fails.
    Fail { failure: ConnectFailure },
}

/// The answers to a `ConnectRequest`.
#[derive(Clone, Copy, Debug, PartialEq, Eq, Structural)]
pub enum ConnectReply {
    /// The request was carried out.
    Done,
    /// The answer to a question, or the success of an attempt.
    Flag(bool),
    /// A number of events.
    Count(usize),
    /// The connection has migrated.
    Migrated(bool),
}

/// The loop of a client.
#[derive(Clone, Copy, Debug, PartialEq, Eq, Structural)]
pub struct ConnectLoop {
    pub perform_migration: bool,
    /// There is a file to save the session to.
    pub session_file: bool,
    /// The transfer was created.
    pub app_proto_selected: bool,
    pub migrated: bool,
    pub request: ConnectRequest,
}

impl ConnectLoop {
    pub open spec fn with(self, request: ConnectRequest) -> ConnectLoop {
        ConnectLoop { request, ..self }
    }

    pub open spec fn fail(self, failure: ConnectFailure) -> ConnectLoop {
        self.with(ConnectRequest::Fail { failure })
    }

    /// What follows once a closed connection turns out to have been
    /// established: the session is saved if there is a file for it.
    pub open spec fn wind_up(self) -> ConnectLoop {
        if self.session_file {
            self.with(ConnectRequest::SaveSession)
        } else {
            self.settle()
        }
    }

    /// A transfer that was created must be complete.
    pub open spec fn settle(self) -> ConnectLoop {
        if self.app_proto_selected {
            self.with(ConnectRequest::ReportIncomplete)
        } else {
            self.with(ConnectRequest::Return)
        }
    }

    /// The transfer is created once, and after the migration if there is to
    /// be one.
    pub open spec fn start_transfer(self) -> ConnectLoop {
        if (!self.perform_migration || self.migrated) && !self.app_proto_selected {
            self.with(ConnectRequest::CanStart)
        } else {
            self.transfer()
        }
    }

    pub open spec fn transfer(self) -> ConnectLoop {
        if self.app_proto_selected {
            self.with(ConnectRequest::ReceiveData)
        } else {
            self.path_events()
        }
    }

    pub open spec fn path_events(self) -> ConnectLoop {
        self.with(ConnectRequest::HandlePathEvents { migrated: self.migrated })
    }

    /// The state in which a client starts, after its first datagram.
    pub open spec fn start(perform_migration: bool, session_file: bool) -> ConnectLoop {
        ConnectLoop {
            perform_migration,
            session_file,
            app_proto_selected: false,
            migrated: false,
            request: ConnectRequest::IsInEarlyData,
        }
    }
}

impl Machine for ConnectLoop {
    type Reply = ConnectReply;

    open spec fn accepts(self, reply: ConnectReply) -> bool {
        match self.request {
            ConnectRequest::IsInEarlyData | ConnectRequest::ReadSockets { .. }
            | ConnectRequest::IsClosed { .. } | ConnectRequest::IsEstablished
            | ConnectRequest::ReportIncomplete | ConnectRequest::CanStart
            | ConnectRequest::CheckProtocol | ConnectRequest::ReceiveData
            | ConnectRequest::Send => reply is Flag,
            ConnectRequest::Poll | ConnectRequest::OnTimeout | ConnectRequest::SaveSession
            | ConnectRequest::CreateTransfer | ConnectRequest::Close { .. }
            | ConnectRequest::Upkeep => reply is Done,
            ConnectRequest::CountEvents => reply is Count,
            ConnectRequest::HandlePathEvents { .. } => reply matches ConnectReply::Migrated(m) && (
            self.migrated ==> m),
            ConnectRequest::Return | ConnectRequest::Fail { .. } => false,
        }
    }

    open spec fn next(self, reply: ConnectReply) -> ConnectLoop {
        match (self.request, reply) {
            // While early data can be sent the transfer is started without
            // waiting.
            (ConnectRequest::IsInEarlyData, ConnectReply::Flag(early)) => if !early
                || self.app_proto_selected {
                self.with(ConnectRequest::Poll)
            } else {
                self.with(ConnectRequest::CountEvents)
            },
            (ConnectRequest::Poll, _) => self.with(ConnectRequest::CountEvents),
            (ConnectRequest::CountEvents, ConnectReply::Count(n)) => if n == 0 {
                self.with(ConnectRequest::OnTimeout)
            } else {
                self.with(ConnectRequest::ReadSockets { nb_events: n })
            },
            (ConnectRequest::ReadSockets { .. }, ConnectReply::Flag(false)) => self.fail(
                ConnectFailure::Recv,
            ),
            (ConnectRequest::OnTimeout, _) | (ConnectRequest::ReadSockets { .. }, _) => self.with(
                ConnectRequest::IsClosed { after_sending: false },
            ),
            (ConnectRequest::IsClosed { .. }, ConnectReply::Flag(true)) => self.with(
                ConnectRequest::IsEstablished,
            ),
            (ConnectRequest::IsClosed { after_sending: false }, _) => self.start_transfer(),
            (ConnectRequest::IsClosed { after_sending: true }, _) => self.with(
                ConnectRequest::IsInEarlyData,
            ),
            (ConnectRequest::IsEstablished, ConnectReply::Flag(true)) => self.wind_up(),
            (ConnectRequest::IsEstablished, _) => self.fail(ConnectFailure::Handshake),
            (ConnectRequest::SaveSession, _) => self.settle(),
            (ConnectRequest::ReportIncomplete, ConnectReply::Flag(true)) => self.fail(
                ConnectFailure::Incomplete,
            ),
            (ConnectRequest::ReportIncomplete, _) => self.with(ConnectRequest::Return),
            (ConnectRequest::CanStart, ConnectReply::Flag(true)) => self.with(
                ConnectRequest::CheckProtocol,
            ),
            (ConnectRequest::CanStart, _) => self.transfer(),
            (ConnectRequest::CheckProtocol, ConnectReply::Flag(true)) => self.with(
                ConnectRequest::CreateTransfer,
            ),
            (ConnectRequest::CheckProtocol, _) => self.with(
                ConnectRequest::Close { cause: CloseCause::WrongProtocol },
            ),
            (ConnectRequest::CreateTransfer, _) => ConnectLoop {
                app_proto_selected: true,
                ..self
            }.transfer(),
            (ConnectRequest::ReceiveData, ConnectReply::Flag(true)) => self.with(
                ConnectRequest::Close { cause: CloseCause::Complete },
            ),
            (ConnectRequest::ReceiveData, _) | (ConnectRequest::Close { .. }, _) => self.path_events(),
            (ConnectRequest::HandlePathEvents { .. }, ConnectReply::Migrated(migrated)) => ConnectLoop {
                migrated,
                ..self.with(ConnectRequest::Upkeep)
            },
            (ConnectRequest::Upkeep, _) => self.with(ConnectRequest::Send),
            (ConnectRequest::Send, ConnectReply::Flag(true)) => self.with(
                ConnectRequest::IsClosed { after_sending: true },
            ),
            (ConnectRequest::Send, _) => self.fail(ConnectFailure::Send),
            _ => self,
        }
    }
}

impl ConnectLoop {
    pub fn new(perform_migration: bool, session_file: bool) -> (r: ConnectLoop)
        ensures
            r == ConnectLoop::start(perform_migration, session_file),
    {
        ConnectLoop {
            perform_migration,
            session_file,
            app_proto_selected: false,
            migrated: false,
            request: ConnectRequest::IsInEarlyData,
        }
    }

    /// Tells whether `reply` answers the pending request.
    pub fn expects(&self, reply: &ConnectReply) -> (r: bool)
        ensures
            r == self.accepts(*reply),
    {
        match (self.request, reply) {
            (ConnectRequest::IsInEarlyData, ConnectReply::Flag(_)) => true,
            (ConnectRequest::ReadSockets { .. }, ConnectReply::Flag(_)) => true,
            (ConnectRequest::IsClosed { .. }, ConnectReply::Flag(_)) => true,
            (ConnectRequest::IsEstablished, ConnectReply::Flag(_)) => true,
            (ConnectRequest::ReportIncomplete, ConnectReply::Flag(_)) => true,
            (ConnectRequest::CanStart, ConnectReply::Flag(_)) => true,
            (ConnectRequest::CheckProtocol, ConnectReply::Flag(_)) => true,
            (ConnectRequest::ReceiveData, ConnectReply::Flag(_)) => true,
            (ConnectRequest::Send, ConnectReply::Flag(_)) => true,
            (ConnectRequest::Poll, ConnectReply::Done) => true,
            (ConnectRequest::OnTimeout, ConnectReply::Done) => true,
            (ConnectRequest::SaveSession, ConnectReply::Done) => true,
            (ConnectRequest::CreateTransfer, ConnectReply::Done) => true,
            (ConnectRequest::Close { .. }, ConnectReply::Done) => true,
            (ConnectRequest::Upkeep, ConnectReply::Done) => true,
            (ConnectRequest::CountEvents, ConnectReply::Count(_)) => true,
            (ConnectRequest::HandlePathEvents { .. }, ConnectReply::Migrated(migrated)) => {
                !self.migrated || *migrated
            },
            _ => false,
        }
    }

    fn go_settle(&mut self)
        ensures
            *final(self) == old(self).settle(),
    {
        self.request = if self.app_proto_selected {
            ConnectRequest::ReportIncomplete
        } else {
            ConnectRequest::Return
        };
    }

    fn go_transfer(&mut self)
        ensures
            *final(self) == old(self).transfer(),
    {
        self.request = if self.app_proto_selected {
            ConnectRequest::ReceiveData
        } else {
            ConnectRequest::HandlePathEvents { migrated: self.migrated }
        };
    }

    /// Takes the answer to the pending request.
    pub fn advance(&mut self, reply: ConnectReply)
        requires
            old(self).accepts(reply),
        ensures
            *final(self) == old(self).next(reply),
    {
        match (self.request, reply) {
            (ConnectRequest::IsInEarlyData, ConnectReply::Flag(early)) => {
                self.request = if !early || self.app_proto_selected {
                    ConnectRequest::Poll
                } else {
                    ConnectRequest::CountEvents
                };
            },
            (ConnectRequest::Poll, _) => {
                self.request = ConnectRequest::CountEvents;
            },
            (ConnectRequest::CountEvents, ConnectReply::Count(n)) => {
                self.request = if n == 0 {
                    ConnectRequest::OnTimeout
                } else {
                    ConnectRequest::ReadSockets { nb_events: n }
                };
            },
            (ConnectRequest::OnTimeout, _) => {
                self.request = ConnectRequest::IsClosed { after_sending: false };
            },
            (ConnectRequest::ReadSockets { .. }, ConnectReply::Flag(ok)) => {
                self.request = if ok {
                    ConnectRequest::IsClosed { after_sending: false }
                } else {
                    ConnectRequest::Fail { failure: ConnectFailure::Recv }
                };
            },
            (ConnectRequest::IsClosed { after_sending }, ConnectReply::Flag(closed)) => {
                if closed {
                    self.request = ConnectRequest::IsEstablished;
                } else if after_sending {
                    self.request = ConnectRequest::IsInEarlyData;
                } else if (!self.perform_migration || self.migrated) && !self.app_proto_selected {
                    self.request = ConnectRequest::CanStart;
                } else {
                    self.go_transfer();
                }
            },
            (ConnectRequest::IsEstablished, ConnectReply::Flag(established)) => {
                if !established {
                    self.request = ConnectRequest::Fail { failure: ConnectFailure::Handshake };
                } else if self.session_file {
                    self.request = ConnectRequest::SaveSession;
                } else {
                    self.go_settle();
                }
            },
            (ConnectRequest::SaveSession, _) => {
                self.go_settle();
            },
            (ConnectRequest::ReportIncomplete, ConnectReply::Flag(incomplete)) => {
                self.request = if incomplete {
                    ConnectRequest::Fail { failure: ConnectFailure::Incomplete }
                } else {
                    ConnectRequest::Return
                };
            },
            (ConnectRequest::CanStart, ConnectReply::Flag(ready)) => {
                if ready {
                    self.request = ConnectRequest::CheckProtocol;
                } else {
                    self.go_transfer();
                }
            },
            (ConnectRequest::CheckProtocol, ConnectReply::Flag(ours)) => {
                self.request = if ours {
                    ConnectRequest::CreateTransfer
                } else {
                    ConnectRequest::Close { cause: CloseCause::WrongProtocol }
                };
            },
            (ConnectRequest::CreateTransfer, _) => {
                self.app_proto_selected = true;
                self.go_transfer();
            },
            (ConnectRequest::ReceiveData, ConnectReply::Flag(complete)) => {
                self.request = if complete {
                    ConnectRequest::Close { cause: CloseCause::Complete }
                } else {
                    ConnectRequest::HandlePathEvents { migrated: self.migrated }
                };
            },
            (ConnectRequest::Close { .. }, _) => {
                self.request = ConnectRequest::HandlePathEvents { migrated: self.migrated };
            },
            (ConnectRequest::HandlePathEvents { .. }, ConnectReply::Migrated(migrated)) => {
                self.migrated = migrated;
                self.request = ConnectRequest::Upkeep;
            },
            (ConnectRequest::Upkeep, _) => {
                self.request = ConnectRequest::Send;
            },
            (ConnectRequest::Send, ConnectReply::Flag(ok)) => {
                self.request = if ok {
                    ConnectRequest::IsClosed { after_sending: true }
                } else {
                    ConnectRequest::Fail { failure: ConnectFailure::Send }
                };
            },
            _ => {},
        }
    }
}

impl ConnectLoop {
    /// What each pending request tells about the client.
    pub open spec fn coherent(self) -> bool {
        let may_start = !self.perform_migration || self.migrated;
        &&& self.app_proto_selected ==> may_start
        &&& match self.request {
            ConnectRequest::CanStart | ConnectRequest::CheckProtocol
            | ConnectRequest::CreateTransfer => may_start && !self.app_proto_selected,
            ConnectRequest::ReceiveData | ConnectRequest::ReportIncomplete => self.app_proto_selected,
            ConnectRequest::Close { cause } => {
                &&& cause == CloseCause::Complete <==> self.app_proto_selected
                &&& cause == CloseCause::WrongProtocol <==> !self.app_proto_selected
            },
            ConnectRequest::HandlePathEvents { migrated } => migrated == self.migrated,
            ConnectRequest::SaveSession => self.session_file,
            ConnectRequest::ReadSockets { nb_events } => nb_events > 0,
            _ => true,
        }
    }
}

/// A client is coherent in every state of every run: the transfer is created
/// only after the migration if there is to be one, and the connection is closed
/// with the cause that applies.
pub proof fn clients_stay_coherent(
    perform_migration: bool,
    session_file: bool,
    replies: Seq<ConnectReply>,
)
    requires
        crate::machine::admits(ConnectLoop::start(perform_migration, session_file), replies),
    ensures
        ({
            let m = crate::machine::run(
                ConnectLoop::start(perform_migration, session_file),
                replies,
            );
            &&& m.coherent()
            &&& m.perform_migration == perform_migration
            &&& m.session_file == session_file
        }),
{
    let inv = |m: ConnectLoop|
        m.coherent() && m.perform_migration == perform_migration && m.session_file == session_file;
    crate::machine::invariant_holds(
        ConnectLoop::start(perform_migration, session_file),
        replies,
        inv,
    );
}

/// The transfer is created at most once.
pub proof fn transfer_is_created_once(
    perform_migration: bool,
    session_file: bool,
    replies: Seq<ConnectReply>,
)
    requires
        crate::machine::admits(ConnectLoop::start(perform_migration, session_file), replies),
    ensures
        crate::machine::visits(
            ConnectLoop::start(perform_migration, session_file),
            replies,
            |m: ConnectLoop| m.request is CreateTransfer,
        ) <= 1,
{
    crate::machine::happens_at_most_once(
        ConnectLoop::start(perform_migration, session_file),
        replies,
        |m: ConnectLoop| m.coherent(),
        |m: ConnectLoop| m.request is CreateTransfer,
        |m: ConnectLoop| m.app_proto_selected,
    );
}

/// The transfer is created only once the handshake is complete or early data
/// can be sent, and only if the peer selected the protocol of the client.
pub proof fn transfer_waits_for_the_handshake(
    perform_migration: bool,
    session_file: bool,
    replies: Seq<ConnectReply>,
)
    requires
        crate::machine::admits(ConnectLoop::start(perform_migration, session_file), replies),
        crate::machine::run(
            ConnectLoop::start(perform_migration, session_file),
            replies,
        ).request is CreateTransfer,
    ensures
        ({
            let start = ConnectLoop::start(perform_migration, session_file);
            let n = replies.len();
            &&& n >= 2
            &&& crate::machine::run(start, replies.take(n - 2)).request is CanStart
            &&& replies[n - 2] == ConnectReply::Flag(true)
            &&& crate::machine::run(start, replies.take(n - 1)).request is CheckProtocol
            &&& replies[n - 1] == ConnectReply::Flag(true)
        }),
{
    let start = ConnectLoop::start(perform_migration, session_file);
    let n = replies.len();
    assert(replies.drop_last() =~= replies.take(n - 1));
    assert(crate::machine::run(start, replies.take(n - 1)).request is CheckProtocol);
    assert(replies.take(n - 1).drop_last() =~= replies.take(n - 2));
}

/// A client ends well only with a connection that was established and then
/// closed, and a transfer, if there was one, that is complete. The session was
/// saved if there is a file for it.
pub proof fn success_means_closed_and_complete(
    perform_migration: bool,
    session_file: bool,
    replies: Seq<ConnectReply>,
)
    requires
        crate::machine::admits(ConnectLoop::start(perform_migration, session_file), replies),
        crate::machine::run(
            ConnectLoop::start(perform_migration, session_file),
            replies,
        ).request is Return,
    ensures
        ({
            let start = ConnectLoop::start(perform_migration, session_file);
            let m = crate::machine::run(start, replies);
            &&& crate::machine::reaches(start, replies, |m: ConnectLoop| m.request is IsEstablished)
            &&& session_file ==> crate::machine::reaches(
                start,
                replies,
                |m: ConnectLoop| m.request is SaveSession,
            )
            &&& m.app_proto_selected ==> {
                &&& crate::machine::run(start, replies.drop_last()).request is ReportIncomplete
                &&& replies.last() == ConnectReply::Flag(false)
            }
        }),
{
    lemma_wound_up(perform_migration, session_file, replies);
}

proof fn lemma_wound_up(
    perform_migration: bool,
    session_file: bool,
    replies: Seq<ConnectReply>,
)
    requires
        crate::machine::admits(ConnectLoop::start(perform_migration, session_file), replies),
    ensures
        ({
            let start = ConnectLoop::start(perform_migration, session_file);
            let m = crate::machine::run(start, replies);
            &&& m.session_file == session_file
            &&& m.request is SaveSession || m.request is ReportIncomplete || m.request is Return
                ==> crate::machine::reaches(
                start,
                replies,
                |m: ConnectLoop| m.request is IsEstablished,
            )
            &&& session_file && (m.request is ReportIncomplete || m.request is Return)
                ==> crate::machine::reaches(
                start,
                replies,
                |m: ConnectLoop| m.request is SaveSession,
            )
            &&& m.request is Return && m.app_proto_selected ==> {
                &&& crate::machine::run(start, replies.drop_last()).request is ReportIncomplete
                &&& replies.last() == ConnectReply::Flag(false)
            }
        }),
    decreases replies.len(),
{
    reveal_with_fuel(crate::machine::reaches, 2);
    if replies.len() > 0 {
        lemma_wound_up(perform_migration, session_file, replies.drop_last());
    }
}

/// Each failure of a client has its own cause: what was asked for last, and
/// what came back.
pub proof fn failures_have_their_causes(
    perform_migration: bool,
    session_file: bool,
    replies: Seq<ConnectReply>,
    failure: ConnectFailure,
)
    requires
        crate::machine::admits(ConnectLoop::start(perform_migration, session_file), replies),
    ensures
        ({
            let start = ConnectLoop::start(perform_migration, session_file);
            let m = crate::machine::run(start, replies);
            let asked = crate::machine::run(start, replies.drop_last()).request;
            m.request == (ConnectRequest::Fail { failure }) <==> replies.len() > 0 && match failure {
                ConnectFailure::Recv => asked is ReadSockets && replies.last()
                    == ConnectReply::Flag(false),
                ConnectFailure::Send => asked is Send && replies.last() == ConnectReply::Flag(
                    false,
                ),
                ConnectFailure::Handshake => asked is IsEstablished && replies.last()
                    == ConnectReply::Flag(false),
                ConnectFailure::Incomplete => asked is ReportIncomplete && replies.last()
                    == ConnectReply::Flag(true),
            }
        }),
{
}

/// What handling the path events comes to is an answer to the client that asked
/// for it.
pub proof fn migration_outcomes_are_accepted(
    m: ConnectLoop,
    replies: Seq<crate::path_events::PathEventReply>,
)
    requires
        m.request is HandlePathEvents,
        crate::machine::admits(
            crate::path_events::ClientPathEvents::start(m.perform_migration, m.migrated),
            replies,
        ),
        crate::machine::run(
            crate::path_events::ClientPathEvents::start(m.perform_migration, m.migrated),
            replies,
        ).ended() is Some,
    ensures
        m.accepts(
            ConnectReply::Migrated(
                crate::machine::run(
                    crate::path_events::ClientPathEvents::start(m.perform_migration, m.migrated),
                    replies,
                ).ended()->0,
            ),
        ),
{
    crate::path_events::client_acts_on_validated_paths(m.perform_migration, m.migrated, replies);
}

impl ConnectLoop {
    /// The transfer was created.
    pub open spec fn transfer_created() -> spec_fn(ConnectLoop, ConnectReply) -> bool {
        |m: ConnectLoop, reply: ConnectReply| m.request is CreateTransfer
    }

    /// Whether the connection has migrated, as the handling of the path events tells.
    pub open spec fn told_migrated() -> spec_fn(ConnectLoop, ConnectReply) -> Option<bool> {
        |m: ConnectLoop, reply: ConnectReply|
            match (m.request, reply) {
                (ConnectRequest::HandlePathEvents { .. }, ConnectReply::Migrated(told)) => Some(
                    told,
                ),
                _ => None,
            }
    }
}

/// What a client holds is what it was told: that the transfer was created, and
/// whether the connection has migrated.
pub proof fn clients_know_what_they_were_told(
    perform_migration: bool,
    session_file: bool,
    replies: Seq<ConnectReply>,
)
    requires
        crate::machine::admits(ConnectLoop::start(perform_migration, session_file), replies),
    ensures
        ({
            let start = ConnectLoop::start(perform_migration, session_file);
            let m = crate::machine::run(start, replies);
            &&& m.perform_migration == perform_migration
            &&& m.session_file == session_file
            &&& m.app_proto_selected <==> crate::machine::answered(
                start,
                replies,
                ConnectLoop::transfer_created(),
            )
            &&& m.migrated == crate::machine::told_or(
                crate::machine::latest(start, replies, ConnectLoop::told_migrated()),
                false,
            )
        }),
    decreases replies.len(),
{
    if replies.len() > 0 {
        clients_know_what_they_were_told(perform_migration, session_file, replies.drop_last());
    }
}

/// A round of a client: it waits, unless early data can be sent before there is a
/// transfer, and reads or times out. Unless the connection is closed it then receives
/// data if there is a transfer, or else creates one as soon as it may. It closes the
/// connection when all data has come in or the protocol is the wrong one, handles the
/// path events, does the upkeep and sends.
pub proof fn client_rounds_go_in_order(
    perform_migration: bool,
    session_file: bool,
    replies: Seq<ConnectReply>,
)
    requires
        crate::machine::admits(ConnectLoop::start(perform_migration, session_file), replies),
    ensures
        ({
            let start = ConnectLoop::start(perform_migration, session_file);
            let asked = crate::machine::run(start, replies.drop_last()).request;
            let last = replies.last();
            let yes = last == ConnectReply::Flag(true);
            let next = crate::machine::run(start, replies).request;
            let created = crate::machine::answered(
                start,
                replies,
                ConnectLoop::transfer_created(),
            );
            let migrated = crate::machine::told_or(
                crate::machine::latest(start, replies, ConnectLoop::told_migrated()),
                false,
            );
            let path_events = ConnectRequest::HandlePathEvents { migrated };
            &&& replies.len() == 0 ==> next == ConnectRequest::IsInEarlyData
            &&& replies.len() > 0 ==> {
                &&& asked is IsInEarlyData ==> next == if yes && !created {
                    ConnectRequest::CountEvents
                } else {
                    ConnectRequest::Poll
                }
                &&& asked is Poll ==> next == ConnectRequest::CountEvents
                &&& asked is CountEvents ==> next == if last == ConnectReply::Count(0) {
                    ConnectRequest::OnTimeout
                } else {
                    ConnectRequest::ReadSockets { nb_events: last->Count_0 }
                }
                &&& asked is OnTimeout ==> next == (ConnectRequest::IsClosed {
                    after_sending: false,
                })
                &&& asked is ReadSockets ==> next == if yes {
                    ConnectRequest::IsClosed { after_sending: false }
                } else {
                    ConnectRequest::Fail { failure: ConnectFailure::Recv }
                }
                &&& asked is IsClosed && yes ==> next == ConnectRequest::IsEstablished
                &&& asked == (ConnectRequest::IsClosed { after_sending: false }) && !yes ==> next
                    == if created {
                    ConnectRequest::ReceiveData
                } else if perform_migration && !migrated {
                    path_events
                } else {
                    ConnectRequest::CanStart
                }
                &&& asked == (ConnectRequest::IsClosed { after_sending: true }) && !yes ==> next
                    == ConnectRequest::IsInEarlyData
                &&& asked is CanStart ==> next == if yes {
                    ConnectRequest::CheckProtocol
                } else {
                    path_events
                }
                &&& asked is CheckProtocol ==> next == if yes {
                    ConnectRequest::CreateTransfer
                } else {
                    ConnectRequest::Close { cause: CloseCause::WrongProtocol }
                }
                &&& asked is CreateTransfer ==> next == ConnectRequest::ReceiveData
                &&& asked is ReceiveData ==> next == if yes {
                    ConnectRequest::Close { cause: CloseCause::Complete }
                } else {
                    path_events
                }
                &&& asked is Close ==> next == path_events
                &&& asked is HandlePathEvents ==> next == ConnectRequest::Upkeep
                &&& asked is Upkeep ==> next == ConnectRequest::Send
                &&& asked is Send ==> next == if yes {
                    ConnectRequest::IsClosed { after_sending: true }
                } else {
                    ConnectRequest::Fail { failure: ConnectFailure::Send }
                }
            }
        }),
{
    clients_know_what_they_were_told(perform_migration, session_file, replies);
    if replies.len() > 0 {
        clients_know_what_they_were_told(perform_migration, session_file, replies.drop_last());
        clients_stay_coherent(perform_migration, session_file, replies.drop_last());
    }
}

/// How a client ends once the connection is closed. It fails if the connection was not
/// established. Else it saves the session if there is a file for it, and it succeeds
/// unless there is a transfer that is incomplete.
pub proof fn clients_end_in_order(
    perform_migration: bool,
    session_file: bool,
    replies: Seq<ConnectReply>,
)
    requires
        crate::machine::admits(ConnectLoop::start(perform_migration, session_file), replies),
        replies.len() > 0,
    ensures
        ({
            let start = ConnectLoop::start(perform_migration, session_file);
            let asked = crate::machine::run(start, replies.drop_last()).request;
            let yes = replies.last() == ConnectReply::Flag(true);
            let next = crate::machine::run(start, replies).request;
            let created = crate::machine::answered(
                start,
                replies,
                ConnectLoop::transfer_created(),
            );
            let saved = asked is SaveSession || (asked is IsEstablished && yes && !session_file);
            &&& asked is IsEstablished && !yes ==> next == (ConnectRequest::Fail {
                failure: ConnectFailure::Handshake,
            })
            &&& asked is IsEstablished && yes && session_file ==> next
                == ConnectRequest::SaveSession
            &&& saved && created ==> next == ConnectRequest::ReportIncomplete
            &&& saved && !created ==> next == ConnectRequest::Return
            &&& asked is ReportIncomplete ==> next == if yes {
                ConnectRequest::Fail { failure: ConnectFailure::Incomplete }
            } else {
                ConnectRequest::Return
            }
        }),
{
    clients_know_what_they_were_told(perform_migration, session_file, replies);
    clients_know_what_they_were_told(perform_migration, session_file, replies.drop_last());
}

/// The sockets have their turns, and each is read from until it blocks. What comes in is
/// dumped if dumps are asked for, and fed to the connection. A socket that fails ends the
/// reading.
pub proof fn sockets_are_read_in_order(
    nb_events: usize,
    buf_len: usize,
    dump: bool,
    pkt_count: u32,
    replies: Seq<EventsReply>,
)
    requires
        crate::machine::admits(SocketEvents::start(nb_events, buf_len, dump, pkt_count), replies),
        pkt_count <= MAX_PACKET_COUNT,
    ensures
        ({
            let start = SocketEvents::start(nb_events, buf_len, dump, pkt_count);
            let before = crate::machine::run(start, replies.drop_last());
            let last = replies.last();
            let m = crate::machine::run(start, replies);
            let next = m.request;
            &&& m.ended() == match next {
                EventsRequest::Return => Some(true),
                EventsRequest::Fail => Some(false),
                _ => None,
            }
            &&& replies.len() == 0 ==> next == if nb_events > 0 {
                EventsRequest::RecvFrom { event: 0 }
            } else {
                EventsRequest::Return
            }
            &&& replies.len() > 0 ==> {
                &&& before.request matches EventsRequest::RecvFrom { event } ==> {
                    &&& last matches EventsReply::Socket(SocketRecv::Received { len, from })
                        ==> next == if dump {
                        EventsRequest::DumpPacket { event, number: before.pkt_count, len, from }
                    } else {
                        EventsRequest::ConnRecv { event, len, from }
                    }
                    &&& last == EventsReply::Socket(SocketRecv::WouldBlock) ==> next == if event + 1
                        < nb_events {
                        EventsRequest::RecvFrom { event: (event + 1) as usize }
                    } else {
                        EventsRequest::Return
                    }
                    &&& last == EventsReply::Socket(SocketRecv::Failed) ==> next
                        == EventsRequest::Fail
                }
                &&& before.request matches EventsRequest::DumpPacket { event, len, from, .. }
                    ==> next == (EventsRequest::ConnRecv { event, len, from })
                &&& before.request matches EventsRequest::ConnRecv { event, .. } ==> next
                    == (EventsRequest::RecvFrom { event })
            }
        }),
{
    datagrams_are_numbered(nb_events, buf_len, dump, pkt_count, replies);
    if replies.len() > 0 {
        datagrams_are_numbered(nb_events, buf_len, dump, pkt_count, replies.drop_last());
    }
}

/// Every answer of the right kind is taken, whatever it says, and none of another kind. A
/// connection that has migrated stays so, and a datagram must fit the buffer and the count.
pub proof fn clients_take_every_answer(
    m: ConnectLoop,
    reply: ConnectReply,
    events: SocketEvents,
    got: EventsReply,
)
    ensures
        m.request is IsInEarlyData || m.request is ReadSockets || m.request is IsClosed || m.request
            is IsEstablished || m.request is ReportIncomplete || m.request is CanStart || m.request
            is CheckProtocol || m.request is ReceiveData || m.request is Send ==> (m.accepts(reply)
            <==> reply is Flag),
        m.request is Poll || m.request is OnTimeout || m.request is SaveSession || m.request
            is CreateTransfer || m.request is Close || m.request is Upkeep ==> (m.accepts(reply)
            <==> reply is Done),
        m.request is CountEvents ==> (m.accepts(reply) <==> reply is Count),
        m.request is HandlePathEvents ==> (m.accepts(reply) <==> reply is Migrated && !(m.migrated
            && reply == ConnectReply::Migrated(false))),
        m.request is Return || m.request is Fail ==> !m.accepts(reply),
        events.request is RecvFrom ==> (events.accepts(got) <==> match got {
            EventsReply::Socket(SocketRecv::Received { len, .. }) => len <= events.buf_len
                && events.pkt_count < 0x7fff_ffff,
            EventsReply::Socket(_) => true,
            _ => false,
        }),
        events.request is DumpPacket || events.request is ConnRecv ==> (events.accepts(got) <==> got
            is Done),
        events.request is Return || events.request is Fail ==> !events.accepts(got),
{
}

} // verus!
