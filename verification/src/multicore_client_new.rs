//! The client of one thread for the connection and one for each socket.

use crate::addr::{paths_to, pick_family, pick_first, SocketAddr};
use crate::args::ClientArgs;
use crate::client::{ConnectFailure, MAX_PACKET_COUNT};
use crate::machine::Machine;
use crate::transport::{Outgoing, SocketRecv, SocketSend, MAX_DATAGRAM_SIZE};
use vstd::prelude::*;

verus! {

/// The two ends of the path that a packet came on.
#[derive(Clone, Copy, Debug, PartialEq, Eq, Structural)]
pub struct RecvInfo {
    pub from: SocketAddr,
    pub to: SocketAddr,
}

/// A packet on its way from the thread of a socket to that of the connection.
/// It is the first `len` bytes of the buffer.
#[derive(Debug)]
pub struct MRcvPacketInfo<P> {
    pub local_addr: SocketAddr,
    pub len: usize,
    pub rcv_info: RecvInfo,
    pub pckt: P,
}

/// A packet on its way from the thread of the connection to that of a socket.
/// It is the first `len` bytes of the buffer.
#[derive(Debug)]
pub struct MSndPacketInfo<P> {
    pub peer_addr: SocketAddr,
    pub len: usize,
    pub pkt: P,
}

/// Wraps up a packet that came from `from` to the socket of `local_addr`.
pub fn received_packet<P>(local_addr: SocketAddr, from: SocketAddr, len: usize, pckt: P) -> (r:
    MRcvPacketInfo<P>)
    ensures
        r == (MRcvPacketInfo {
            local_addr,
            len,
            rcv_info: RecvInfo { from, to: local_addr },
            pckt,
        }),
{
    MRcvPacketInfo { local_addr, len, rcv_info: RecvInfo { from, to: local_addr }, pckt }
}

/// Wraps up a packet of `len` bytes for the peer of the path that it goes on.
pub fn outgoing_packet<P>(path: &(SocketAddr, SocketAddr), len: usize, pkt: P) -> (r:
    MSndPacketInfo<P>)
    ensures
        r == (MSndPacketInfo { peer_addr: path.1, len, pkt }),
{
    MSndPacketInfo { peer_addr: path.1, len, pkt }
}

/// What the thread of a socket takes of a packet: how much of it to send, and
/// where to.
pub fn addressed<P>(packet: &MSndPacketInfo<P>) -> (r: Outgoing)
    ensures
        r == (Outgoing { len: packet.len, to: packet.peer_addr }),
{
    Outgoing { len: packet.len, to: packet.peer_addr }
}

/// The pairs of local and peer address that a client can use: each local
/// address of the IP version of the peer leads to it.
pub open spec fn client_pairs(peer: SocketAddr, addrs: Seq<SocketAddr>) -> Seq<
    (SocketAddr, SocketAddr),
> {
    crate::addr::all_to(crate::addr::of_family(addrs, peer), peer)
}

/// Pairs each local address that can reach the peer with it, and picks the
/// local address that the connection starts from.
pub fn multicore_prepare_addresses(peer_addr: &SocketAddr, args: &ClientArgs) -> (r: (
    Vec<(SocketAddr, SocketAddr)>,
    SocketAddr,
))
    ensures
        r.0@ == client_pairs(*peer_addr, args.addrs@),
        r.1 == crate::addr::first_local(*peer_addr, args.addrs@),
{
    let locals = pick_family(&args.addrs, peer_addr);
    (paths_to(&locals, peer_addr), pick_first(&args.addrs, peer_addr))
}

/// The thread of a socket: the two ends of the path that it serves, and the
/// position of the core that it runs on.
#[derive(Clone, Copy, Debug, PartialEq, Eq, Structural)]
pub struct SocketPlan {
    pub local: SocketAddr,
    pub peer: SocketAddr,
    pub core: usize,
}

/// The threads of the sockets run on the cores in order.
pub open spec fn socket_plans(tuples: Seq<(SocketAddr, SocketAddr)>) -> Seq<SocketPlan> {
    Seq::new(
        tuples.len(),
        |i: int| SocketPlan { local: tuples[i].0, peer: tuples[i].1, core: i as usize },
    )
}

/// Assigns a core to the thread of each socket, or gives up where there are too
/// few cores.
pub fn plan_socket_threads(tuples: &Vec<(SocketAddr, SocketAddr)>, nb_cores: usize) -> (r: Option<
    Vec<SocketPlan>,
>)
    ensures
        match r {
            Some(plans) => tuples@.len() <= nb_cores && plans@ == socket_plans(tuples@),
            None => tuples@.len() > nb_cores,
        },
{
    if tuples.len() > nb_cores {
        return None;
    }
    let mut plans: Vec<SocketPlan> = Vec::new();
    for i in 0..tuples.len()
        invariant
            plans@ =~= socket_plans(tuples@).take(i as int),
    {
        let (local, peer) = tuples[i];
        plans.push(SocketPlan { local, peer, core: i });
    }
    Some(plans)
}

/// There is one thread for each pair, and each has a core of its own.
pub proof fn socket_threads_have_their_own_cores(
    tuples: Seq<(SocketAddr, SocketAddr)>,
    nb_cores: usize,
)
    requires
        tuples.len() <= nb_cores,
    ensures
        ({
            let plans = socket_plans(tuples);
            &&& plans.len() == tuples.len()
            &&& forall|i: int|
                0 <= i < plans.len() ==> {
                    &&& ((#[trigger] plans[i]).local, plans[i].peer) == tuples[i]
                    &&& plans[i].core < nb_cores
                }
            &&& forall|i: int, j: int|
                0 <= i < j < plans.len() ==> plans[i].core != plans[j].core
        }),
{
}

/// The last position of a pair.
pub open spec fn is_last_position(
    tuples: Seq<(SocketAddr, SocketAddr)>,
    pair: (SocketAddr, SocketAddr),
    at: int,
) -> bool {
    &&& 0 <= at < tuples.len()
    &&& tuples[at] == pair
    &&& forall|i: int| at < i < tuples.len() ==> tuples[i] != pair
}

/// Finds the thread that serves the path from `local` to `peer`. Of two
/// threads for one pair the later one serves it.
pub fn thread_of_path(
    tuples: &Vec<(SocketAddr, SocketAddr)>,
    local: &SocketAddr,
    peer: &SocketAddr,
) -> (r: Option<usize>)
    ensures
        match r {
            Some(at) => is_last_position(tuples@, (*local, *peer), at as int),
            None => !tuples@.contains((*local, *peer)),
        },
{
    let mut i: usize = tuples.len();
    while i > 0
        invariant
            i <= tuples@.len(),
            forall|j: int| i <= j < tuples@.len() ==> #[trigger] tuples@[j] != (*local, *peer),
        decreases i,
    {
        i = i - 1;
        let (src, dst) = tuples[i];
        if src == *local && dst == *peer {
            return Some(i);
        }
    }
    None
}

/// What the thread of a socket asks for.
#[derive(Clone, Copy, Debug, PartialEq, Eq, Structural)]
pub enum RelayRequest {
    /// Count the readiness events, without waiting.
    Poll,
    /// Read a datagram from the socket.
    RecvFrom { event: usize },
    /// Pass the datagram on to the thread of the connection.
    PassOn { event: usize, len: usize, from: SocketAddr },
    /// Take a packet from the thread of the connection, if there is one.
    TakeOutgoing,
    /// Hand the packet of `len` bytes to the socket, for `to`.
    SendTo { len: usize, to: SocketAddr },
    /// Reading from the socket failed.
    FailRecv,
    /// Writing to the socket failed.
    FailSend,
}

/// The answers to a `RelayRequest`.
#[derive(Clone, Copy, Debug, PartialEq, Eq, Structural)]
pub enum RelayReply {
    /// A number of events.
    Count(usize),
    Recv(SocketRecv),
    /// The request was carried out, or its failure does not matter.
    Done,
    /// The length and the destination of the packet, if there is one.
    Outgoing(Option<Outgoing>),
    Send(SocketSend),
}

/// The thread of a socket. It passes on what it receives, and sends what it is
/// given. A socket that would block ends it.
#[derive(Clone, Copy, Debug, PartialEq, Eq, Structural)]
pub struct RelayThread {
    pub nb_events: usize,
    pub request: RelayRequest,
}

impl RelayThread {
    pub open spec fn with(self, request: RelayRequest) -> RelayThread {
        RelayThread { request, ..self }
    }

    /// Turns to the event at `event`, or to what is to be sent.
    pub open spec fn turn_to(self, event: int) -> RelayThread {
        if event < self.nb_events {
            self.with(RelayRequest::RecvFrom { event: event as usize })
        } else {
            self.with(RelayRequest::TakeOutgoing)
        }
    }

    /// The packet that is being handed to the socket, if one is.
    pub open spec fn datagram() -> spec_fn(RelayThread) -> Option<Outgoing> {
        |m: RelayThread|
            match m.request {
                RelayRequest::SendTo { len, to } => Some(Outgoing { len, to }),
                _ => None,
            }
    }

    /// The datagram that is being passed on, if one is.
    pub open spec fn passed() -> spec_fn(RelayThread) -> Option<(usize, SocketAddr)> {
        |m: RelayThread|
            match m.request {
                RelayRequest::PassOn { len, from, .. } => Some((len, from)),
                _ => None,
            }
    }

    /// The state in which a thread starts.
    pub open spec fn start() -> RelayThread {
        RelayThread { nb_events: 0, request: RelayRequest::Poll }
    }

    /// The pending request is about one of the events and fits a packet.
    pub open spec fn well_formed(self) -> bool {
        match self.request {
            RelayRequest::RecvFrom { event } => event < self.nb_events,
            RelayRequest::PassOn { event, len, .. } => event < self.nb_events && len
                <= MAX_DATAGRAM_SIZE,
            RelayRequest::SendTo { len, .. } => len <= MAX_DATAGRAM_SIZE,
            _ => true,
        }
    }
}

impl Machine for RelayThread {
    type Reply = RelayReply;

    open spec fn accepts(self, reply: RelayReply) -> bool {
        match self.request {
            RelayRequest::Poll => reply is Count,
            RelayRequest::RecvFrom { .. } => reply matches RelayReply::Recv(received) && (received
                matches SocketRecv::Received { len, .. } ==> len <= MAX_DATAGRAM_SIZE),
            RelayRequest::PassOn { .. } => reply is Done,
            RelayRequest::TakeOutgoing => reply matches RelayReply::Outgoing(packet) && (packet
                matches Some(p) ==> p.len <= MAX_DATAGRAM_SIZE),
            RelayRequest::SendTo { .. } => reply is Send,
            RelayRequest::FailRecv | RelayRequest::FailSend => false,
        }
    }

    open spec fn next(self, reply: RelayReply) -> RelayThread {
        match (self.request, reply) {
            (RelayRequest::Poll, RelayReply::Count(n)) => RelayThread {
                nb_events: n,
                ..self
            }.turn_to(0),
            (
                RelayRequest::RecvFrom { event },
                RelayReply::Recv(SocketRecv::Received { len, from }),
            ) => self.with(RelayRequest::PassOn { event, len, from }),
            (RelayRequest::RecvFrom { event }, RelayReply::Recv(SocketRecv::WouldBlock)) => self.turn_to(
                event + 1,
            ),
            (RelayRequest::RecvFrom { .. }, _) => self.with(RelayRequest::FailRecv),
            (RelayRequest::PassOn { event, .. }, _) => self.turn_to(event as int),
            (RelayRequest::TakeOutgoing, RelayReply::Outgoing(Some(p))) => self.with(
                RelayRequest::SendTo { len: p.len, to: p.to },
            ),
            (RelayRequest::TakeOutgoing, _) => self.with(RelayRequest::Poll),
            (RelayRequest::SendTo { .. }, RelayReply::Send(SocketSend::Sent)) => self.with(
                RelayRequest::Poll,
            ),
            (RelayRequest::SendTo { .. }, _) => self.with(RelayRequest::FailSend),
            _ => self,
        }
    }
}

impl RelayThread {
    pub fn new() -> (r: RelayThread)
        ensures
            r == RelayThread::start(),
            r.well_formed(),
    {
        RelayThread { nb_events: 0, request: RelayRequest::Poll }
    }

    /// Tells whether `reply` answers the pending request.
    pub fn expects(&self, reply: &RelayReply) -> (r: bool)
        ensures
            r == self.accepts(*reply),
    {
        match (self.request, reply) {
            (RelayRequest::Poll, RelayReply::Count(_)) => true,
            (
                RelayRequest::RecvFrom { .. },
                RelayReply::Recv(SocketRecv::Received { len, .. }),
            ) => *len <= MAX_DATAGRAM_SIZE,
            (RelayRequest::RecvFrom { .. }, RelayReply::Recv(_)) => true,
            (RelayRequest::PassOn { .. }, RelayReply::Done) => true,
            (RelayRequest::TakeOutgoing, RelayReply::Outgoing(Some(p))) => p.len
                <= MAX_DATAGRAM_SIZE,
            (RelayRequest::TakeOutgoing, RelayReply::Outgoing(None)) => true,
            (RelayRequest::SendTo { .. }, RelayReply::Send(_)) => true,
            _ => false,
        }
    }

    /// Takes the answer to the pending request.
    pub fn advance(&mut self, reply: RelayReply)
        requires
            old(self).accepts(reply),
            old(self).well_formed(),
        ensures
            *final(self) == old(self).next(reply),
            final(self).well_formed(),
    {
        match (self.request, reply) {
            (RelayRequest::Poll, RelayReply::Count(n)) => {
                self.nb_events = n;
                self.request = if 0 < n {
                    RelayRequest::RecvFrom { event: 0 }
                } else {
                    RelayRequest::TakeOutgoing
                };
            },
            (RelayRequest::RecvFrom { event }, RelayReply::Recv(received)) => {
                self.request = match received {
                    SocketRecv::Received { len, from } => RelayRequest::PassOn { event, len, from },
                    SocketRecv::WouldBlock => if event + 1 < self.nb_events {
                        RelayRequest::RecvFrom { event: event + 1 }
                    } else {
                        RelayRequest::TakeOutgoing
                    },
                    SocketRecv::Failed => RelayRequest::FailRecv,
                };
            },
            (RelayRequest::PassOn { event, .. }, _) => {
                self.request = RelayRequest::RecvFrom { event };
            },
            (RelayRequest::TakeOutgoing, RelayReply::Outgoing(packet)) => {
                self.request = match packet {
                    Some(p) => RelayRequest::SendTo { len: p.len, to: p.to },
                    None => RelayRequest::Poll,
                };
            },
            (RelayRequest::SendTo { .. }, RelayReply::Send(sent)) => {
                self.request = match sent {
                    SocketSend::Sent => RelayRequest::Poll,
                    SocketSend::WouldBlock | SocketSend::Failed => RelayRequest::FailSend,
                };
            },
            _ => {},
        }
    }
}

/// What led to the state that the thread of a socket is in: it passes on the
/// datagram that came last, sends the packet that it was given last, and fails
/// when the socket fails to receive or does not take a packet.
pub proof fn relay_follows_its_replies(replies: Seq<RelayReply>)
    requires
        crate::machine::admits(RelayThread::start(), replies),
    ensures
        ({
            let m = crate::machine::run(RelayThread::start(), replies);
            let last = replies.last();
            let begun = replies.len() > 0;
            &&& m.well_formed()
            &&& m.request matches RelayRequest::PassOn { len, from, .. } ==> begun && last
                == RelayReply::Recv(SocketRecv::Received { len, from })
            &&& m.request matches RelayRequest::SendTo { len, to } ==> begun && last
                == RelayReply::Outgoing(Some(Outgoing { len, to }))
            &&& m.request is FailRecv <==> begun && last == RelayReply::Recv(SocketRecv::Failed)
            &&& m.request is FailSend <==> begun && last is Send && last != RelayReply::Send(
                SocketSend::Sent,
            )
        }),
    decreases replies.len(),
{
    if replies.len() > 0 {
        relay_follows_its_replies(replies.drop_last());
    }
}

/// The packets that the thread of a socket was given, in order.
pub open spec fn given_packets(replies: Seq<RelayReply>) -> Seq<Outgoing>
    decreases replies.len(),
{
    if replies.len() == 0 {
        seq![]
    } else {
        let before = given_packets(replies.drop_last());
        match replies.last() {
            RelayReply::Outgoing(Some(p)) => before.push(p),
            _ => before,
        }
    }
}

/// The datagrams that came in on a socket, in order.
pub open spec fn received_datagrams(replies: Seq<RelayReply>) -> Seq<(usize, SocketAddr)>
    decreases replies.len(),
{
    if replies.len() == 0 {
        seq![]
    } else {
        let before = received_datagrams(replies.drop_last());
        match replies.last() {
            RelayReply::Recv(SocketRecv::Received { len, from }) => before.push((len, from)),
            _ => before,
        }
    }
}

/// The thread of a socket hands it the packets that it was given, and passes on
/// the datagrams that came in: all of them, in order, each one once.
pub proof fn relay_loses_nothing(replies: Seq<RelayReply>)
    requires
        crate::machine::admits(RelayThread::start(), replies),
    ensures
        crate::machine::issued(RelayThread::start(), replies, RelayThread::datagram())
            == given_packets(replies),
        crate::machine::issued(RelayThread::start(), replies, RelayThread::passed())
            == received_datagrams(replies),
    decreases replies.len(),
{
    if replies.len() > 0 {
        relay_loses_nothing(replies.drop_last());
    }
}

/// The application protocol that the peer selected.
#[derive(Clone, Copy, Debug, PartialEq, Eq, Structural)]
pub enum AppProtocol {
    Http09,
    Http3,
    Other,
}

/// What the thread of the connection asks for.
#[derive(Clone, Copy, Debug, PartialEq, Eq, Structural)]
pub enum ConnRequest {
    /// Find out whether the handshake is still under way while early data can
    /// be sent.
    IsInEarlyData,
    /// Take a packet from the threads of the sockets, if there is one.
    TakePacket,
    /// Write the buffer of the packet to the dump of the given number.
    DumpPacket { number: u32 },
    /// Feed the packet to the connection.
    ConnRecv,
    /// Handle the timeout of the connection.
    OnTimeout,
    /// Find out whether the connection is closed, after reading or after
    /// sending.
    IsClosed { after_sending: bool },
    /// Find out whether the connection was established.
    IsEstablished,
    /// Save the session to the session file.
    SaveSession,
    /// Find out whether responses are missing.
    ReportIncomplete,
    /// Find out whether the handshake is complete or early data can be sent.
    CanStart,
    /// Find out which protocol the peer selected.
    SelectedProtocol,
    /// Create the HTTP/0.9 session.
    CreateHttp09,
    /// Create the HTTP/3 session.
    CreateHttp3 { with_datagrams: bool },
    /// Send requests and handle responses.
    Exchange,
    /// Handle the events of the paths.
    HandlePathEvents { migrated: bool },
    /// Do the upkeep of the connection.
    Upkeep,
    /// Pass what the paths have to send to the threads of the sockets, in the
    /// order of the schedule.
    Send,
    /// The connection is over.
    Return,
    /// The client fails.
    Fail { failure: ConnectFailure },
}

/// The answers to a `ConnRequest`.
#[derive(Clone, Copy, Debug, PartialEq, Eq, Structural)]
pub enum ConnReply {
    /// The request was carried out.
    Done,
    /// The answer to a question, or the success of an attempt.
    Flag(bool),
    Protocol(AppProtocol),
    /// The connection has migrated.
    Migrated(bool),
}

/// The thread of a connection.
#[derive(Clone, Copy, Debug, PartialEq, Eq, Structural)]
pub struct ConnThread {
    pub perform_migration: bool,
    /// There is a file to save the session to.
    pub session_file: bool,
    /// Write each packet to a dump.
    pub dump: bool,
    /// Send datagrams over HTTP/3.
    pub dgrams_enabled: bool,
    /// The HTTP session was created.
    pub app_proto_selected: bool,
    pub migrated: bool,
    /// There is a packet to feed to the connection.
    pub has_packet: bool,
    /// Number of packets that were fed to the connection.
    pub pkt_count: u32,
    pub request: ConnRequest,
}

impl ConnThread {
    pub open spec fn with(self, request: ConnRequest) -> ConnThread {
        ConnThread { request, ..self }
    }

    pub open spec fn fail(self, failure: ConnectFailure) -> ConnThread {
        self.with(ConnRequest::Fail { failure })
    }

    /// Feeds the packet to the connection. Without one the timeout has
    /// expired.
    pub open spec fn process(self) -> ConnThread {
        if !self.has_packet {
            self.with(ConnRequest::OnTimeout)
        } else if self.dump {
            self.with(ConnRequest::DumpPacket { number: self.pkt_count })
        } else {
            self.feed()
        }
    }

    pub open spec fn feed(self) -> ConnThread {
        ConnThread {
            pkt_count: (self.pkt_count + 1) as u32,
            ..self.with(ConnRequest::ConnRecv)
        }
    }

    /// A session that was created must be complete.
    pub open spec fn settle(self) -> ConnThread {
        if self.app_proto_selected {
            self.with(ConnRequest::ReportIncomplete)
        } else {
            self.with(ConnRequest::Return)
        }
    }

    pub open spec fn exchange(self) -> ConnThread {
        if self.app_proto_selected {
            self.with(ConnRequest::Exchange)
        } else {
            self.path_events()
        }
    }

    pub open spec fn path_events(self) -> ConnThread {
        self.with(ConnRequest::HandlePathEvents { migrated: self.migrated })
    }

    /// The state in which the thread starts, after the first packet was sent.
    pub open spec fn start(
        perform_migration: bool,
        session_file: bool,
        dump: bool,
        dgrams_enabled: bool,
    ) -> ConnThread {
        ConnThread {
            perform_migration,
            session_file,
            dump,
            dgrams_enabled,
            app_proto_selected: false,
            migrated: false,
            has_packet: false,
            pkt_count: 0,
            request: ConnRequest::IsInEarlyData,
        }
    }

    /// A packet that is dumped can still be counted.
    pub open spec fn well_formed(self) -> bool {
        self.request matches ConnRequest::DumpPacket { number } ==> number == self.pkt_count
            < MAX_PACKET_COUNT
    }
}

impl Machine for ConnThread {
    type Reply = ConnReply;

    open spec fn accepts(self, reply: ConnReply) -> bool {
        match self.request {
            ConnRequest::IsInEarlyData => reply matches ConnReply::Flag(early) && (early
                && !self.app_proto_selected && self.has_packet ==> self.pkt_count
                < MAX_PACKET_COUNT),
            ConnRequest::TakePacket => reply matches ConnReply::Flag(taken) && (taken
                ==> self.pkt_count < MAX_PACKET_COUNT),
            ConnRequest::ConnRecv | ConnRequest::IsClosed { .. } | ConnRequest::IsEstablished
            | ConnRequest::ReportIncomplete | ConnRequest::CanStart => reply is Flag,
            ConnRequest::DumpPacket { .. } | ConnRequest::OnTimeout | ConnRequest::SaveSession
            | ConnRequest::CreateHttp09 | ConnRequest::CreateHttp3 { .. } | ConnRequest::Exchange
            | ConnRequest::Upkeep | ConnRequest::Send => reply is Done,
            ConnRequest::SelectedProtocol => reply is Protocol,
            ConnRequest::HandlePathEvents { .. } => reply matches ConnReply::Migrated(m) && (
            self.migrated ==> m),
            ConnRequest::Return | ConnRequest::Fail { .. } => false,
        }
    }

    open spec fn next(self, reply: ConnReply) -> ConnThread {
        match (self.request, reply) {
            // While early data can be sent the session is created without
            // taking another packet.
            (ConnRequest::IsInEarlyData, ConnReply::Flag(early)) => if !early
                || self.app_proto_selected {
                self.with(ConnRequest::TakePacket)
            } else {
                self.process()
            },
            (ConnRequest::TakePacket, ConnReply::Flag(taken)) => ConnThread {
                has_packet: taken,
                ..self
            }.process(),
            (ConnRequest::DumpPacket { .. }, _) => self.feed(),
            (ConnRequest::ConnRecv, ConnReply::Flag(false)) => self.fail(ConnectFailure::Recv),
            (ConnRequest::ConnRecv, _) | (ConnRequest::OnTimeout, _) => self.with(
                ConnRequest::IsClosed { after_sending: false },
            ),
            (ConnRequest::IsClosed { .. }, ConnReply::Flag(true)) => self.with(
                ConnRequest::IsEstablished,
            ),
            // The session is created once, and after the migration if there is
            // to be one.
            (ConnRequest::IsClosed { after_sending: false }, _) => if (!self.perform_migration
                || self.migrated) && !self.app_proto_selected {
                self.with(ConnRequest::CanStart)
            } else {
                self.exchange()
            },
            (ConnRequest::IsClosed { after_sending: true }, _) => self.with(
                ConnRequest::IsInEarlyData,
            ),
            (ConnRequest::IsEstablished, ConnReply::Flag(true)) => if self.session_file {
                self.with(ConnRequest::SaveSession)
            } else {
                self.settle()
            },
            (ConnRequest::IsEstablished, _) => self.fail(ConnectFailure::Handshake),
            (ConnRequest::SaveSession, _) => self.settle(),
            (ConnRequest::ReportIncomplete, ConnReply::Flag(true)) => self.fail(
                ConnectFailure::Incomplete,
            ),
            (ConnRequest::ReportIncomplete, _) => self.with(ConnRequest::Return),
            (ConnRequest::CanStart, ConnReply::Flag(true)) => self.with(
                ConnRequest::SelectedProtocol,
            ),
            (ConnRequest::CanStart, _) => self.exchange(),
            (ConnRequest::SelectedProtocol, ConnReply::Protocol(AppProtocol::Http09)) => self.with(
                ConnRequest::CreateHttp09,
            ),
            (ConnRequest::SelectedProtocol, ConnReply::Protocol(AppProtocol::Http3)) => self.with(
                ConnRequest::CreateHttp3 { with_datagrams: self.dgrams_enabled },
            ),
            (ConnRequest::SelectedProtocol, _) => self.exchange(),
            (ConnRequest::CreateHttp09, _) | (ConnRequest::CreateHttp3 { .. }, _) => ConnThread {
                app_proto_selected: true,
                ..self
            }.exchange(),
            (ConnRequest::Exchange, _) => self.path_events(),
            (ConnRequest::HandlePathEvents { .. }, ConnReply::Migrated(migrated)) => ConnThread {
                migrated,
                ..self.with(ConnRequest::Upkeep)
            },
            (ConnRequest::Upkeep, _) => self.with(ConnRequest::Send),
            (ConnRequest::Send, _) => self.with(ConnRequest::IsClosed { after_sending: true }),
            _ => self,
        }
    }
}

impl ConnThread {
    pub fn new(
        perform_migration: bool,
        session_file: bool,
        dump: bool,
        dgrams_enabled: bool,
    ) -> (r: ConnThread)
        ensures
            r == ConnThread::start(perform_migration, session_file, dump, dgrams_enabled),
            r.well_formed(),
    {
        ConnThread {
            perform_migration,
            session_file,
            dump,
            dgrams_enabled,
            app_proto_selected: false,
            migrated: false,
            has_packet: false,
            pkt_count: 0,
            request: ConnRequest::IsInEarlyData,
        }
    }

    /// Tells whether `reply` answers the pending request.
    pub fn expects(&self, reply: &ConnReply) -> (r: bool)
        ensures
            r == self.accepts(*reply),
    {
        match (self.request, reply) {
            (ConnRequest::IsInEarlyData, ConnReply::Flag(early)) => !(*early
                && !self.app_proto_selected && self.has_packet) || self.pkt_count
                < MAX_PACKET_COUNT,
            (ConnRequest::TakePacket, ConnReply::Flag(taken)) => !*taken || self.pkt_count
                < MAX_PACKET_COUNT,
            (ConnRequest::ConnRecv, ConnReply::Flag(_)) => true,
            (ConnRequest::IsClosed { .. }, ConnReply::Flag(_)) => true,
            (ConnRequest::IsEstablished, ConnReply::Flag(_)) => true,
            (ConnRequest::ReportIncomplete, ConnReply::Flag(_)) => true,
            (ConnRequest::CanStart, ConnReply::Flag(_)) => true,
            (ConnRequest::DumpPacket { .. }, ConnReply::Done) => true,
            (ConnRequest::OnTimeout, ConnReply::Done) => true,
            (ConnRequest::SaveSession, ConnReply::Done) => true,
            (ConnRequest::CreateHttp09, ConnReply::Done) => true,
            (ConnRequest::CreateHttp3 { .. }, ConnReply::Done) => true,
            (ConnRequest::Exchange, ConnReply::Done) => true,
            (ConnRequest::Upkeep, ConnReply::Done) => true,
            (ConnRequest::Send, ConnReply::Done) => true,
            (ConnRequest::SelectedProtocol, ConnReply::Protocol(_)) => true,
            (ConnRequest::HandlePathEvents { .. }, ConnReply::Migrated(migrated)) => !self.migrated
                || *migrated,
            _ => false,
        }
    }

    fn go_process(&mut self)
        requires
            old(self).has_packet ==> old(self).pkt_count < MAX_PACKET_COUNT,
        ensures
            *final(self) == old(self).process(),
    {
        if !self.has_packet {
            self.request = ConnRequest::OnTimeout;
        } else if self.dump {
            self.request = ConnRequest::DumpPacket { number: self.pkt_count };
        } else {
            self.pkt_count = self.pkt_count + 1;
            self.request = ConnRequest::ConnRecv;
        }
    }

    fn go_settle(&mut self)
        ensures
            *final(self) == old(self).settle(),
    {
        self.request = if self.app_proto_selected {
            ConnRequest::ReportIncomplete
        } else {
            ConnRequest::Return
        };
    }

    fn go_exchange(&mut self)
        ensures
            *final(self) == old(self).exchange(),
    {
        self.request = if self.app_proto_selected {
            ConnRequest::Exchange
        } else {
            ConnRequest::HandlePathEvents { migrated: self.migrated }
        };
    }

    /// Takes the answer to the pending request.
    pub fn advance(&mut self, reply: ConnReply)
        requires
            old(self).accepts(reply),
            old(self).well_formed(),
        ensures
            *final(self) == old(self).next(reply),
            final(self).well_formed(),
    {
        match (self.request, reply) {
            (ConnRequest::IsInEarlyData, ConnReply::Flag(early)) => {
                if !early || self.app_proto_selected {
                    self.request = ConnRequest::TakePacket;
                } else {
                    self.go_process();
                }
            },
            (ConnRequest::TakePacket, ConnReply::Flag(taken)) => {
                self.has_packet = taken;
                self.go_process();
            },
            (ConnRequest::DumpPacket { .. }, _) => {
                self.pkt_count = self.pkt_count + 1;
                self.request = ConnRequest::ConnRecv;
            },
            (ConnRequest::ConnRecv, ConnReply::Flag(ok)) => {
                self.request = if ok {
                    ConnRequest::IsClosed { after_sending: false }
                } else {
                    ConnRequest::Fail { failure: ConnectFailure::Recv }
                };
            },
            (ConnRequest::OnTimeout, _) => {
                self.request = ConnRequest::IsClosed { after_sending: false };
            },
            (ConnRequest::IsClosed { after_sending }, ConnReply::Flag(closed)) => {
                if closed {
                    self.request = ConnRequest::IsEstablished;
                } else if after_sending {
                    self.request = ConnRequest::IsInEarlyData;
                } else if (!self.perform_migration || self.migrated) && !self.app_proto_selected {
                    self.request = ConnRequest::CanStart;
                } else {
                    self.go_exchange();
                }
            },
            (ConnRequest::IsEstablished, ConnReply::Flag(established)) => {
                if !established {
                    self.request = ConnRequest::Fail { failure: ConnectFailure::Handshake };
                } else if self.session_file {
                    self.request = ConnRequest::SaveSession;
                } else {
                    self.go_settle();
                }
            },
            (ConnRequest::SaveSession, _) => {
                self.go_settle();
            },
            (ConnRequest::ReportIncomplete, ConnReply::Flag(incomplete)) => {
                self.request = if incomplete {
                    ConnRequest::Fail { failure: ConnectFailure::Incomplete }
                } else {
                    ConnRequest::Return
                };
            },
            (ConnRequest::CanStart, ConnReply::Flag(ready)) => {
                if ready {
                    self.request = ConnRequest::SelectedProtocol;
                } else {
                    self.go_exchange();
                }
            },
            (ConnRequest::SelectedProtocol, ConnReply::Protocol(protocol)) => {
                match protocol {
                    AppProtocol::Http09 => {
                        self.request = ConnRequest::CreateHttp09;
                    },
                    AppProtocol::Http3 => {
                        self.request = ConnRequest::CreateHttp3 {
                            with_datagrams: self.dgrams_enabled,
                        };
                    },
                    AppProtocol::Other => {
                        self.go_exchange();
                    },
                }
            },
            (ConnRequest::CreateHttp09, _) => {
                self.app_proto_selected = true;
                self.go_exchange();
            },
            (ConnRequest::CreateHttp3 { .. }, _) => {
                self.app_proto_selected = true;
                self.go_exchange();
            },
            (ConnRequest::Exchange, _) => {
                self.request = ConnRequest::HandlePathEvents { migrated: self.migrated };
            },
            (ConnRequest::HandlePathEvents { .. }, ConnReply::Migrated(migrated)) => {
                self.migrated = migrated;
                self.request = ConnRequest::Upkeep;
            },
            (ConnRequest::Upkeep, _) => {
                self.request = ConnRequest::Send;
            },
            (ConnRequest::Send, _) => {
                self.request = ConnRequest::IsClosed { after_sending: true };
            },
            _ => {},
        }
    }
}

impl ConnThread {
    /// What each pending request tells about the thread.
    pub open spec fn coherent(self) -> bool {
        let may_start = !self.perform_migration || self.migrated;
        &&& self.app_proto_selected ==> may_start
        &&& self.pkt_count <= MAX_PACKET_COUNT
        &&& match self.request {
            ConnRequest::DumpPacket { number } => self.dump && self.has_packet && number
                == self.pkt_count < MAX_PACKET_COUNT,
            ConnRequest::ConnRecv => self.has_packet,
            ConnRequest::OnTimeout => !self.has_packet,
            ConnRequest::CanStart | ConnRequest::SelectedProtocol | ConnRequest::CreateHttp09 => {
                may_start && !self.app_proto_selected
            },
            ConnRequest::CreateHttp3 { with_datagrams } => may_start && !self.app_proto_selected
                && with_datagrams == self.dgrams_enabled,
            ConnRequest::Exchange | ConnRequest::ReportIncomplete => self.app_proto_selected,
            ConnRequest::HandlePathEvents { migrated } => migrated == self.migrated,
            ConnRequest::SaveSession => self.session_file,
            _ => true,
        }
    }

    /// The HTTP session is being created.
    pub open spec fn creates_session(self) -> bool {
        self.request is CreateHttp09 || self.request is CreateHttp3
    }
}

/// The thread of a connection is coherent in every state of every run: the
/// session is created only after the migration if there is to be one, and a
/// timeout is handled only without a packet.
pub proof fn conn_threads_stay_coherent(
    perform_migration: bool,
    session_file: bool,
    dump: bool,
    dgrams_enabled: bool,
    replies: Seq<ConnReply>,
)
    requires
        crate::machine::admits(
            ConnThread::start(perform_migration, session_file, dump, dgrams_enabled),
            replies,
        ),
    ensures
        ({
            let m = crate::machine::run(
                ConnThread::start(perform_migration, session_file, dump, dgrams_enabled),
                replies,
            );
            &&& m.coherent()
            &&& m.perform_migration == perform_migration
            &&& m.session_file == session_file
            &&& m.dump == dump
            &&& m.dgrams_enabled == dgrams_enabled
        }),
{
    let inv = |m: ConnThread|
        m.coherent() && m.perform_migration == perform_migration && m.session_file == session_file
            && m.dump == dump && m.dgrams_enabled == dgrams_enabled;
    crate::machine::invariant_holds(
        ConnThread::start(perform_migration, session_file, dump, dgrams_enabled),
        replies,
        inv,
    );
}

/// The HTTP session is created at most once.
pub proof fn session_is_created_once(
    perform_migration: bool,
    session_file: bool,
    dump: bool,
    dgrams_enabled: bool,
    replies: Seq<ConnReply>,
)
    requires
        crate::machine::admits(
            ConnThread::start(perform_migration, session_file, dump, dgrams_enabled),
            replies,
        ),
    ensures
        crate::machine::visits(
            ConnThread::start(perform_migration, session_file, dump, dgrams_enabled),
            replies,
            |m: ConnThread| m.creates_session(),
        ) <= 1,
{
    crate::machine::happens_at_most_once(
        ConnThread::start(perform_migration, session_file, dump, dgrams_enabled),
        replies,
        |m: ConnThread| m.coherent(),
        |m: ConnThread| m.creates_session(),
        |m: ConnThread| m.app_proto_selected,
    );
}

/// The HTTP session is created only once the handshake is complete or early data
/// can be sent, and it is one of the protocol that the peer selected.
pub proof fn session_waits_for_the_handshake(
    perform_migration: bool,
    session_file: bool,
    dump: bool,
    dgrams_enabled: bool,
    replies: Seq<ConnReply>,
)
    requires
        crate::machine::admits(
            ConnThread::start(perform_migration, session_file, dump, dgrams_enabled),
            replies,
        ),
        crate::machine::run(
            ConnThread::start(perform_migration, session_file, dump, dgrams_enabled),
            replies,
        ).creates_session(),
    ensures
        ({
            let start = ConnThread::start(perform_migration, session_file, dump, dgrams_enabled);
            let n = replies.len();
            let m = crate::machine::run(start, replies);
            &&& n >= 2
            &&& crate::machine::run(start, replies.take(n - 2)).request is CanStart
            &&& replies[n - 2] == ConnReply::Flag(true)
            &&& crate::machine::run(start, replies.take(n - 1)).request is SelectedProtocol
            &&& replies[n - 1] == ConnReply::Protocol(
                if m.request is CreateHttp09 {
                    AppProtocol::Http09
                } else {
                    AppProtocol::Http3
                },
            )
        }),
{
    let start = ConnThread::start(perform_migration, session_file, dump, dgrams_enabled);
    let n = replies.len();
    assert(replies.drop_last() =~= replies.take(n - 1));
    assert(crate::machine::run(start, replies.take(n - 1)).request is SelectedProtocol);
    assert(replies.take(n - 1).drop_last() =~= replies.take(n - 2));
}

/// The packets are numbered by how many were fed to the connection before.
pub proof fn packets_are_numbered(
    perform_migration: bool,
    session_file: bool,
    dump: bool,
    dgrams_enabled: bool,
    replies: Seq<ConnReply>,
)
    requires
        crate::machine::admits(
            ConnThread::start(perform_migration, session_file, dump, dgrams_enabled),
            replies,
        ),
    ensures
        ({
            let start = ConnThread::start(perform_migration, session_file, dump, dgrams_enabled);
            crate::machine::run(start, replies).pkt_count == crate::machine::visits(
                start,
                replies,
                |m: ConnThread| m.request is ConnRecv,
            )
        }),
    decreases replies.len(),
{
    if replies.len() > 0 {
        packets_are_numbered(
            perform_migration,
            session_file,
            dump,
            dgrams_enabled,
            replies.drop_last(),
        );
        conn_threads_stay_coherent(
            perform_migration,
            session_file,
            dump,
            dgrams_enabled,
            replies.drop_last(),
        );
    }
}

/// The thread of a connection ends well only with a connection that was
/// established and then closed, and a session, if there was one, that is
/// complete.
pub proof fn conn_success_means_closed_and_complete(
    perform_migration: bool,
    session_file: bool,
    dump: bool,
    dgrams_enabled: bool,
    replies: Seq<ConnReply>,
)
    requires
        crate::machine::admits(
            ConnThread::start(perform_migration, session_file, dump, dgrams_enabled),
            replies,
        ),
        crate::machine::run(
            ConnThread::start(perform_migration, session_file, dump, dgrams_enabled),
            replies,
        ).request is Return,
    ensures
        ({
            let start = ConnThread::start(perform_migration, session_file, dump, dgrams_enabled);
            let m = crate::machine::run(start, replies);
            &&& crate::machine::reaches(start, replies, |m: ConnThread| m.request is IsEstablished)
            &&& session_file ==> crate::machine::reaches(
                start,
                replies,
                |m: ConnThread| m.request is SaveSession,
            )
            &&& m.app_proto_selected ==> {
                &&& crate::machine::run(start, replies.drop_last()).request is ReportIncomplete
                &&& replies.last() == ConnReply::Flag(false)
            }
        }),
{
    lemma_wound_up(
        ConnThread::start(perform_migration, session_file, dump, dgrams_enabled),
        replies,
    );
}

proof fn lemma_wound_up(start: ConnThread, replies: Seq<ConnReply>)
    requires
        start.request is IsInEarlyData,
        crate::machine::admits(start, replies),
    ensures
        ({
            let m = crate::machine::run(start, replies);
            &&& m.session_file == start.session_file
            &&& m.request is SaveSession || m.request is ReportIncomplete || m.request is Return
                ==> crate::machine::reaches(
                start,
                replies,
                |m: ConnThread| m.request is IsEstablished,
            )
            &&& start.session_file && (m.request is ReportIncomplete || m.request is Return)
                ==> crate::machine::reaches(
                start,
                replies,
                |m: ConnThread| m.request is SaveSession,
            )
            &&& m.request is Return && m.app_proto_selected ==> {
                &&& crate::machine::run(start, replies.drop_last()).request is ReportIncomplete
                &&& replies.last() == ConnReply::Flag(false)
            }
        }),
    decreases replies.len(),
{
    reveal_with_fuel(crate::machine::reaches, 2);
    if replies.len() > 0 {
        lemma_wound_up(start, replies.drop_last());
    }
}

/// Each failure of the thread of a connection has its own cause: what was asked
/// for last, and what came back. Writing does not fail it.
pub proof fn conn_failures_have_their_causes(
    perform_migration: bool,
    session_file: bool,
    dump: bool,
    dgrams_enabled: bool,
    replies: Seq<ConnReply>,
    failure: ConnectFailure,
)
    requires
        crate::machine::admits(
            ConnThread::start(perform_migration, session_file, dump, dgrams_enabled),
            replies,
        ),
    ensures
        ({
            let start = ConnThread::start(perform_migration, session_file, dump, dgrams_enabled);
            let m = crate::machine::run(start, replies);
            let asked = crate::machine::run(start, replies.drop_last()).request;
            m.request == (ConnRequest::Fail { failure }) <==> replies.len() > 0 && match failure {
                ConnectFailure::Recv => asked is ConnRecv && replies.last() == ConnReply::Flag(
                    false,
                ),
                ConnectFailure::Send => false,
                ConnectFailure::Handshake => asked is IsEstablished && replies.last()
                    == ConnReply::Flag(false),
                ConnectFailure::Incomplete => asked is ReportIncomplete && replies.last()
                    == ConnReply::Flag(true),
            }
        }),
{
}

/// What handling the path events comes to is an answer to the thread that asked
/// for it.
pub proof fn conn_migration_outcomes_are_accepted(
    m: ConnThread,
    replies: Seq<crate::path_events::PathEventReply>,
)
    requires
        m.request is HandlePathEvents,
        crate::machine::admits(
            crate::path_events::ClientPathEvents::start(m.perform_migration, m.migrated),
            replies,
        ),
        crate::machine::run(
            crate::path_events::ClientPathEvents::start(m.perform_migration, m.migrated),
            replies,
        ).ended() is Some,
    ensures
        m.accepts(
            ConnReply::Migrated(
                crate::machine::run(
                    crate::path_events::ClientPathEvents::start(m.perform_migration, m.migrated),
                    replies,
                ).ended()->0,
            ),
        ),
{
    crate::path_events::client_acts_on_validated_paths(m.perform_migration, m.migrated, replies);
}

/// The paths of the client join addresses of one IP version. Where there is a
/// local address of that version the connection starts on the first path.
pub proof fn client_pairs_are_of_one_family(peer: SocketAddr, addrs: Seq<SocketAddr>)
    ensures
        ({
            let pairs = client_pairs(peer, addrs);
            &&& crate::addr::same_family(crate::addr::first_local(peer, addrs), peer)
            &&& pairs.len() > 0 ==> pairs[0] == (crate::addr::first_local(peer, addrs), peer)
            &&& forall|i: int|
                0 <= i < pairs.len() ==> {
                    &&& crate::addr::same_family((#[trigger] pairs[i]).0, peer)
                    &&& addrs.contains(pairs[i].0)
                    &&& pairs[i].1 == peer
                }
        }),
{
    crate::addr::picked_addresses_are_of_the_family(addrs, peer);
}

impl ConnThread {
    /// The HTTP session was created.
    pub open spec fn session_created() -> spec_fn(ConnThread, ConnReply) -> bool {
        |m: ConnThread, reply: ConnReply| m.request is CreateHttp09 || m.request is CreateHttp3
    }

    /// Whether the connection has migrated, as the handling of the path events tells.
    pub open spec fn told_migrated() -> spec_fn(ConnThread, ConnReply) -> Option<bool> {
        |m: ConnThread, reply: ConnReply|
            match (m.request, reply) {
                (ConnRequest::HandlePathEvents { .. }, ConnReply::Migrated(told)) => Some(told),
                _ => None,
            }
    }

    /// Whether a packet was taken from the threads of the sockets.
    pub open spec fn told_packet() -> spec_fn(ConnThread, ConnReply) -> Option<bool> {
        |m: ConnThread, reply: ConnReply|
            match (m.request, reply) {
                (ConnRequest::TakePacket, ConnReply::Flag(taken)) => Some(taken),
                _ => None,
            }
    }
}

/// What the thread of a connection holds is what it was told: that the session was
/// created, whether the connection has migrated, and whether there was a packet to take
/// when it looked last.
pub proof fn conn_threads_know_what_they_were_told(
    perform_migration: bool,
    session_file: bool,
    dump: bool,
    dgrams_enabled: bool,
    replies: Seq<ConnReply>,
)
    requires
        crate::machine::admits(
            ConnThread::start(perform_migration, session_file, dump, dgrams_enabled),
            replies,
        ),
    ensures
        ({
            let start = ConnThread::start(perform_migration, session_file, dump, dgrams_enabled);
            let m = crate::machine::run(start, replies);
            &&& m.perform_migration == perform_migration
            &&& m.session_file == session_file
            &&& m.dump == dump
            &&& m.dgrams_enabled == dgrams_enabled
            &&& m.app_proto_selected <==> crate::machine::answered(
                start,
                replies,
                ConnThread::session_created(),
            )
            &&& m.migrated == crate::machine::told_or(
                crate::machine::latest(start, replies, ConnThread::told_migrated()),
                false,
            )
            &&& m.has_packet == crate::machine::told_or(
                crate::machine::latest(start, replies, ConnThread::told_packet()),
                false,
            )
        }),
    decreases replies.len(),
{
    if replies.len() > 0 {
        conn_threads_know_what_they_were_told(
            perform_migration,
            session_file,
            dump,
            dgrams_enabled,
            replies.drop_last(),
        );
    }
}

/// A round of the thread of a connection: it takes a packet, unless early data can be
/// sent before there is a session, dumps it if asked to and feeds it to the connection,
/// or times out. Unless the connection is closed it then exchanges requests and
/// responses if there is a session, or else creates one as soon as it may. It handles
/// the path events, does the upkeep and sends.
pub proof fn conn_rounds_go_in_order(
    perform_migration: bool,
    session_file: bool,
    dump: bool,
    dgrams_enabled: bool,
    replies: Seq<ConnReply>,
)
    requires
        crate::machine::admits(
            ConnThread::start(perform_migration, session_file, dump, dgrams_enabled),
            replies,
        ),
    ensures
        ({
            let start = ConnThread::start(perform_migration, session_file, dump, dgrams_enabled);
            let before = crate::machine::run(start, replies.drop_last());
            let asked = before.request;
            let last = replies.last();
            let yes = last == ConnReply::Flag(true);
            let next = crate::machine::run(start, replies).request;
            let created = crate::machine::answered(start, replies, ConnThread::session_created());
            let migrated = crate::machine::told_or(
                crate::machine::latest(start, replies, ConnThread::told_migrated()),
                false,
            );
            let packet = crate::machine::told_or(
                crate::machine::latest(start, replies, ConnThread::told_packet()),
                false,
            );
            let path_events = ConnRequest::HandlePathEvents { migrated };
            &&& replies.len() == 0 ==> next == ConnRequest::IsInEarlyData
            &&& replies.len() > 0 ==> {
                &&& asked is IsInEarlyData && (!yes || created) ==> next == ConnRequest::TakePacket
                &&& asked is TakePacket || (asked is IsInEarlyData && yes && !created) ==> next
                    == if !packet {
                    ConnRequest::OnTimeout
                } else if dump {
                    ConnRequest::DumpPacket { number: before.pkt_count }
                } else {
                    ConnRequest::ConnRecv
                }
                &&& asked is DumpPacket ==> next == ConnRequest::ConnRecv
                &&& asked is OnTimeout ==> next == (ConnRequest::IsClosed { after_sending: false })
                &&& asked is ConnRecv ==> next == if yes {
                    ConnRequest::IsClosed { after_sending: false }
                } else {
                    ConnRequest::Fail { failure: ConnectFailure::Recv }
                }
                &&& asked is IsClosed && yes ==> next == ConnRequest::IsEstablished
                &&& asked == (ConnRequest::IsClosed { after_sending: false }) && !yes ==> next
                    == if created {
                    ConnRequest::Exchange
                } else if perform_migration && !migrated {
                    path_events
                } else {
                    ConnRequest::CanStart
                }
                &&& asked == (ConnRequest::IsClosed { after_sending: true }) && !yes ==> next
                    == ConnRequest::IsInEarlyData
                &&& asked is CanStart ==> next == if yes {
                    ConnRequest::SelectedProtocol
                } else {
                    path_events
                }
                &&& asked is SelectedProtocol ==> next == match last {
                    ConnReply::Protocol(AppProtocol::Http09) => ConnRequest::CreateHttp09,
                    ConnReply::Protocol(AppProtocol::Http3) => ConnRequest::CreateHttp3 {
                        with_datagrams: dgrams_enabled,
                    },
                    _ => path_events,
                }
                &&& asked is CreateHttp09 || asked is CreateHttp3 ==> next == ConnRequest::Exchange
                &&& asked is Exchange ==> next == path_events
                &&& asked is HandlePathEvents ==> next == ConnRequest::Upkeep
                &&& asked is Upkeep ==> next == ConnRequest::Send
                &&& asked is Send ==> next == (ConnRequest::IsClosed { after_sending: true })
            }
        }),
{
    conn_threads_know_what_they_were_told(
        perform_migration,
        session_file,
        dump,
        dgrams_enabled,
        replies,
    );
    if replies.len() > 0 {
        conn_threads_know_what_they_were_told(
            perform_migration,
            session_file,
            dump,
            dgrams_enabled,
            replies.drop_last(),
        );
        conn_threads_stay_coherent(
            perform_migration,
            session_file,
            dump,
            dgrams_enabled,
            replies.drop_last(),
        );
    }
}

/// How the thread of a connection ends once the connection is closed. It fails if the
/// connection was not established. Else it saves the session if there is a file for it,
/// and it succeeds unless there is an HTTP session with responses missing.
pub proof fn conn_threads_end_in_order(
    perform_migration: bool,
    session_file: bool,
    dump: bool,
    dgrams_enabled: bool,
    replies: Seq<ConnReply>,
)
    requires
        crate::machine::admits(
            ConnThread::start(perform_migration, session_file, dump, dgrams_enabled),
            replies,
        ),
        replies.len() > 0,
    ensures
        ({
            let start = ConnThread::start(perform_migration, session_file, dump, dgrams_enabled);
            let asked = crate::machine::run(start, replies.drop_last()).request;
            let yes = replies.last() == ConnReply::Flag(true);
            let next = crate::machine::run(start, replies).request;
            let created = crate::machine::answered(start, replies, ConnThread::session_created());
            let saved = asked is SaveSession || (asked is IsEstablished && yes && !session_file);
            &&& asked is IsEstablished && !yes ==> next == (ConnRequest::Fail {
                failure: ConnectFailure::Handshake,
            })
            &&& asked is IsEstablished && yes && session_file ==> next == ConnRequest::SaveSession
            &&& saved && created ==> next == ConnRequest::ReportIncomplete
            &&& saved && !created ==> next == ConnRequest::Return
            &&& asked is ReportIncomplete ==> next == if yes {
                ConnRequest::Fail { failure: ConnectFailure::Incomplete }
            } else {
                ConnRequest::Return
            }
        }),
{
    conn_threads_know_what_they_were_told(
        perform_migration,
        session_file,
        dump,
        dgrams_enabled,
        replies,
    );
    conn_threads_know_what_they_were_told(
        perform_migration,
        session_file,
        dump,
        dgrams_enabled,
        replies.drop_last(),
    );
}

/// The thread of a socket counts the events, reads for each of them until the socket
/// blocks, passing on what comes in, and then sends one packet if it was given one. It
/// fails when the socket fails to receive or does not take the packet.
pub proof fn relays_go_in_order(replies: Seq<RelayReply>)
    requires
        crate::machine::admits(RelayThread::start(), replies),
    ensures
        ({
            let start = RelayThread::start();
            let before = crate::machine::run(start, replies.drop_last());
            let asked = before.request;
            let last = replies.last();
            let m = crate::machine::run(start, replies);
            let next = m.request;
            &&& replies.len() == 0 ==> next == RelayRequest::Poll
            &&& replies.len() > 0 ==> {
                &&& asked is Poll ==> m.nb_events == last->Count_0 && next == if last->Count_0
                    > 0 {
                    RelayRequest::RecvFrom { event: 0 }
                } else {
                    RelayRequest::TakeOutgoing
                }
                &&& !(asked is Poll) ==> m.nb_events == before.nb_events
                &&& asked matches RelayRequest::RecvFrom { event } ==> {
                    &&& last matches RelayReply::Recv(SocketRecv::Received { len, from }) ==> next
                        == (RelayRequest::PassOn { event, len, from })
                    &&& last == RelayReply::Recv(SocketRecv::WouldBlock) ==> next == if event + 1
                        < m.nb_events {
                        RelayRequest::RecvFrom { event: (event + 1) as usize }
                    } else {
                        RelayRequest::TakeOutgoing
                    }
                    &&& last == RelayReply::Recv(SocketRecv::Failed) ==> next
                        == RelayRequest::FailRecv
                }
                &&& asked matches RelayRequest::PassOn { event, .. } ==> next
                    == (RelayRequest::RecvFrom { event })
                &&& asked is TakeOutgoing ==> next == match last->Outgoing_0 {
                    Some(p) => RelayRequest::SendTo { len: p.len, to: p.to },
                    None => RelayRequest::Poll,
                }
                &&& asked is SendTo ==> next == if last == RelayReply::Send(SocketSend::Sent) {
                    RelayRequest::Poll
                } else {
                    RelayRequest::FailSend
                }
            }
        }),
{
    relay_follows_its_replies(replies);
    if replies.len() > 0 {
        relay_follows_its_replies(replies.drop_last());
    }
}

/// Each pair joins a local address of the IP version of the peer with the peer, in order. The
/// thread of the pair at each position runs on the core at that position.
pub proof fn sockets_are_planned_by_position(peer: SocketAddr, addrs: Seq<SocketAddr>)
    ensures
        ({
            let locals = crate::addr::of_family(addrs, peer);
            let pairs = client_pairs(peer, addrs);
            &&& pairs.len() == locals.len()
            &&& forall|i: int|
                0 <= i < pairs.len() ==> #[trigger] pairs[i] == (locals[i], peer)
            &&& socket_plans(pairs).len() == pairs.len()
            &&& pairs.len() <= usize::MAX ==> forall|i: int|
                0 <= i < pairs.len() ==> (#[trigger] socket_plans(pairs)[i]).core == i
                    && socket_plans(pairs)[i].local == locals[i] && socket_plans(pairs)[i].peer
                    == peer
        }),
{
}

/// The thread that was started last for a pair serves it, and no thread of another pair does.
pub proof fn later_threads_serve_the_path(
    tuples: Seq<(SocketAddr, SocketAddr)>,
    added: (SocketAddr, SocketAddr),
    pair: (SocketAddr, SocketAddr),
    at: int,
)
    ensures
        is_last_position(tuples.push(added), added, at) <==> at == tuples.len(),
        added != pair ==> (is_last_position(tuples.push(added), pair, at) <==> is_last_position(
            tuples,
            pair,
            at,
        )),
        !is_last_position(Seq::empty(), pair, at),
{
    let more = tuples.push(added);
    assert(more[tuples.len() as int] == added);
    assert forall|i: int| 0 <= i < tuples.len() implies #[trigger] more[i] == tuples[i] by {}
    if added != pair && is_last_position(more, pair, at) {
        assert forall|i: int| at < i < tuples.len() implies tuples[i] != pair by {
            assert(more[i] == tuples[i]);
        }
    }
}

/// Every answer of the right kind is taken, whatever it says, and none of another kind. A
/// connection that has migrated stays so, a packet must fit a datagram, and the packets must be
/// countable.
pub proof fn conn_and_relay_threads_take_every_answer(
    m: ConnThread,
    reply: ConnReply,
    relay: RelayThread,
    got: RelayReply,
)
    ensures
        m.request is IsInEarlyData ==> (m.accepts(reply) <==> reply is Flag && !(reply
            == ConnReply::Flag(true) && !m.app_proto_selected && m.has_packet && m.pkt_count
            >= 0x7fff_ffff)),
        m.request is TakePacket ==> (m.accepts(reply) <==> reply is Flag && !(reply
            == ConnReply::Flag(true) && m.pkt_count >= 0x7fff_ffff)),
        m.request is ConnRecv || m.request is IsClosed || m.request is IsEstablished || m.request
            is ReportIncomplete || m.request is CanStart ==> (m.accepts(reply) <==> reply is Flag),
        m.request is DumpPacket || m.request is OnTimeout || m.request is SaveSession || m.request
            is CreateHttp09 || m.request is CreateHttp3 || m.request is Exchange || m.request
            is Upkeep || m.request is Send ==> (m.accepts(reply) <==> reply is Done),
        m.request is SelectedProtocol ==> (m.accepts(reply) <==> reply is Protocol),
        m.request is HandlePathEvents ==> (m.accepts(reply) <==> reply is Migrated && !(m.migrated
            && reply == ConnReply::Migrated(false))),
        m.request is Return || m.request is Fail ==> !m.accepts(reply),
        relay.request is Poll ==> (relay.accepts(got) <==> got is Count),
        relay.request is RecvFrom ==> (relay.accepts(got) <==> match got {
            RelayReply::Recv(SocketRecv::Received { len, .. }) => len <= 1350,
            RelayReply::Recv(_) => true,
            _ => false,
        }),
        relay.request is PassOn ==> (relay.accepts(got) <==> got is Done),
        relay.request is TakeOutgoing ==> (relay.accepts(got) <==> match got {
            RelayReply::Outgoing(Some(p)) => p.len <= 1350,
            RelayReply::Outgoing(None) => true,
            _ => false,
        }),
        relay.request is SendTo ==> (relay.accepts(got) <==> got is Send),
        relay.request is FailRecv || relay.request is FailSend ==> !relay.accepts(got),
{
}

} // verus!
