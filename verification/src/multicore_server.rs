//! The multicore server: one thread for each path of a connection.

use crate::addr::{drop_address, SocketAddr};
use crate::machine::Machine;
use crate::transport::{
    status_when_draining, CloseCause, MulticoreStatus, Outgoing, PathSend, SocketSend,
    MAX_BUF_SIZE, MAX_DATAGRAM_SIZE, POLL_TIMEOUT_MS,
};
use vstd::prelude::*;

verus! {

/// A burst is never limited to less than this.
pub const MIN_SEND_BURST: usize = 13500;

/// The first stream that the server opens in one direction.
pub const FIRST_STREAM_ID: u64 = 3;

/// The part of `size` that each of `nb_paths` paths gets.
pub open spec fn share(size: usize, nb_paths: usize) -> usize {
    (size / nb_paths) as usize
}

/// The share of each path in the transfer.
pub fn path_transfer_size(transfer_size: Option<usize>, nb_paths: usize) -> (r: Option<usize>)
    requires
        nb_paths > 0,
    ensures
        r == match transfer_size {
            Some(size) => Some(share(size, nb_paths)),
            None => None,
        },
{
    match transfer_size {
        Some(size) => Some(size / nb_paths),
        None => None,
    }
}

/// The number of paths of a connection: one for each further address of the
/// server besides the one that it listens on.
pub fn nb_initiated_paths(server_addresses: &Vec<SocketAddr>) -> (r: usize)
    requires
        server_addresses@.len() < usize::MAX,
    ensures
        r == server_addresses@.len() + 1,
{
    server_addresses.len() + 1
}

/// Takes the next stream that the server opens in one direction.
pub fn take_stream_id(next_stream_id: &mut u64) -> (r: u64)
    requires
        *old(next_stream_id) <= u64::MAX - 4,
    ensures
        r == *old(next_stream_id),
        *final(next_stream_id) == *old(next_stream_id) + 4,
{
    let id = *next_stream_id;
    *next_stream_id = id + 4;
    id
}

/// The identifier of the stream that is taken after `n` others.
pub open spec fn stream_id(n: nat) -> int {
    FIRST_STREAM_ID + 4 * n
}

/// Every stream that is taken is opened by the server in one direction, and no
/// stream is taken twice.
pub proof fn stream_ids_are_server_unidirectional(n: nat, m: nat)
    ensures
        stream_id(0) == FIRST_STREAM_ID,
        stream_id(n) % 4 == 3,
        stream_id(n + 1) == stream_id(n) + 4,
        n != m ==> stream_id(n) != stream_id(m),
{
}

/// A path besides the one that the connection starts on, and the core that its
/// thread runs on.
#[derive(Clone, Copy, Debug, PartialEq, Eq, Structural)]
pub struct ServerPathPlan {
    pub local: SocketAddr,
    pub core: Option<usize>,
}

/// There is a core for the thread of each path, where cores are given.
pub open spec fn enough_cores(
    server_addresses: Seq<SocketAddr>,
    listen: SocketAddr,
    cores: Option<Seq<usize>>,
) -> bool {
    cores matches Some(cores) ==> crate::addr::all_but(server_addresses, listen).len() < cores.len()
}

/// The paths of a connection besides the one that it starts on. The first core
/// is for that one.
pub open spec fn server_paths(
    server_addresses: Seq<SocketAddr>,
    listen: SocketAddr,
    cores: Option<Seq<usize>>,
) -> Seq<ServerPathPlan> {
    let locals = crate::addr::all_but(server_addresses, listen);
    Seq::new(
        locals.len(),
        |i: int|
            ServerPathPlan {
                local: locals[i],
                core: match cores {
                    Some(cores) => Some(cores[i + 1]),
                    None => None,
                },
            },
    )
}

pub open spec fn cores_view(cores: Option<Vec<usize>>) -> Option<Seq<usize>> {
    match cores {
        Some(cores) => Some(cores@),
        None => None,
    }
}

/// Tells whether there is a core for the thread of each path.
pub fn has_enough_cores(
    server_addresses: &Vec<SocketAddr>,
    listen: &SocketAddr,
    cores: &Option<Vec<usize>>,
) -> (r: bool)
    ensures
        r == enough_cores(server_addresses@, *listen, cores_view(*cores)),
{
    match cores {
        Some(cores) => drop_address(server_addresses, listen).len() < cores.len(),
        None => true,
    }
}

/// The core for the path that a connection starts on.
pub fn first_server_core(cores: &Option<Vec<usize>>) -> (r: Option<usize>)
    requires
        cores_view(*cores) matches Some(cores) ==> cores.len() > 0,
    ensures
        r == match cores_view(*cores) {
            Some(cores) => Some(cores[0]),
            None => None,
        },
{
    match cores {
        Some(cores) => Some(cores[0]),
        None => None,
    }
}

/// Lists the paths of a connection besides the one that it starts on.
pub fn plan_server_paths(
    server_addresses: &Vec<SocketAddr>,
    listen: &SocketAddr,
    cores: &Option<Vec<usize>>,
) -> (r: Vec<ServerPathPlan>)
    requires
        enough_cores(server_addresses@, *listen, cores_view(*cores)),
    ensures
        r@ == server_paths(server_addresses@, *listen, cores_view(*cores)),
{
    let locals = drop_address(server_addresses, listen);
    let mut plans: Vec<ServerPathPlan> = Vec::new();
    for i in 0..locals.len()
        invariant
            locals@ == crate::addr::all_but(server_addresses@, *listen),
            enough_cores(server_addresses@, *listen, cores_view(*cores)),
            plans@ =~= server_paths(server_addresses@, *listen, cores_view(*cores)).take(i as int),
    {
        let core = match cores {
            Some(cores) => Some(cores[i + 1]),
            None => None,
        };
        plans.push(ServerPathPlan { local: locals[i], core });
    }
    plans
}

/// What the reading loop of a path asks for.
#[derive(Clone, Copy, Debug, PartialEq, Eq, Structural)]
pub enum ServerReadRequest {
    /// Handle the timeout of the path.
    OnTimeout,
    /// Read a datagram from the socket.
    RecvFrom,
    /// Let the path lead to the origin of the first datagram.
    SetPeerAddr { len: usize, from: SocketAddr },
    /// Feed the first `len` bytes of the buffer to the path.
    PathRecv { len: usize, from: SocketAddr },
    /// Find out whether the peer can take another connection identifier.
    SourceCidsLeft,
    /// Give the peer a new connection identifier.
    NewSourceCid,
    /// There is nothing more to read.
    Return,
}

/// The answers to a `ServerReadRequest`.
#[derive(Clone, Copy, Debug, PartialEq, Eq, Structural)]
pub enum ServerReadReply {
    /// The request was carried out.
    Done,
    /// The answer to a question, or the success of an attempt.
    Flag(bool),
    /// A datagram of `len` bytes came from `from`.
    Received { len: usize, from: SocketAddr },
    /// There is no datagram to read.
    WouldBlock,
}

/// Reads the datagrams of a path of the server.
#[derive(Clone, Copy, Debug, PartialEq, Eq, Structural)]
pub struct ServerRead {
    /// The connection started on this path. It gives out the identifiers.
    pub first_path: bool,
    /// Identifiers were given out.
    pub scid_sent: bool,
    /// It is known where the path leads to.
    pub has_set_peer_addr: bool,
    pub request: ServerReadRequest,
}

impl ServerRead {
    pub open spec fn with(self, request: ServerReadRequest) -> ServerRead {
        ServerRead { request, ..self }
    }

    /// The state after a poll.
    pub open spec fn start(
        first_path: bool,
        scid_sent: bool,
        has_set_peer_addr: bool,
        events: bool,
        continue_write: bool,
    ) -> ServerRead {
        ServerRead {
            first_path,
            scid_sent,
            has_set_peer_addr,
            request: if !events && !continue_write {
                ServerReadRequest::OnTimeout
            } else {
                ServerReadRequest::RecvFrom
            },
        }
    }

    /// What reading came to, once it has ended.
    pub open spec fn ended(self) -> Option<ServerReply> {
        if self.request is Return {
            Some(
                ServerReply::Read {
                    scid_sent: self.scid_sent,
                    has_set_peer_addr: self.has_set_peer_addr,
                },
            )
        } else {
            None
        }
    }

    /// The datagram that is processed fits the buffer, and the path leads to
    /// its origin.
    pub open spec fn well_formed(self) -> bool {
        match self.request {
            ServerReadRequest::SetPeerAddr { len, .. } => len <= MAX_BUF_SIZE
                && !self.has_set_peer_addr,
            ServerReadRequest::PathRecv { len, .. } => len <= MAX_BUF_SIZE
                && self.has_set_peer_addr,
            ServerReadRequest::SourceCidsLeft | ServerReadRequest::NewSourceCid => self.first_path,
            _ => true,
        }
    }
}

impl Machine for ServerRead {
    type Reply = ServerReadReply;

    open spec fn accepts(self, reply: ServerReadReply) -> bool {
        match self.request {
            ServerReadRequest::OnTimeout | ServerReadRequest::SetPeerAddr { .. } => reply is Done,
            ServerReadRequest::RecvFrom => {
                ||| reply is WouldBlock
                ||| reply matches ServerReadReply::Received { len, .. } && len <= MAX_BUF_SIZE
            },
            ServerReadRequest::PathRecv { .. } | ServerReadRequest::SourceCidsLeft
            | ServerReadRequest::NewSourceCid => reply is Flag,
            ServerReadRequest::Return => false,
        }
    }

    open spec fn next(self, reply: ServerReadReply) -> ServerRead {
        match (self.request, reply) {
            (ServerReadRequest::OnTimeout, _) | (
                ServerReadRequest::RecvFrom,
                ServerReadReply::WouldBlock,
            ) => self.with(ServerReadRequest::Return),
            (ServerReadRequest::RecvFrom, ServerReadReply::Received { len, from }) => self.with(
                if self.has_set_peer_addr {
                    ServerReadRequest::PathRecv { len, from }
                } else {
                    ServerReadRequest::SetPeerAddr { len, from }
                },
            ),
            (ServerReadRequest::SetPeerAddr { len, from }, _) => ServerRead {
                has_set_peer_addr: true,
                ..self.with(ServerReadRequest::PathRecv { len, from })
            },
            (ServerReadRequest::PathRecv { .. }, ServerReadReply::Flag(true)) => if self.first_path
                && !self.scid_sent {
                self.with(ServerReadRequest::SourceCidsLeft)
            } else {
                self.with(ServerReadRequest::RecvFrom)
            },
            (ServerReadRequest::SourceCidsLeft, ServerReadReply::Flag(true)) => self.with(
                ServerReadRequest::NewSourceCid,
            ),
            (ServerReadRequest::NewSourceCid, ServerReadReply::Flag(true)) => ServerRead {
                scid_sent: true,
                ..self.with(ServerReadRequest::SourceCidsLeft)
            },
            _ => self.with(ServerReadRequest::RecvFrom),
        }
    }
}

impl ServerRead {
    /// Starts after a poll. Without an event the path has timed out, unless
    /// the poll did not wait because there was more to write.
    pub fn new(
        first_path: bool,
        scid_sent: bool,
        has_set_peer_addr: bool,
        events: bool,
        continue_write: bool,
    ) -> (r: ServerRead)
        ensures
            r == ServerRead::start(
                first_path,
                scid_sent,
                has_set_peer_addr,
                events,
                continue_write,
            ),
            r.well_formed(),
    {
        ServerRead {
            first_path,
            scid_sent,
            has_set_peer_addr,
            request: if !events && !continue_write {
                ServerReadRequest::OnTimeout
            } else {
                ServerReadRequest::RecvFrom
            },
        }
    }

    /// Tells whether `reply` answers the pending request.
    pub fn expects(&self, reply: &ServerReadReply) -> (r: bool)
        ensures
            r == self.accepts(*reply),
    {
        match (self.request, reply) {
            (ServerReadRequest::OnTimeout, ServerReadReply::Done) => true,
            (ServerReadRequest::SetPeerAddr { .. }, ServerReadReply::Done) => true,
            (ServerReadRequest::RecvFrom, ServerReadReply::WouldBlock) => true,
            (ServerReadRequest::RecvFrom, ServerReadReply::Received { len, .. }) => *len
                <= MAX_BUF_SIZE,
            (ServerReadRequest::PathRecv { .. }, ServerReadReply::Flag(_)) => true,
            (ServerReadRequest::SourceCidsLeft, ServerReadReply::Flag(_)) => true,
            (ServerReadRequest::NewSourceCid, ServerReadReply::Flag(_)) => true,
            _ => false,
        }
    }

    /// Tells what reading came to, once it has ended.
    pub fn outcome(&self) -> (r: Option<ServerReply>)
        ensures
            r == self.ended(),
    {
        match self.request {
            ServerReadRequest::Return => Some(
                ServerReply::Read {
                    scid_sent: self.scid_sent,
                    has_set_peer_addr: self.has_set_peer_addr,
                },
            ),
            _ => None,
        }
    }

    /// Takes the answer to the pending request.
    pub fn advance(&mut self, reply: ServerReadReply)
        requires
            old(self).accepts(reply),
            old(self).well_formed(),
        ensures
            *final(self) == old(self).next(reply),
            final(self).well_formed(),
    {
        self.request = match (self.request, reply) {
            (ServerReadRequest::OnTimeout, _) => ServerReadRequest::Return,
            (ServerReadRequest::RecvFrom, ServerReadReply::WouldBlock) => ServerReadRequest::Return,
            (ServerReadRequest::RecvFrom, ServerReadReply::Received { len, from }) => {
                if self.has_set_peer_addr {
                    ServerReadRequest::PathRecv { len, from }
                } else {
                    ServerReadRequest::SetPeerAddr { len, from }
                }
            },
            (ServerReadRequest::SetPeerAddr { len, from }, _) => {
                self.has_set_peer_addr = true;
                ServerReadRequest::PathRecv { len, from }
            },
            (ServerReadRequest::PathRecv { .. }, ServerReadReply::Flag(ok)) => {
                if ok && self.first_path && !self.scid_sent {
                    ServerReadRequest::SourceCidsLeft
                } else {
                    ServerReadRequest::RecvFrom
                }
            },
            (ServerReadRequest::SourceCidsLeft, ServerReadReply::Flag(true)) => {
                ServerReadRequest::NewSourceCid
            },
            (ServerReadRequest::NewSourceCid, ServerReadReply::Flag(true)) => {
                self.scid_sent = true;
                ServerReadRequest::SourceCidsLeft
            },
            _ => ServerReadRequest::RecvFrom,
        };
    }
}

/// What led to the state that reading is in: the path is fed the datagrams that
/// come, and led to the origin of the first one if it leads nowhere yet. Only
/// the first path gives out identifiers. What was done stays done.
pub proof fn server_read_follows_its_replies(
    first_path: bool,
    scid_sent: bool,
    has_set_peer_addr: bool,
    events: bool,
    continue_write: bool,
    replies: Seq<ServerReadReply>,
)
    requires
        crate::machine::admits(
            ServerRead::start(first_path, scid_sent, has_set_peer_addr, events, continue_write),
            replies,
        ),
    ensures
        ({
            let start = ServerRead::start(
                first_path,
                scid_sent,
                has_set_peer_addr,
                events,
                continue_write,
            );
            let m = crate::machine::run(start, replies);
            let last = replies.last();
            let begun = replies.len() > 0;
            &&& m.well_formed()
            &&& m.first_path == first_path
            &&& scid_sent ==> m.scid_sent
            &&& has_set_peer_addr ==> m.has_set_peer_addr
            &&& m.request matches ServerReadRequest::SetPeerAddr { len, from } ==> begun && last
                == (ServerReadReply::Received { len, from })
            &&& m.request is OnTimeout ==> !begun && !events && !continue_write
            &&& m.request is NewSourceCid ==> first_path && begun && last == ServerReadReply::Flag(
                true,
            )
        }),
    decreases replies.len(),
{
    if replies.len() > 0 {
        server_read_follows_its_replies(
            first_path,
            scid_sent,
            has_set_peer_addr,
            events,
            continue_write,
            replies.drop_last(),
        );
    }
}

impl ServerRead {
    /// The datagram that is being fed to the path, if one is.
    pub open spec fn fed() -> spec_fn(ServerRead) -> Option<(usize, SocketAddr)> {
        |m: ServerRead|
            match m.request {
                ServerReadRequest::PathRecv { len, from } => Some((len, from)),
                _ => None,
            }
    }

    /// The path takes a datagram.
    pub open spec fn packet_taken() -> spec_fn(ServerRead, ServerReadReply) -> bool {
        |m: ServerRead, reply: ServerReadReply|
            m.request is PathRecv && reply == ServerReadReply::Flag(true)
    }

    /// The peer takes an identifier.
    pub open spec fn identifier_taken() -> spec_fn(ServerRead, ServerReadReply) -> bool {
        |m: ServerRead, reply: ServerReadReply|
            m.request is NewSourceCid && reply == ServerReadReply::Flag(true)
    }
}

/// The datagrams that came in, in order.
pub open spec fn datagrams_read(replies: Seq<ServerReadReply>) -> Seq<(usize, SocketAddr)>
    decreases replies.len(),
{
    if replies.len() == 0 {
        seq![]
    } else {
        let before = datagrams_read(replies.drop_last());
        match replies.last() {
            ServerReadReply::Received { len, from } => before.push((len, from)),
            _ => before,
        }
    }
}

/// The path is fed the datagrams that came in: all of them, in order, each one
/// once. One for which the path is still to be led to its origin waits.
pub proof fn server_feeds_what_it_reads(
    first_path: bool,
    scid_sent: bool,
    has_set_peer_addr: bool,
    events: bool,
    continue_write: bool,
    replies: Seq<ServerReadReply>,
)
    requires
        crate::machine::admits(
            ServerRead::start(first_path, scid_sent, has_set_peer_addr, events, continue_write),
            replies,
        ),
    ensures
        ({
            let start = ServerRead::start(
                first_path,
                scid_sent,
                has_set_peer_addr,
                events,
                continue_write,
            );
            let fed = crate::machine::issued(start, replies, ServerRead::fed());
            match crate::machine::run(start, replies).request {
                ServerReadRequest::SetPeerAddr { len, from } => datagrams_read(replies)
                    == fed.push((len, from)),
                _ => datagrams_read(replies) == fed,
            }
        }),
    decreases replies.len(),
{
    if replies.len() > 0 {
        server_feeds_what_it_reads(
            first_path,
            scid_sent,
            has_set_peer_addr,
            events,
            continue_write,
            replies.drop_last(),
        );
    }
}

/// Identifiers are given out on the first path alone, and only after the path
/// has taken a datagram. They count as given out once the peer has taken one.
pub proof fn identifiers_follow_a_packet(
    first_path: bool,
    scid_sent: bool,
    has_set_peer_addr: bool,
    events: bool,
    continue_write: bool,
    replies: Seq<ServerReadReply>,
)
    requires
        crate::machine::admits(
            ServerRead::start(first_path, scid_sent, has_set_peer_addr, events, continue_write),
            replies,
        ),
    ensures
        ({
            let start = ServerRead::start(
                first_path,
                scid_sent,
                has_set_peer_addr,
                events,
                continue_write,
            );
            let m = crate::machine::run(start, replies);
            let taken = crate::machine::answered(start, replies, ServerRead::packet_taken());
            let given = crate::machine::answered(start, replies, ServerRead::identifier_taken());
            &&& m.request is SourceCidsLeft || m.request is NewSourceCid ==> first_path && taken
            &&& given ==> first_path && taken
            &&& m.scid_sent <==> scid_sent || given
            &&& scid_sent ==> !given && !(m.request is NewSourceCid)
        }),
    decreases replies.len(),
{
    server_read_follows_its_replies(
        first_path,
        scid_sent,
        has_set_peer_addr,
        events,
        continue_write,
        replies,
    );
    if replies.len() > 0 {
        identifiers_follow_a_packet(
            first_path,
            scid_sent,
            has_set_peer_addr,
            events,
            continue_write,
            replies.drop_last(),
        );
    }
}

/// A path is led to a peer at most once, and not at all if it leads to one
/// already.
pub proof fn peer_address_is_set_once(
    first_path: bool,
    scid_sent: bool,
    has_set_peer_addr: bool,
    events: bool,
    continue_write: bool,
    replies: Seq<ServerReadReply>,
)
    requires
        crate::machine::admits(
            ServerRead::start(first_path, scid_sent, has_set_peer_addr, events, continue_write),
            replies,
        ),
    ensures
        ({
            let start = ServerRead::start(
                first_path,
                scid_sent,
                has_set_peer_addr,
                events,
                continue_write,
            );
            &&& crate::machine::visits(
                start,
                replies,
                |m: ServerRead| m.request is SetPeerAddr,
            ) <= 1
            &&& has_set_peer_addr ==> !(crate::machine::run(start, replies).request is SetPeerAddr)
        }),
{
    crate::machine::happens_at_most_once(
        ServerRead::start(first_path, scid_sent, has_set_peer_addr, events, continue_write),
        replies,
        |m: ServerRead| m.well_formed(),
        |m: ServerRead| m.request is SetPeerAddr,
        |m: ServerRead| m.has_set_peer_addr,
    );
    server_read_follows_its_replies(
        first_path,
        scid_sent,
        has_set_peer_addr,
        events,
        continue_write,
        replies,
    );
}

/// The limit of a burst after losses: three quarters of what it was, but not
/// below the minimum.
pub open spec fn reduced(max_send_burst: usize) -> usize {
    if max_send_burst / 4 * 3 >= MIN_SEND_BURST {
        (max_send_burst / 4 * 3) as usize
    } else {
        MIN_SEND_BURST
    }
}

fn reduce_burst(max_send_burst: usize) -> (r: usize)
    ensures
        r == reduced(max_send_burst),
{
    let less = max_send_burst / 4 * 3;
    if less >= MIN_SEND_BURST {
        less
    } else {
        MIN_SEND_BURST
    }
}

/// The most that is sent at once: whole datagrams within the quantum of the
/// congestion control and the limit of the path.
pub open spec fn burst_limit(send_quantum: usize, max_send_burst: usize) -> usize {
    let most = if send_quantum <= max_send_burst {
        send_quantum
    } else {
        max_send_burst
    };
    (most / MAX_DATAGRAM_SIZE * MAX_DATAGRAM_SIZE) as usize
}

/// Rounds the smaller of the two limits down to whole datagrams.
pub fn limit_burst(send_quantum: usize, max_send_burst: usize) -> (r: usize)
    ensures
        r == burst_limit(send_quantum, max_send_burst),
        r % MAX_DATAGRAM_SIZE == 0,
        r <= send_quantum,
        r <= max_send_burst,
        r + MAX_DATAGRAM_SIZE > send_quantum || r + MAX_DATAGRAM_SIZE > max_send_burst,
        send_quantum < MAX_DATAGRAM_SIZE ==> r == 0,
{
    let most = if send_quantum <= max_send_burst {
        send_quantum
    } else {
        max_send_burst
    };
    most / MAX_DATAGRAM_SIZE * MAX_DATAGRAM_SIZE
}

/// What a burst asks for.
#[derive(Clone, Copy, Debug, PartialEq, Eq, Structural)]
pub enum BurstRequest {
    /// Ask the QUIC stack for the next packet of the path, and have it written
    /// to the buffer from `start` on but not beyond `end`.
    SendOnPath { start: usize, end: usize },
    /// Report to the other threads that the path is done.
    SignalDone { status: MulticoreStatus },
    /// Close the connection, whatever comes of it.
    Close { cause: CloseCause },
    /// Hand the first `len` bytes of the buffer to the socket, for `to`.
    SendTo { len: usize, to: SocketAddr },
    /// The burst is over. The thread of the path ends if `finished`.
    Return { finished: bool },
}

/// The answers to a `BurstRequest`.
#[derive(Clone, Copy, Debug, PartialEq, Eq, Structural)]
pub enum BurstReply {
    Path(PathSend),
    /// Whether the report went out.
    Signalled(bool),
    Closed,
    Socket(SocketSend),
}

/// Collects packets of a path, and sends them at once.
#[derive(Clone, Copy, Debug, PartialEq, Eq, Structural)]
pub struct SendBurst {
    /// The most that is sent.
    pub limit: usize,
    /// Length of the packets that were collected.
    pub total_write: usize,
    /// Where the first packet that was collected goes, and the others with it.
    pub dst: Option<SocketAddr>,
    /// There may be more to write.
    pub continue_write: bool,
    /// The transfer on the path is complete.
    pub can_close_conn: bool,
    pub request: BurstRequest,
}

impl SendBurst {
    pub open spec fn with(self, request: BurstRequest) -> SendBurst {
        SendBurst { request, ..self }
    }

    /// Asks for another packet while there is room.
    pub open spec fn collect(self) -> SendBurst {
        if self.total_write < self.limit {
            self.with(BurstRequest::SendOnPath { start: self.total_write, end: self.limit })
        } else {
            self.flush()
        }
    }

    /// Sends what was collected.
    pub open spec fn flush(self) -> SendBurst {
        match self.dst {
            Some(to) if self.total_write > 0 => self.with(
                BurstRequest::SendTo { len: self.total_write, to },
            ),
            _ => self.with(BurstRequest::Return { finished: false }),
        }
    }

    /// What was collected fits the limit, and the limit fits the buffer.
    pub open spec fn well_formed(self) -> bool {
        &&& self.total_write <= self.limit <= MAX_BUF_SIZE
        &&& match self.request {
            BurstRequest::SendOnPath { start, end } => {
                &&& start == self.total_write
                &&& end == self.limit
                &&& start < end
            },
            BurstRequest::SendTo { len, to } => len == self.total_write && self.dst == Some(to),
            _ => true,
        }
    }

    /// The burst that is being handed to the socket, if it is.
    pub open spec fn datagram() -> spec_fn(SendBurst) -> Option<Outgoing> {
        |m: SendBurst|
            match m.request {
                BurstRequest::SendTo { len, to } => Some(Outgoing { len, to }),
                _ => None,
            }
    }

    /// How the burst ended, if it has.
    pub open spec fn ended(self) -> Option<BurstOutcome> {
        match self.request {
            BurstRequest::Return { finished: true } => Some(BurstOutcome::Finished),
            BurstRequest::Return { finished: false } => Some(
                BurstOutcome::Continue {
                    continue_write: self.continue_write,
                    can_close_conn: self.can_close_conn,
                },
            ),
            _ => None,
        }
    }

    /// The state in which a burst starts.
    pub open spec fn start(limit: usize, probed_my_path: bool, can_close_conn: bool) -> SendBurst {
        let idle = SendBurst {
            limit,
            total_write: 0,
            dst: None,
            continue_write: false,
            can_close_conn,
            request: BurstRequest::Return { finished: false },
        };
        if probed_my_path {
            idle.collect()
        } else {
            idle
        }
    }
}

impl Machine for SendBurst {
    type Reply = BurstReply;

    open spec fn accepts(self, reply: BurstReply) -> bool {
        match self.request {
            BurstRequest::SendOnPath { start, end } => reply matches BurstReply::Path(sent) && (sent
                matches PathSend::Packet { len, .. } ==> len <= end - start),
            BurstRequest::SignalDone { .. } => reply is Signalled,
            BurstRequest::Close { .. } => reply is Closed,
            // A socket that fails otherwise than by blocking ends the server.
            BurstRequest::SendTo { .. } => reply matches BurstReply::Socket(sent) && !(sent
                is Failed),
            BurstRequest::Return { .. } => false,
        }
    }

    open spec fn next(self, reply: BurstReply) -> SendBurst {
        match reply {
            // All datagrams of a burst but the last are of the same size.
            BurstReply::Path(PathSend::Packet { len, to }) => {
                let more = SendBurst {
                    total_write: (self.total_write + len) as usize,
                    dst: Some(
                        match self.dst {
                            Some(first) => first,
                            None => to,
                        },
                    ),
                    ..self
                };
                if len < MAX_DATAGRAM_SIZE {
                    SendBurst { continue_write: true, ..more }.flush()
                } else {
                    more.collect()
                }
            },
            BurstReply::Path(PathSend::Done) => self.flush(),
            BurstReply::Path(PathSend::Draining) => self.with(
                BurstRequest::SignalDone {
                    status: crate::transport::draining_status(self.can_close_conn),
                },
            ),
            BurstReply::Path(PathSend::Failed) => self.with(
                BurstRequest::Close { cause: CloseCause::SendFailure },
            ),
            BurstReply::Signalled(true) => self.with(BurstRequest::Return { finished: true }),
            BurstReply::Signalled(false) => SendBurst { can_close_conn: true, ..self }.flush(),
            BurstReply::Closed => self.flush(),
            BurstReply::Socket(_) => SendBurst {
                continue_write: self.continue_write || self.total_write >= self.limit,
                ..self.with(BurstRequest::Return { finished: false })
            },
        }
    }
}

impl SendBurst {
    /// Starts a burst of at most `limit` bytes. Nothing is sent on a path that
    /// is not probed.
    pub fn new(limit: usize, probed_my_path: bool, can_close_conn: bool) -> (r: SendBurst)
        requires
            limit <= MAX_BUF_SIZE,
        ensures
            r == SendBurst::start(limit, probed_my_path, can_close_conn),
            r.well_formed(),
    {
        SendBurst {
            limit,
            total_write: 0,
            dst: None,
            continue_write: false,
            can_close_conn,
            request: if probed_my_path && 0 < limit {
                BurstRequest::SendOnPath { start: 0, end: limit }
            } else {
                BurstRequest::Return { finished: false }
            },
        }
    }

    /// Tells whether `reply` answers the pending request.
    pub fn expects(&self, reply: &BurstReply) -> (r: bool)
        requires
            self.well_formed(),
        ensures
            r == self.accepts(*reply),
    {
        match (self.request, reply) {
            (
                BurstRequest::SendOnPath { start, end },
                BurstReply::Path(PathSend::Packet { len, .. }),
            ) => *len <= end - start,
            (BurstRequest::SendOnPath { .. }, BurstReply::Path(_)) => true,
            (BurstRequest::SignalDone { .. }, BurstReply::Signalled(_)) => true,
            (BurstRequest::Close { .. }, BurstReply::Closed) => true,
            (BurstRequest::SendTo { .. }, BurstReply::Socket(SocketSend::Failed)) => false,
            (BurstRequest::SendTo { .. }, BurstReply::Socket(_)) => true,
            _ => false,
        }
    }

    /// Tells how the burst ended, if it has.
    pub fn outcome(&self) -> (r: Option<BurstOutcome>)
        ensures
            r == self.ended(),
    {
        match self.request {
            BurstRequest::Return { finished } => if finished {
                Some(BurstOutcome::Finished)
            } else {
                Some(
                    BurstOutcome::Continue {
                        continue_write: self.continue_write,
                        can_close_conn: self.can_close_conn,
                    },
                )
            },
            _ => None,
        }
    }

    fn go_flush(&mut self)
        ensures
            *final(self) == old(self).flush(),
    {
        self.request = match self.dst {
            Some(to) => if self.total_write > 0 {
                BurstRequest::SendTo { len: self.total_write, to }
            } else {
                BurstRequest::Return { finished: false }
            },
            None => BurstRequest::Return { finished: false },
        };
    }

    /// Takes the answer to the pending request.
    pub fn advance(&mut self, reply: BurstReply)
        requires
            old(self).accepts(reply),
            old(self).well_formed(),
        ensures
            *final(self) == old(self).next(reply),
            final(self).well_formed(),
    {
        match reply {
            BurstReply::Path(PathSend::Packet { len, to }) => {
                self.total_write = self.total_write + len;
                if self.dst.is_none() {
                    self.dst = Some(to);
                }
                if len < MAX_DATAGRAM_SIZE {
                    self.continue_write = true;
                    self.go_flush();
                } else if self.total_write < self.limit {
                    self.request = BurstRequest::SendOnPath {
                        start: self.total_write,
                        end: self.limit,
                    };
                } else {
                    self.go_flush();
                }
            },
            BurstReply::Path(PathSend::Done) => {
                self.go_flush();
            },
            BurstReply::Path(PathSend::Draining) => {
                self.request = BurstRequest::SignalDone {
                    status: status_when_draining(self.can_close_conn),
                };
            },
            BurstReply::Path(PathSend::Failed) => {
                self.request = BurstRequest::Close { cause: CloseCause::SendFailure };
            },
            BurstReply::Signalled(signalled) => {
                if signalled {
                    self.request = BurstRequest::Return { finished: true };
                } else {
                    self.can_close_conn = true;
                    self.go_flush();
                }
            },
            BurstReply::Closed => {
                self.go_flush();
            },
            BurstReply::Socket(_) => {
                if self.total_write >= self.limit {
                    self.continue_write = true;
                }
                self.request = BurstRequest::Return { finished: false };
            },
        }
    }
}

/// The packets that were collected.
pub open spec fn packets(replies: Seq<BurstReply>) -> Seq<Outgoing>
    decreases replies.len(),
{
    if replies.len() == 0 {
        seq![]
    } else {
        let before = packets(replies.drop_last());
        match replies.last() {
            BurstReply::Path(PathSend::Packet { len, to }) => before.push(Outgoing { len, to }),
            _ => before,
        }
    }
}

/// The length of all the packets together.
pub open spec fn total(packets: Seq<Outgoing>) -> int
    decreases packets.len(),
{
    if packets.len() == 0 {
        0
    } else {
        total(packets.drop_last()) + packets.last().len
    }
}

/// A burst sends the packets that were collected, all of them and at once, to
/// where the first one goes. It stays within its limit, and every packet but the
/// last is a full datagram. Nothing is collected on a path that is not probed,
/// nor when there is no room for anything.
pub proof fn bursts_are_of_full_datagrams(
    limit: usize,
    probed_my_path: bool,
    can_close_conn: bool,
    replies: Seq<BurstReply>,
)
    requires
        limit <= MAX_BUF_SIZE,
        crate::machine::admits(SendBurst::start(limit, probed_my_path, can_close_conn), replies),
    ensures
        ({
            let m = crate::machine::run(
                SendBurst::start(limit, probed_my_path, can_close_conn),
                replies,
            );
            let collected = packets(replies);
            &&& m.well_formed()
            &&& m.limit == limit
            &&& m.total_write == total(collected) <= limit
            &&& m.dst == if collected.len() > 0 {
                Some(collected[0].to)
            } else {
                None
            }
            &&& m.request matches BurstRequest::SendTo { len, to } ==> len == total(collected) > 0
                && to == collected[0].to
            &&& forall|i: int|
                0 <= i < collected.len() - 1 ==> (#[trigger] collected[i]).len >= MAX_DATAGRAM_SIZE
            &&& m.request is SendOnPath ==> forall|i: int|
                0 <= i < collected.len() ==> (#[trigger] collected[i]).len >= MAX_DATAGRAM_SIZE
            &&& !probed_my_path || limit == 0 ==> replies.len() == 0 && m.request is Return
            &&& can_close_conn ==> m.can_close_conn
        }),
    decreases replies.len(),
{
    if replies.len() > 0 {
        let before = replies.drop_last();
        bursts_are_of_full_datagrams(limit, probed_my_path, can_close_conn, before);
        if let BurstReply::Path(PathSend::Packet { .. }) = replies.last() {
            assert(packets(replies).drop_last() =~= packets(before));
        }
    }
}

/// While the congestion control does not let a whole datagram go, the path is not
/// asked for packets and nothing is sent.
pub proof fn small_quanta_send_nothing(
    send_quantum: usize,
    max_send_burst: usize,
    probed_my_path: bool,
    can_close_conn: bool,
    replies: Seq<BurstReply>,
)
    requires
        send_quantum < MAX_DATAGRAM_SIZE,
        crate::machine::admits(
            SendBurst::start(
                burst_limit(send_quantum, max_send_burst),
                probed_my_path,
                can_close_conn,
            ),
            replies,
        ),
    ensures
        replies.len() == 0,
        SendBurst::start(
            burst_limit(send_quantum, max_send_burst),
            probed_my_path,
            can_close_conn,
        ).ended() == Some(BurstOutcome::Continue { continue_write: false, can_close_conn }),
{
    assert(burst_limit(send_quantum, max_send_burst) == 0);
    bursts_are_of_full_datagrams(0, probed_my_path, can_close_conn, replies);
}

/// A burst is handed to the socket at most once. When the thread of the path goes
/// on, it was handed over if and only if something was collected: in one piece, to
/// where the first packet goes.
pub proof fn bursts_are_sent_once(
    limit: usize,
    probed_my_path: bool,
    can_close_conn: bool,
    replies: Seq<BurstReply>,
)
    requires
        limit <= MAX_BUF_SIZE,
        crate::machine::admits(SendBurst::start(limit, probed_my_path, can_close_conn), replies),
    ensures
        ({
            let start = SendBurst::start(limit, probed_my_path, can_close_conn);
            let m = crate::machine::run(start, replies);
            let handed = crate::machine::issued(start, replies, SendBurst::datagram());
            let collected = packets(replies);
            let whole = if total(collected) > 0 {
                seq![Outgoing { len: total(collected) as usize, to: collected[0].to }]
            } else {
                seq![]
            };
            &&& m.request is SendTo || m.request == (BurstRequest::Return { finished: false })
                ==> handed == whole
            &&& !(m.request is SendTo || m.request == (BurstRequest::Return { finished: false }))
                ==> handed.len() == 0
        }),
    decreases replies.len(),
{
    bursts_are_of_full_datagrams(limit, probed_my_path, can_close_conn, replies);
    if replies.len() > 0 {
        bursts_are_sent_once(limit, probed_my_path, can_close_conn, replies.drop_last());
        bursts_are_of_full_datagrams(limit, probed_my_path, can_close_conn, replies.drop_last());
    }
}

/// What the thread of a path of the server asks for.
#[derive(Clone, Copy, Debug, PartialEq, Eq, Structural)]
pub enum ServerRequest {
    /// Wait for the socket to become readable.
    Poll { timeout_ms: u64 },
    /// Read the datagrams of the path.
    Read { events: bool },
    /// Take the reports of the other threads.
    HandleDonePaths,
    /// Find out whether the path can be used for data.
    IsActive,
    /// Find out whether the peer selected the protocol of the server.
    CheckProtocol,
    /// Create the transfer on the path.
    CreateTransfer { transfer_size: Option<usize> },
    /// Close the connection.
    Close { cause: CloseCause },
    /// Find out how far the handshake is.
    QueryHandshake,
    /// Write the data of the transfer.
    SendData,
    /// Find out whether all data of the path was acknowledged.
    NoDataInflight,
    /// Find out whether the peer has closed the connection.
    PeerClosed,
    /// Report to the other threads that the path is done.
    SignalDone { status: MulticoreStatus },
    /// Handle the events of the path.
    HandlePathEvents { probed_my_path: bool },
    /// Find out whether the loss rate has grown.
    LossGrown,
    /// Find out how much the congestion control lets out at once.
    SendQuantum,
    /// Send a burst.
    SendBurst { limit: usize, probed_my_path: bool, can_close_conn: bool },
    /// Find out whether the connection is closed.
    IsClosed,
    /// The thread ends.
    Return,
}

/// How a burst ended.
#[derive(Clone, Copy, Debug, PartialEq, Eq, Structural)]
pub enum BurstOutcome {
    /// The thread of the path ends.
    Finished,
    Continue { continue_write: bool, can_close_conn: bool },
}

/// The answers to a `ServerRequest`.
#[derive(Clone, Copy, Debug, PartialEq, Eq, Structural)]
pub enum ServerReply {
    /// The request was carried out.
    Done,
    /// The answer to a question, or the success of an attempt.
    Flag(bool),
    /// How reading ended.
    Read { scid_sent: bool, has_set_peer_addr: bool },
    /// The number of paths that are still active.
    ActivePaths(usize),
    Handshake { in_early_data: bool, established: bool },
    /// The path of the thread was probed.
    Probed(bool),
    Quantum(usize),
    Burst(BurstOutcome),
}

/// The thread of one path of the server.
#[derive(Clone, Copy, Debug, PartialEq, Eq, Structural)]
pub struct ServerThread {
    /// The connection started on this path. It takes the reports of the
    /// threads of the other paths.
    pub first_path: bool,
    pub nb_active_paths: usize,
    /// The share of the path in the transfer.
    pub transfer_size: Option<usize>,
    /// There may be more to write.
    pub continue_write: bool,
    pub max_send_burst: usize,
    /// The transfer on the path was created.
    pub created_app_conn: bool,
    pub is_established: bool,
    pub is_in_early_data: bool,
    /// The transfer on the path is complete.
    pub can_close_conn: bool,
    /// Identifiers were given to the peer.
    pub scid_sent: bool,
    /// It is known where the path leads to.
    pub has_set_peer_addr: bool,
    /// The path was probed, or needs no probe.
    pub probed_my_path: bool,
    pub request: ServerRequest,
}

impl ServerThread {
    pub open spec fn with(self, request: ServerRequest) -> ServerThread {
        ServerThread { request, ..self }
    }

    /// Waits, unless there may be more to write.
    pub open spec fn poll(self) -> ServerThread {
        self.with(
            ServerRequest::Poll {
                timeout_ms: if self.continue_write {
                    0
                } else {
                    POLL_TIMEOUT_MS
                },
            },
        )
    }

    /// The transfer on the path is created once, when the handshake has come
    /// far enough.
    pub open spec fn start_transfer(self) -> ServerThread {
        if self.created_app_conn {
            self.transfer()
        } else if self.is_in_early_data || self.is_established {
            self.with(ServerRequest::IsActive)
        } else {
            self.with(ServerRequest::QueryHandshake)
        }
    }

    pub open spec fn transfer(self) -> ServerThread {
        if self.created_app_conn && !self.can_close_conn {
            self.with(ServerRequest::SendData)
        } else {
            self.wind_up()
        }
    }

    pub open spec fn wind_up(self) -> ServerThread {
        if self.can_close_conn {
            self.with(ServerRequest::NoDataInflight)
        } else {
            self.path_events()
        }
    }

    pub open spec fn signal(self) -> ServerThread {
        self.with(ServerRequest::SignalDone { status: MulticoreStatus::Success })
    }

    pub open spec fn path_events(self) -> ServerThread {
        self.with(ServerRequest::HandlePathEvents { probed_my_path: self.probed_my_path })
    }

    pub open spec fn send_burst(self, quantum: usize) -> ServerThread {
        self.with(
            ServerRequest::SendBurst {
                limit: burst_limit(quantum, self.max_send_burst),
                probed_my_path: self.probed_my_path,
                can_close_conn: self.can_close_conn,
            },
        )
    }

    /// The state after the answer to a question.
    pub open spec fn after_flag(self, flag: bool) -> ServerThread {
        match self.request {
            ServerRequest::Poll { .. } => self.with(ServerRequest::Read { events: flag }),
            ServerRequest::IsActive => self.with(
                if flag {
                    ServerRequest::CheckProtocol
                } else {
                    ServerRequest::QueryHandshake
                },
            ),
            ServerRequest::CheckProtocol => self.with(
                if flag {
                    ServerRequest::CreateTransfer { transfer_size: self.transfer_size }
                } else {
                    ServerRequest::Close { cause: CloseCause::WrongProtocol }
                },
            ),
            ServerRequest::SendData => ServerThread {
                can_close_conn: self.can_close_conn || flag,
                ..self
            }.wind_up(),
            // The thread of the first path outlives those of the others.
            ServerRequest::NoDataInflight => if flag && !self.first_path {
                self.signal()
            } else {
                self.with(ServerRequest::PeerClosed)
            },
            ServerRequest::PeerClosed => if flag {
                self.signal()
            } else {
                self.path_events()
            },
            ServerRequest::SignalDone { .. } => if flag {
                self.with(ServerRequest::Return)
            } else {
                self.path_events()
            },
            ServerRequest::LossGrown => ServerThread {
                max_send_burst: if flag {
                    reduced(self.max_send_burst)
                } else {
                    self.max_send_burst
                },
                ..self.with(ServerRequest::SendQuantum)
            },
            ServerRequest::IsClosed => if flag {
                self.with(ServerRequest::Return)
            } else {
                self.poll()
            },
            _ => self,
        }
    }

    /// The state after a burst. The last active thread ends when the
    /// connection is closed.
    pub open spec fn after_burst(self, outcome: BurstOutcome) -> ServerThread {
        match outcome {
            BurstOutcome::Finished => self.with(ServerRequest::Return),
            BurstOutcome::Continue { continue_write, can_close_conn } => {
                let sent = ServerThread { continue_write, can_close_conn, ..self };
                if can_close_conn && self.nb_active_paths == 1 {
                    sent.with(ServerRequest::IsClosed)
                } else {
                    sent.poll()
                }
            },
        }
    }

    /// Bursts are limited to a range.
    pub open spec fn well_formed(self) -> bool {
        MIN_SEND_BURST <= self.max_send_burst <= MAX_BUF_SIZE
    }

    /// The state in which a thread starts.
    pub open spec fn start(
        first_path: bool,
        nb_initiated_paths: usize,
        transfer_size: Option<usize>,
    ) -> ServerThread {
        ServerThread {
            first_path,
            nb_active_paths: nb_initiated_paths,
            transfer_size,
            continue_write: false,
            max_send_burst: MAX_BUF_SIZE,
            created_app_conn: false,
            is_established: false,
            is_in_early_data: false,
            can_close_conn: false,
            scid_sent: false,
            has_set_peer_addr: first_path,
            probed_my_path: first_path,
            request: ServerRequest::Poll { timeout_ms: POLL_TIMEOUT_MS },
        }
    }
}

impl Machine for ServerThread {
    type Reply = ServerReply;

    open spec fn accepts(self, reply: ServerReply) -> bool {
        match self.request {
            ServerRequest::Poll { .. } | ServerRequest::IsActive | ServerRequest::CheckProtocol
            | ServerRequest::SendData | ServerRequest::NoDataInflight | ServerRequest::PeerClosed
            | ServerRequest::SignalDone { .. } | ServerRequest::LossGrown
            | ServerRequest::IsClosed => reply is Flag,
            ServerRequest::Read { .. } => reply matches ServerReply::Read {
                scid_sent,
                has_set_peer_addr,
            } && (self.scid_sent ==> scid_sent) && (self.has_set_peer_addr ==> has_set_peer_addr),
            ServerRequest::HandleDonePaths => reply is ActivePaths,
            ServerRequest::CreateTransfer { .. } | ServerRequest::Close { .. } => reply is Done,
            ServerRequest::QueryHandshake => reply is Handshake,
            ServerRequest::HandlePathEvents { .. } => reply matches ServerReply::Probed(probed) && (
            self.probed_my_path ==> probed),
            ServerRequest::SendQuantum => reply is Quantum,
            ServerRequest::SendBurst { .. } => reply matches ServerReply::Burst(outcome) && (outcome
                matches BurstOutcome::Continue { can_close_conn, .. } ==> (self.can_close_conn
                ==> can_close_conn)),
            ServerRequest::Return => false,
        }
    }

    open spec fn next(self, reply: ServerReply) -> ServerThread {
        match reply {
            ServerReply::Flag(flag) => self.after_flag(flag),
            ServerReply::Read { scid_sent, has_set_peer_addr } => {
                let read = ServerThread { scid_sent, has_set_peer_addr, ..self };
                if self.first_path {
                    read.with(ServerRequest::HandleDonePaths)
                } else {
                    read.start_transfer()
                }
            },
            ServerReply::ActivePaths(n) => ServerThread {
                nb_active_paths: n,
                ..self
            }.start_transfer(),
            ServerReply::Handshake { in_early_data, established } => ServerThread {
                is_in_early_data: in_early_data,
                is_established: established,
                ..self
            }.transfer(),
            // Answers the creation of the transfer, or the closing of the
            // connection.
            ServerReply::Done => ServerThread {
                created_app_conn: self.created_app_conn || self.request is CreateTransfer,
                ..self
            }.transfer(),
            ServerReply::Probed(probed) => ServerThread {
                probed_my_path: probed,
                continue_write: false,
                ..self.with(ServerRequest::LossGrown)
            },
            ServerReply::Quantum(quantum) => self.send_burst(quantum),
            ServerReply::Burst(outcome) => self.after_burst(outcome),
        }
    }
}

impl ServerThread {
    /// Starts the thread of one of `nb_initiated_paths` paths.
    pub fn new(
        first_path: bool,
        nb_initiated_paths: usize,
        transfer_size: Option<usize>,
    ) -> (r: ServerThread)
        ensures
            r == ServerThread::start(first_path, nb_initiated_paths, transfer_size),
            r.well_formed(),
    {
        ServerThread {
            first_path,
            nb_active_paths: nb_initiated_paths,
            transfer_size,
            continue_write: false,
            max_send_burst: MAX_BUF_SIZE,
            created_app_conn: false,
            is_established: false,
            is_in_early_data: false,
            can_close_conn: false,
            scid_sent: false,
            has_set_peer_addr: first_path,
            probed_my_path: first_path,
            request: ServerRequest::Poll { timeout_ms: POLL_TIMEOUT_MS },
        }
    }

    /// Tells whether `reply` answers the pending request.
    pub fn expects(&self, reply: &ServerReply) -> (r: bool)
        ensures
            r == self.accepts(*reply),
    {
        match (self.request, reply) {
            (ServerRequest::Poll { .. }, ServerReply::Flag(_)) => true,
            (ServerRequest::IsActive, ServerReply::Flag(_)) => true,
            (ServerRequest::CheckProtocol, ServerReply::Flag(_)) => true,
            (ServerRequest::SendData, ServerReply::Flag(_)) => true,
            (ServerRequest::NoDataInflight, ServerReply::Flag(_)) => true,
            (ServerRequest::PeerClosed, ServerReply::Flag(_)) => true,
            (ServerRequest::SignalDone { .. }, ServerReply::Flag(_)) => true,
            (ServerRequest::LossGrown, ServerReply::Flag(_)) => true,
            (ServerRequest::IsClosed, ServerReply::Flag(_)) => true,
            (
                ServerRequest::Read { .. },
                ServerReply::Read { scid_sent, has_set_peer_addr },
            ) => (!self.scid_sent || *scid_sent) && (!self.has_set_peer_addr || *has_set_peer_addr),
            (ServerRequest::HandleDonePaths, ServerReply::ActivePaths(_)) => true,
            (ServerRequest::CreateTransfer { .. }, ServerReply::Done) => true,
            (ServerRequest::Close { .. }, ServerReply::Done) => true,
            (ServerRequest::QueryHandshake, ServerReply::Handshake { .. }) => true,
            (ServerRequest::HandlePathEvents { .. }, ServerReply::Probed(probed)) => {
                !self.probed_my_path || *probed
            },
            (ServerRequest::SendQuantum, ServerReply::Quantum(_)) => true,
            (
                ServerRequest::SendBurst { .. },
                ServerReply::Burst(BurstOutcome::Continue { can_close_conn, .. }),
            ) => !self.can_close_conn || *can_close_conn,
            (ServerRequest::SendBurst { .. }, ServerReply::Burst(_)) => true,
            _ => false,
        }
    }

    fn asking(self, request: ServerRequest) -> (r: ServerThread)
        ensures
            r == self.with(request),
    {
        ServerThread { request, ..self }
    }

    fn polling(self) -> (r: ServerThread)
        ensures
            r == self.poll(),
    {
        self.asking(
            ServerRequest::Poll {
                timeout_ms: if self.continue_write {
                    0
                } else {
                    POLL_TIMEOUT_MS
                },
            },
        )
    }

    fn starting_transfer(self) -> (r: ServerThread)
        ensures
            r == self.start_transfer(),
    {
        if self.created_app_conn {
            self.transferring()
        } else if self.is_in_early_data || self.is_established {
            self.asking(ServerRequest::IsActive)
        } else {
            self.asking(ServerRequest::QueryHandshake)
        }
    }

    fn transferring(self) -> (r: ServerThread)
        ensures
            r == self.transfer(),
    {
        if self.created_app_conn && !self.can_close_conn {
            self.asking(ServerRequest::SendData)
        } else {
            self.winding_up()
        }
    }

    fn winding_up(self) -> (r: ServerThread)
        ensures
            r == self.wind_up(),
    {
        if self.can_close_conn {
            self.asking(ServerRequest::NoDataInflight)
        } else {
            self.handling_path_events()
        }
    }

    fn signalling(self) -> (r: ServerThread)
        ensures
            r == self.signal(),
    {
        self.asking(ServerRequest::SignalDone { status: MulticoreStatus::Success })
    }

    fn handling_path_events(self) -> (r: ServerThread)
        ensures
            r == self.path_events(),
    {
        self.asking(ServerRequest::HandlePathEvents { probed_my_path: self.probed_my_path })
    }

    fn sending_burst(self, quantum: usize) -> (r: ServerThread)
        ensures
            r == self.send_burst(quantum),
    {
        self.asking(
            ServerRequest::SendBurst {
                limit: limit_burst(quantum, self.max_send_burst),
                probed_my_path: self.probed_my_path,
                can_close_conn: self.can_close_conn,
            },
        )
    }

    fn take_flag(self, flag: bool) -> (r: ServerThread)
        requires
            self.well_formed(),
        ensures
            r == self.after_flag(flag),
            r.well_formed(),
    {
        match self.request {
            ServerRequest::Poll { .. } => self.asking(ServerRequest::Read { events: flag }),
            ServerRequest::IsActive => self.asking(
                if flag {
                    ServerRequest::CheckProtocol
                } else {
                    ServerRequest::QueryHandshake
                },
            ),
            ServerRequest::CheckProtocol => self.asking(
                if flag {
                    ServerRequest::CreateTransfer { transfer_size: self.transfer_size }
                } else {
                    ServerRequest::Close { cause: CloseCause::WrongProtocol }
                },
            ),
            ServerRequest::SendData => ServerThread {
                can_close_conn: self.can_close_conn || flag,
                ..self
            }.winding_up(),
            ServerRequest::NoDataInflight => if flag && !self.first_path {
                self.signalling()
            } else {
                self.asking(ServerRequest::PeerClosed)
            },
            ServerRequest::PeerClosed => if flag {
                self.signalling()
            } else {
                self.handling_path_events()
            },
            ServerRequest::SignalDone { .. } => if flag {
                self.asking(ServerRequest::Return)
            } else {
                self.handling_path_events()
            },
            ServerRequest::LossGrown => ServerThread {
                max_send_burst: if flag {
                    reduce_burst(self.max_send_burst)
                } else {
                    self.max_send_burst
                },
                request: ServerRequest::SendQuantum,
                ..self
            },
            ServerRequest::IsClosed => if flag {
                self.asking(ServerRequest::Return)
            } else {
                self.polling()
            },
            _ => self,
        }
    }

    fn take_burst(self, outcome: BurstOutcome) -> (r: ServerThread)
        ensures
            r == self.after_burst(outcome),
    {
        match outcome {
            BurstOutcome::Finished => self.asking(ServerRequest::Return),
            BurstOutcome::Continue { continue_write, can_close_conn } => {
                let sent = ServerThread { continue_write, can_close_conn, ..self };
                if can_close_conn && self.nb_active_paths == 1 {
                    sent.asking(ServerRequest::IsClosed)
                } else {
                    sent.polling()
                }
            },
        }
    }

    /// Takes the answer to the pending request.
    pub fn advance(&mut self, reply: ServerReply)
        requires
            old(self).accepts(reply),
            old(self).well_formed(),
        ensures
            *final(self) == old(self).next(reply),
            final(self).well_formed(),
    {
        let thread = *self;
        *self = match reply {
            ServerReply::Flag(flag) => thread.take_flag(flag),
            ServerReply::Read { scid_sent, has_set_peer_addr } => {
                let read = ServerThread { scid_sent, has_set_peer_addr, ..thread };
                if thread.first_path {
                    read.asking(ServerRequest::HandleDonePaths)
                } else {
                    read.starting_transfer()
                }
            },
            ServerReply::ActivePaths(n) => ServerThread {
                nb_active_paths: n,
                ..thread
            }.starting_transfer(),
            ServerReply::Handshake { in_early_data, established } => ServerThread {
                is_in_early_data: in_early_data,
                is_established: established,
                ..thread
            }.transferring(),
            ServerReply::Done => ServerThread {
                created_app_conn: thread.created_app_conn || matches!(
                    thread.request,
                    ServerRequest::CreateTransfer { .. }
                ),
                ..thread
            }.transferring(),
            ServerReply::Probed(probed) => ServerThread {
                probed_my_path: probed,
                continue_write: false,
                request: ServerRequest::LossGrown,
                ..thread
            },
            ServerReply::Quantum(quantum) => thread.sending_burst(quantum),
            ServerReply::Burst(outcome) => thread.take_burst(outcome),
        };
    }
}

impl ServerThread {
    /// What each pending request tells about the thread.
    pub open spec fn coherent(self) -> bool {
        &&& self.well_formed()
        &&& self.first_path ==> self.probed_my_path && self.has_set_peer_addr
        &&& match self.request {
            ServerRequest::Poll { timeout_ms } => timeout_ms == if self.continue_write {
                0
            } else {
                POLL_TIMEOUT_MS
            },
            ServerRequest::HandleDonePaths => self.first_path,
            ServerRequest::QueryHandshake => !self.created_app_conn,
            ServerRequest::IsActive | ServerRequest::CheckProtocol => !self.created_app_conn && (
            self.is_in_early_data || self.is_established),
            ServerRequest::CreateTransfer { transfer_size } => {
                &&& !self.created_app_conn
                &&& self.is_in_early_data || self.is_established
                &&& transfer_size == self.transfer_size
            },
            ServerRequest::Close { cause } => !self.created_app_conn && cause
                == CloseCause::WrongProtocol,
            ServerRequest::SendData => self.created_app_conn && !self.can_close_conn,
            ServerRequest::NoDataInflight | ServerRequest::PeerClosed => self.can_close_conn,
            ServerRequest::SignalDone { status } => self.can_close_conn && status
                == MulticoreStatus::Success,
            ServerRequest::HandlePathEvents { probed_my_path } => probed_my_path
                == self.probed_my_path,
            ServerRequest::SendBurst { limit, probed_my_path, can_close_conn } => {
                &&& limit % MAX_DATAGRAM_SIZE == 0
                &&& limit <= self.max_send_burst
                &&& probed_my_path == self.probed_my_path
                &&& can_close_conn == self.can_close_conn
            },
            ServerRequest::IsClosed => self.can_close_conn && self.nb_active_paths == 1,
            _ => true,
        }
    }
}

/// A thread of the server is coherent in every state of every run: bursts are of
/// whole datagrams within the limits, the transfer waits for the handshake, and
/// data is sent only on a transfer that was created and is not complete.
pub proof fn server_threads_stay_coherent(
    first_path: bool,
    nb_initiated_paths: usize,
    transfer_size: Option<usize>,
    replies: Seq<ServerReply>,
)
    requires
        crate::machine::admits(
            ServerThread::start(first_path, nb_initiated_paths, transfer_size),
            replies,
        ),
    ensures
        ({
            let m = crate::machine::run(
                ServerThread::start(first_path, nb_initiated_paths, transfer_size),
                replies,
            );
            &&& m.coherent()
            &&& m.first_path == first_path
            &&& m.transfer_size == transfer_size
        }),
{
    let inv = |m: ServerThread|
        m.coherent() && m.first_path == first_path && m.transfer_size == transfer_size;
    assert forall|m: ServerThread, reply: ServerReply| inv(m) && m.accepts(reply) implies inv(
        #[trigger] m.next(reply),
    ) by {
        lemma_coherent_step(m, reply);
    }
    crate::machine::invariant_holds(
        ServerThread::start(first_path, nb_initiated_paths, transfer_size),
        replies,
        inv,
    );
}

proof fn lemma_coherent_step(m: ServerThread, reply: ServerReply)
    requires
        m.coherent(),
        m.accepts(reply),
    ensures
        m.next(reply).coherent(),
        m.next(reply).first_path == m.first_path,
        m.next(reply).transfer_size == m.transfer_size,
        m.next(reply).max_send_burst <= m.max_send_burst,
{
    assert(reply matches ServerReply::Quantum(quantum) ==> burst_limit(quantum, m.max_send_burst)
        % MAX_DATAGRAM_SIZE == 0 && burst_limit(quantum, m.max_send_burst) <= m.max_send_burst);
}

/// Whenever it is asked for, the loss on the path has not grown.
pub open spec fn loss_never_grows(start: ServerThread, replies: Seq<ServerReply>) -> bool
    decreases replies.len(),
{
    replies.len() == 0 || {
        &&& loss_never_grows(start, replies.drop_last())
        &&& crate::machine::run(start, replies.drop_last()).request is LossGrown ==> replies.last()
            == ServerReply::Flag(false)
    }
}

/// A burst is limited by the quantum that the congestion control has just given
/// and by the limit of the path, which stays at the size of the buffer while the
/// loss does not grow.
pub proof fn bursts_follow_the_quantum(
    first_path: bool,
    nb_initiated_paths: usize,
    transfer_size: Option<usize>,
    replies: Seq<ServerReply>,
)
    requires
        crate::machine::admits(
            ServerThread::start(first_path, nb_initiated_paths, transfer_size),
            replies,
        ),
    ensures
        ({
            let start = ServerThread::start(first_path, nb_initiated_paths, transfer_size);
            let m = crate::machine::run(start, replies);
            &&& m.max_send_burst <= MAX_BUF_SIZE
            &&& loss_never_grows(start, replies) ==> m.max_send_burst == MAX_BUF_SIZE
            &&& m.request matches ServerRequest::SendBurst { limit, .. } ==> {
                &&& replies.len() > 0
                &&& replies.last() is Quantum
                &&& limit == burst_limit(replies.last()->Quantum_0, m.max_send_burst)
                &&& limit <= 64800
            }
        }),
    decreases replies.len(),
{
    if replies.len() > 0 {
        let start = ServerThread::start(first_path, nb_initiated_paths, transfer_size);
        bursts_follow_the_quantum(
            first_path,
            nb_initiated_paths,
            transfer_size,
            replies.drop_last(),
        );
        lemma_quantum_step(crate::machine::run(start, replies.drop_last()), replies.last());
    }
}

proof fn lemma_quantum_step(m: ServerThread, reply: ServerReply)
    requires
        m.accepts(reply),
        m.max_send_burst <= MAX_BUF_SIZE,
    ensures
        ({
            let later = m.next(reply);
            &&& later.max_send_burst <= MAX_BUF_SIZE
            &&& !(m.request is LossGrown && reply == ServerReply::Flag(true))
                ==> later.max_send_burst == m.max_send_burst
            &&& later.request matches ServerRequest::SendBurst { limit, .. } ==> {
                &&& reply is Quantum
                &&& limit == burst_limit(reply->Quantum_0, later.max_send_burst)
                &&& limit <= 64800
            }
        }),
{
}

/// `events` are the replies to the handling of the path events that comes to
/// `outcome`.
pub open spec fn events_come_to(
    probed_my_path: bool,
    events: Seq<crate::path_events::PathEventReply>,
    outcome: bool,
) -> bool {
    let start = crate::path_events::ServerPathEvents::start(probed_my_path);
    &&& crate::machine::admits(start, events)
    &&& crate::machine::run(start, events).ended() == Some(outcome)
}

/// A probe of a new path succeeds among `events`.
pub open spec fn new_path_was_probed(events: Seq<crate::path_events::PathEventReply>) -> bool {
    crate::machine::answered(
        crate::path_events::ServerPathEvents::start(false),
        events,
        crate::path_events::ServerPathEvents::probe_succeeds(),
    )
}

/// What the thread is told of its path events is what they come to. The replies to
/// the handling of those that end with the reply at `k` are `events[k]`.
pub open spec fn probes_agree(
    start: ServerThread,
    replies: Seq<ServerReply>,
    events: Seq<Seq<crate::path_events::PathEventReply>>,
) -> bool
    decreases replies.len(),
{
    replies.len() == 0 || {
        let k = replies.len() - 1;
        &&& probes_agree(start, replies.drop_last(), events)
        &&& crate::machine::run(start, replies.drop_last()).request matches
            ServerRequest::HandlePathEvents { probed_my_path } ==> events_come_to(
            probed_my_path,
            events[k],
            replies.last()->Probed_0,
        )
    }
}

/// The thread of a path other than the first sends only after a probe of a new path
/// has succeeded: until then its bursts collect no packet.
pub proof fn further_paths_are_probed_before_use(
    nb_initiated_paths: usize,
    transfer_size: Option<usize>,
    replies: Seq<ServerReply>,
    events: Seq<Seq<crate::path_events::PathEventReply>>,
    limit: usize,
    burst: Seq<BurstReply>,
)
    requires
        crate::machine::admits(
            ServerThread::start(false, nb_initiated_paths, transfer_size),
            replies,
        ),
        probes_agree(
            ServerThread::start(false, nb_initiated_paths, transfer_size),
            replies,
            events,
        ),
        ({
            let m = crate::machine::run(
                ServerThread::start(false, nb_initiated_paths, transfer_size),
                replies,
            );
            &&& m.request matches ServerRequest::SendBurst { limit: asked, .. } && asked == limit
            &&& crate::machine::admits(
                SendBurst::start(limit, m.probed_my_path, m.can_close_conn),
                burst,
            )
        }),
        burst.len() > 0,
    ensures
        exists|k: int| 0 <= k < replies.len() && new_path_was_probed(#[trigger] events[k]),
{
    let start = ServerThread::start(false, nb_initiated_paths, transfer_size);
    let m = crate::machine::run(start, replies);
    server_threads_stay_coherent(false, nb_initiated_paths, transfer_size, replies);
    bursts_are_of_full_datagrams(limit, m.probed_my_path, m.can_close_conn, burst);
    lemma_further_probed(nb_initiated_paths, transfer_size, replies, events);
}

proof fn lemma_further_probed(
    nb_initiated_paths: usize,
    transfer_size: Option<usize>,
    replies: Seq<ServerReply>,
    events: Seq<Seq<crate::path_events::PathEventReply>>,
)
    requires
        crate::machine::admits(
            ServerThread::start(false, nb_initiated_paths, transfer_size),
            replies,
        ),
        probes_agree(
            ServerThread::start(false, nb_initiated_paths, transfer_size),
            replies,
            events,
        ),
    ensures
        crate::machine::run(
            ServerThread::start(false, nb_initiated_paths, transfer_size),
            replies,
        ).probed_my_path ==> exists|k: int|
            0 <= k < replies.len() && new_path_was_probed(#[trigger] events[k]),
    decreases replies.len(),
{
    if replies.len() > 0 {
        let before = replies.drop_last();
        let start = ServerThread::start(false, nb_initiated_paths, transfer_size);
        lemma_further_probed(nb_initiated_paths, transfer_size, before, events);
        let m = crate::machine::run(start, before);
        server_threads_stay_coherent(false, nb_initiated_paths, transfer_size, before);
        lemma_probed_step(m, replies.last());
        if m.probed_my_path {
            let k = choose|k: int|
                0 <= k < before.len() && new_path_was_probed(#[trigger] events[k]);
            assert(new_path_was_probed(events[k]));
        } else if m.request is HandlePathEvents {
            crate::path_events::server_probes_new_paths(false, events[replies.len() - 1]);
        }
    }
}

proof fn lemma_probed_step(m: ServerThread, reply: ServerReply)
    requires
        m.accepts(reply),
    ensures
        m.next(reply).probed_my_path == if m.request is HandlePathEvents {
            reply->Probed_0
        } else {
            m.probed_my_path
        },
{
}

/// The transfer on a path is created at most once.
pub proof fn path_transfer_is_created_once(
    first_path: bool,
    nb_initiated_paths: usize,
    transfer_size: Option<usize>,
    replies: Seq<ServerReply>,
)
    requires
        crate::machine::admits(
            ServerThread::start(first_path, nb_initiated_paths, transfer_size),
            replies,
        ),
    ensures
        crate::machine::visits(
            ServerThread::start(first_path, nb_initiated_paths, transfer_size),
            replies,
            |m: ServerThread| m.request is CreateTransfer,
        ) <= 1,
{
    let inv = |m: ServerThread| m.coherent();
    let done = |m: ServerThread| m.created_app_conn;
    assert forall|m: ServerThread, reply: ServerReply| inv(m) && m.accepts(reply) implies inv(
        #[trigger] m.next(reply),
    ) by {
        lemma_coherent_step(m, reply);
    }
    crate::machine::happens_at_most_once(
        ServerThread::start(first_path, nb_initiated_paths, transfer_size),
        replies,
        inv,
        |m: ServerThread| m.request is CreateTransfer,
        done,
    );
}

/// A limit on bursts is never raised again. A path that was probed stays
/// probed, a transfer that is complete stays complete, and what was set up is
/// not set up again.
pub proof fn server_thread_flags_stay(m: ServerThread, replies: Seq<ServerReply>)
    requires
        m.coherent(),
        crate::machine::admits(m, replies),
    ensures
        ({
            let later = crate::machine::run(m, replies);
            &&& later.coherent()
            &&& later.max_send_burst <= m.max_send_burst
            &&& m.probed_my_path ==> later.probed_my_path
            &&& m.has_set_peer_addr ==> later.has_set_peer_addr
            &&& m.scid_sent ==> later.scid_sent
            &&& m.created_app_conn ==> later.created_app_conn
            &&& m.can_close_conn ==> later.can_close_conn
        }),
    decreases replies.len(),
{
    if replies.len() > 0 {
        server_thread_flags_stay(m, replies.drop_last());
        lemma_coherent_step(crate::machine::run(m, replies.drop_last()), replies.last());
    }
}

/// What reading comes to is an answer to the thread that asked for it.
pub proof fn read_outcomes_are_accepted(
    m: ServerThread,
    events: bool,
    replies: Seq<ServerReadReply>,
)
    requires
        m.request == (ServerRequest::Read { events }),
        crate::machine::admits(
            ServerRead::start(
                m.first_path,
                m.scid_sent,
                m.has_set_peer_addr,
                events,
                m.continue_write,
            ),
            replies,
        ),
        crate::machine::run(
            ServerRead::start(
                m.first_path,
                m.scid_sent,
                m.has_set_peer_addr,
                events,
                m.continue_write,
            ),
            replies,
        ).ended() is Some,
    ensures
        m.accepts(
            crate::machine::run(
                ServerRead::start(
                    m.first_path,
                    m.scid_sent,
                    m.has_set_peer_addr,
                    events,
                    m.continue_write,
                ),
                replies,
            ).ended()->0,
        ),
{
    server_read_follows_its_replies(
        m.first_path,
        m.scid_sent,
        m.has_set_peer_addr,
        events,
        m.continue_write,
        replies,
    );
}

/// What a burst comes to is an answer to the thread that asked for it.
pub proof fn burst_outcomes_are_accepted(
    m: ServerThread,
    limit: usize,
    replies: Seq<BurstReply>,
)
    requires
        m.coherent(),
        m.request matches ServerRequest::SendBurst { limit: asked, .. } && asked == limit,
        crate::machine::admits(
            SendBurst::start(limit, m.probed_my_path, m.can_close_conn),
            replies,
        ),
        crate::machine::run(
            SendBurst::start(limit, m.probed_my_path, m.can_close_conn),
            replies,
        ).ended() is Some,
    ensures
        m.accepts(
            ServerReply::Burst(
                crate::machine::run(
                    SendBurst::start(limit, m.probed_my_path, m.can_close_conn),
                    replies,
                ).ended()->0,
            ),
        ),
{
    bursts_are_of_full_datagrams(limit, m.probed_my_path, m.can_close_conn, replies);
}

/// What handling the path events comes to is an answer to the thread that asked
/// for it.
pub proof fn probe_outcomes_are_accepted(
    m: ServerThread,
    replies: Seq<crate::path_events::PathEventReply>,
)
    requires
        m.request is HandlePathEvents,
        crate::machine::admits(
            crate::path_events::ServerPathEvents::start(m.probed_my_path),
            replies,
        ),
        crate::machine::run(
            crate::path_events::ServerPathEvents::start(m.probed_my_path),
            replies,
        ).ended() is Some,
    ensures
        m.accepts(
            ServerReply::Probed(
                crate::machine::run(
                    crate::path_events::ServerPathEvents::start(m.probed_my_path),
                    replies,
                ).ended()->0,
            ),
        ),
{
    crate::path_events::server_acts_on_new_and_validated_paths(m.probed_my_path, replies);
}

/// The shares of the paths add up to no more than the transfer, and to less
/// only by what does not divide evenly.
pub proof fn shares_make_up_the_transfer(size: usize, nb_paths: usize)
    requires
        nb_paths > 0,
    ensures
        share(size, nb_paths) * nb_paths <= size,
        size - share(size, nb_paths) * nb_paths < nb_paths,
{
    vstd::arithmetic::div_mod::lemma_fundamental_div_mod(size as int, nb_paths as int);
    assert((size / nb_paths) * nb_paths == nb_paths * (size / nb_paths)) by (nonlinear_arith);
}

/// The threads of the further paths are on the cores after the first, in order,
/// and none of them starts at the address that the server listens on.
pub proof fn further_server_paths_start_elsewhere(
    server_addresses: Seq<SocketAddr>,
    listen: SocketAddr,
    cores: Option<Seq<usize>>,
)
    requires
        enough_cores(server_addresses, listen, cores),
    ensures
        ({
            let plans = server_paths(server_addresses, listen, cores);
            forall|i: int|
                0 <= i < plans.len() ==> {
                    &&& (#[trigger] plans[i]).local != listen
                    &&& server_addresses.contains(plans[i].local)
                    &&& match cores {
                        Some(cores) => i + 1 < cores.len() && plans[i].core == Some(cores[i + 1]),
                        None => plans[i].core is None,
                    }
                }
        }),
{
    let pred = |a: SocketAddr| crate::addr::differs(a, listen);
    let locals = crate::addr::all_but(server_addresses, listen);
    assert forall|i: int| 0 <= i < locals.len() implies (#[trigger] locals[i]) != listen
        && server_addresses.contains(locals[i]) by {
        server_addresses.lemma_filter_pred(pred, i);
        assert(locals.contains(locals[i]));
        server_addresses.lemma_filter_contains_rev(pred, locals[i]);
    }
}

impl ServerThread {
    /// The transfer on the path is complete, as the writing of its data or a burst
    /// tells.
    pub open spec fn told_complete() -> spec_fn(ServerThread, ServerReply) -> bool {
        |m: ServerThread, reply: ServerReply|
            {
                ||| m.request is SendData && reply == ServerReply::Flag(true)
                ||| m.request is SendBurst && reply is Burst && reply->Burst_0 is Continue
                    && reply->Burst_0->can_close_conn
            }
    }

    /// The transfer on the path was created.
    pub open spec fn transfer_created() -> spec_fn(ServerThread, ServerReply) -> bool {
        |m: ServerThread, reply: ServerReply| m.request is CreateTransfer
    }

    /// The number of active paths that the reports of the other threads come to.
    pub open spec fn active_paths() -> spec_fn(ServerThread, ServerReply) -> Option<usize> {
        |m: ServerThread, reply: ServerReply|
            match (m.request, reply) {
                (ServerRequest::HandleDonePaths, ServerReply::ActivePaths(told)) => Some(told),
                _ => None,
            }
    }

    /// Whether early data can be sent, and whether the connection is established.
    pub open spec fn told_handshake() -> spec_fn(ServerThread, ServerReply) -> Option<
        (bool, bool),
    > {
        |m: ServerThread, reply: ServerReply|
            match (m.request, reply) {
                (
                    ServerRequest::QueryHandshake,
                    ServerReply::Handshake { in_early_data, established },
                ) => Some((in_early_data, established)),
                _ => None,
            }
    }

    /// What reading came to: whether identifiers were given out, and whether it is
    /// known where the path leads to.
    pub open spec fn told_read() -> spec_fn(ServerThread, ServerReply) -> Option<(bool, bool)> {
        |m: ServerThread, reply: ServerReply|
            match (m.request, reply) {
                (
                    ServerRequest::Read { .. },
                    ServerReply::Read { scid_sent, has_set_peer_addr },
                ) => Some((scid_sent, has_set_peer_addr)),
                _ => None,
            }
    }

    /// Whether the path was probed, as the handling of the path events tells.
    pub open spec fn told_probed() -> spec_fn(ServerThread, ServerReply) -> Option<bool> {
        |m: ServerThread, reply: ServerReply|
            match (m.request, reply) {
                (ServerRequest::HandlePathEvents { .. }, ServerReply::Probed(told)) => Some(told),
                _ => None,
            }
    }

    /// Whether there may be more to write, as the burst of the round tells.
    pub open spec fn told_more() -> spec_fn(ServerThread, ServerReply) -> Option<bool> {
        |m: ServerThread, reply: ServerReply|
            match (m.request, reply) {
                (ServerRequest::HandlePathEvents { .. }, _) => Some(false),
                (
                    ServerRequest::SendBurst { .. },
                    ServerReply::Burst(BurstOutcome::Continue { continue_write, .. }),
                ) => Some(continue_write),
                _ => None,
            }
    }
}

/// What a thread of the server holds is what it was told. In particular the transfer
/// counts as complete only if the writing of its data or a burst has told so.
pub proof fn server_threads_know_what_they_were_told(
    first_path: bool,
    nb_initiated_paths: usize,
    transfer_size: Option<usize>,
    replies: Seq<ServerReply>,
)
    requires
        crate::machine::admits(
            ServerThread::start(first_path, nb_initiated_paths, transfer_size),
            replies,
        ),
    ensures
        ({
            let start = ServerThread::start(first_path, nb_initiated_paths, transfer_size);
            let m = crate::machine::run(start, replies);
            let handshake = crate::machine::told_or(
                crate::machine::latest(start, replies, ServerThread::told_handshake()),
                (false, false),
            );
            let read = crate::machine::told_or(
                crate::machine::latest(start, replies, ServerThread::told_read()),
                (false, first_path),
            );
            &&& m.first_path == first_path
            &&& m.transfer_size == transfer_size
            &&& m.can_close_conn <==> crate::machine::answered(
                start,
                replies,
                ServerThread::told_complete(),
            )
            &&& m.created_app_conn <==> crate::machine::answered(
                start,
                replies,
                ServerThread::transfer_created(),
            )
            &&& m.nb_active_paths == crate::machine::told_or(
                crate::machine::latest(start, replies, ServerThread::active_paths()),
                nb_initiated_paths,
            )
            &&& m.is_in_early_data == handshake.0
            &&& m.is_established == handshake.1
            &&& m.scid_sent == read.0
            &&& m.has_set_peer_addr == read.1
            &&& m.probed_my_path == crate::machine::told_or(
                crate::machine::latest(start, replies, ServerThread::told_probed()),
                first_path,
            )
            &&& m.continue_write == crate::machine::told_or(
                crate::machine::latest(start, replies, ServerThread::told_more()),
                false,
            )
        }),
    decreases replies.len(),
{
    if replies.len() > 0 {
        let start = ServerThread::start(first_path, nb_initiated_paths, transfer_size);
        server_threads_know_what_they_were_told(
            first_path,
            nb_initiated_paths,
            transfer_size,
            replies.drop_last(),
        );
        lemma_told_step(crate::machine::run(start, replies.drop_last()), replies.last());
    }
}

#[verifier::spinoff_prover]
proof fn lemma_told_step(m: ServerThread, reply: ServerReply)
    requires
        m.accepts(reply),
    ensures
        ({
            let later = m.next(reply);
            &&& later.first_path == m.first_path
            &&& later.transfer_size == m.transfer_size
            &&& later.can_close_conn == (m.can_close_conn || ServerThread::told_complete()(
                m,
                reply,
            ))
            &&& later.created_app_conn == (m.created_app_conn || m.request is CreateTransfer)
            &&& later.nb_active_paths == if m.request is HandleDonePaths {
                reply->ActivePaths_0
            } else {
                m.nb_active_paths
            }
            &&& later.is_in_early_data == if m.request is QueryHandshake {
                reply->in_early_data
            } else {
                m.is_in_early_data
            }
            &&& later.is_established == if m.request is QueryHandshake {
                reply->established
            } else {
                m.is_established
            }
            &&& later.scid_sent == if m.request is Read {
                reply->scid_sent
            } else {
                m.scid_sent
            }
            &&& later.has_set_peer_addr == if m.request is Read {
                reply->has_set_peer_addr
            } else {
                m.has_set_peer_addr
            }
            &&& later.probed_my_path == if m.request is HandlePathEvents {
                reply->Probed_0
            } else {
                m.probed_my_path
            }
            &&& later.continue_write == if m.request is HandlePathEvents {
                false
            } else if m.request is SendBurst && reply->Burst_0 is Continue {
                reply->Burst_0->continue_write
            } else {
                m.continue_write
            }
        }),
{
    match reply {
        ServerReply::Flag(_) => {
            lemma_told_flag(m, reply);
        },
        ServerReply::Burst(_) => {},
        ServerReply::Done => {},
        _ => {},
    }
}

/// An answer to a question changes nothing but what is known of the transfer and the
/// limit on bursts.
proof fn lemma_told_flag(m: ServerThread, reply: ServerReply)
    requires
        m.accepts(reply),
        reply is Flag,
    ensures
        ({
            let later = m.next(reply);
            later == (ServerThread {
                can_close_conn: m.can_close_conn || (m.request is SendData && reply
                    == ServerReply::Flag(true)),
                max_send_burst: later.max_send_burst,
                request: later.request,
                ..m
            })
        }),
{
}

/// The first half of a round of a thread of the server: it waits, reads, takes the
/// reports if the connection started on its path, and creates the transfer once the
/// handshake has come far enough, the path is active and the protocol is the right one.
/// It writes data in every round until the transfer is complete. Then it waits for all
/// data to be acknowledged, or for the peer to close the connection, and reports. The
/// thread of the first path waits for the peer in any case.
pub proof fn server_threads_transfer_in_order(
    first_path: bool,
    nb_initiated_paths: usize,
    transfer_size: Option<usize>,
    replies: Seq<ServerReply>,
)
    requires
        crate::machine::admits(
            ServerThread::start(first_path, nb_initiated_paths, transfer_size),
            replies,
        ),
        replies.len() > 0,
    ensures
        ({
            let start = ServerThread::start(first_path, nb_initiated_paths, transfer_size);
            let asked = crate::machine::run(start, replies.drop_last()).request;
            let last = replies.last();
            let yes = last == ServerReply::Flag(true);
            let next = crate::machine::run(start, replies).request;
            let complete = crate::machine::answered(start, replies, ServerThread::told_complete());
            let created = crate::machine::answered(
                start,
                replies,
                ServerThread::transfer_created(),
            );
            let handshake = crate::machine::told_or(
                crate::machine::latest(start, replies, ServerThread::told_handshake()),
                (false, false),
            );
            let path_events = ServerRequest::HandlePathEvents {
                probed_my_path: crate::machine::told_or(
                    crate::machine::latest(start, replies, ServerThread::told_probed()),
                    first_path,
                ),
            };
            let report = ServerRequest::SignalDone { status: MulticoreStatus::Success };
            let read = asked is HandleDonePaths || (asked is Read && !first_path);
            // There is nothing to write in this round, or it was written.
            let written = {
                ||| read && created && complete
                ||| asked is CreateTransfer && complete
                ||| asked is QueryHandshake
                ||| asked is Close
                ||| asked is SendData
            };
            &&& asked is Poll ==> next == (ServerRequest::Read { events: yes })
            &&& asked is Read && first_path ==> next == ServerRequest::HandleDonePaths
            &&& read && !created ==> next == if handshake.0 || handshake.1 {
                ServerRequest::IsActive
            } else {
                ServerRequest::QueryHandshake
            }
            &&& read && created && !complete ==> next == ServerRequest::SendData
            &&& asked is IsActive ==> next == if yes {
                ServerRequest::CheckProtocol
            } else {
                ServerRequest::QueryHandshake
            }
            &&& asked is CheckProtocol ==> next == if yes {
                ServerRequest::CreateTransfer { transfer_size }
            } else {
                ServerRequest::Close { cause: CloseCause::WrongProtocol }
            }
            &&& asked is CreateTransfer && !complete ==> next == ServerRequest::SendData
            &&& written ==> next == if complete {
                ServerRequest::NoDataInflight
            } else {
                path_events
            }
            &&& asked is NoDataInflight ==> next == if yes && !first_path {
                report
            } else {
                ServerRequest::PeerClosed
            }
            &&& asked is PeerClosed ==> next == if yes {
                report
            } else {
                path_events
            }
            &&& asked is SignalDone ==> next == if yes {
                ServerRequest::Return
            } else {
                path_events
            }
        }),
{
    let start = ServerThread::start(first_path, nb_initiated_paths, transfer_size);
    let before = replies.drop_last();
    server_threads_know_what_they_were_told(first_path, nb_initiated_paths, transfer_size, replies);
    server_threads_know_what_they_were_told(first_path, nb_initiated_paths, transfer_size, before);
    server_threads_stay_coherent(first_path, nb_initiated_paths, transfer_size, before);
    lemma_transfer_step(crate::machine::run(start, before), replies.last());
}

#[verifier::spinoff_prover]
proof fn lemma_transfer_step(m: ServerThread, reply: ServerReply)
    requires
        m.coherent(),
        m.accepts(reply),
    ensures
        ({
            let later = m.next(reply);
            let next = later.request;
            let yes = reply == ServerReply::Flag(true);
            let complete = later.can_close_conn;
            let created = later.created_app_conn;
            let path_events = ServerRequest::HandlePathEvents {
                probed_my_path: later.probed_my_path,
            };
            let report = ServerRequest::SignalDone { status: MulticoreStatus::Success };
            let read = m.request is HandleDonePaths || (m.request is Read && !m.first_path);
            let written = {
                ||| read && created && complete
                ||| m.request is CreateTransfer && complete
                ||| m.request is QueryHandshake
                ||| m.request is Close
                ||| m.request is SendData
            };
            &&& m.request is Poll ==> next == (ServerRequest::Read { events: yes })
            &&& m.request is Read && m.first_path ==> next == ServerRequest::HandleDonePaths
            &&& read && !created ==> next == if later.is_in_early_data || later.is_established {
                ServerRequest::IsActive
            } else {
                ServerRequest::QueryHandshake
            }
            &&& read && created && !complete ==> next == ServerRequest::SendData
            &&& m.request is IsActive ==> next == if yes {
                ServerRequest::CheckProtocol
            } else {
                ServerRequest::QueryHandshake
            }
            &&& m.request is CheckProtocol ==> next == if yes {
                ServerRequest::CreateTransfer { transfer_size: m.transfer_size }
            } else {
                ServerRequest::Close { cause: CloseCause::WrongProtocol }
            }
            &&& m.request is CreateTransfer && !complete ==> next == ServerRequest::SendData
            &&& written ==> next == if complete {
                ServerRequest::NoDataInflight
            } else {
                path_events
            }
            &&& m.request is NoDataInflight ==> next == if yes && !m.first_path {
                report
            } else {
                ServerRequest::PeerClosed
            }
            &&& m.request is PeerClosed ==> next == if yes {
                report
            } else {
                path_events
            }
            &&& m.request is SignalDone ==> next == if yes {
                ServerRequest::Return
            } else {
                path_events
            }
        }),
{
}

/// The second half of a round of a thread of the server: after the path events it finds
/// out whether the loss has grown, which takes the limit on bursts down to three
/// quarters but not below ten datagrams. It sends a burst within the quantum, and waits
/// again unless there may be more to write. With one path left and the transfer complete
/// it ends if the connection is closed.
pub proof fn server_threads_send_in_order(
    first_path: bool,
    nb_initiated_paths: usize,
    transfer_size: Option<usize>,
    replies: Seq<ServerReply>,
)
    requires
        crate::machine::admits(
            ServerThread::start(first_path, nb_initiated_paths, transfer_size),
            replies,
        ),
    ensures
        ({
            let start = ServerThread::start(first_path, nb_initiated_paths, transfer_size);
            let before = crate::machine::run(start, replies.drop_last());
            let asked = before.request;
            let last = replies.last();
            let yes = last == ServerReply::Flag(true);
            let m = crate::machine::run(start, replies);
            let next = m.request;
            let complete = crate::machine::answered(start, replies, ServerThread::told_complete());
            let active = crate::machine::told_or(
                crate::machine::latest(start, replies, ServerThread::active_paths()),
                nb_initiated_paths,
            );
            let more = crate::machine::told_or(
                crate::machine::latest(start, replies, ServerThread::told_more()),
                false,
            );
            let wait = ServerRequest::Poll {
                timeout_ms: if more {
                    0
                } else {
                    10
                },
            };
            let burst = asked is SendBurst && last is Burst;
            &&& replies.len() == 0 ==> next == wait && m.max_send_burst == 65507
            &&& replies.len() > 0 ==> {
                &&& asked is HandlePathEvents ==> next == ServerRequest::LossGrown
                &&& asked is LossGrown ==> next == ServerRequest::SendQuantum
                &&& asked is LossGrown && yes ==> {
                    &&& m.max_send_burst >= 13500
                    &&& m.max_send_burst == 13500 || m.max_send_burst == before.max_send_burst / 4
                        * 3
                    &&& before.max_send_burst / 4 * 3 > 13500 ==> m.max_send_burst > 13500
                }
                &&& !(asked is LossGrown && yes) ==> m.max_send_burst == before.max_send_burst
                &&& asked is SendQuantum ==> {
                    &&& next is SendBurst
                    &&& next->limit == burst_limit(last->Quantum_0, m.max_send_burst)
                    &&& next->SendBurst_can_close_conn == complete
                    &&& next->SendBurst_probed_my_path == crate::machine::told_or(
                        crate::machine::latest(start, replies, ServerThread::told_probed()),
                        first_path,
                    )
                }
                &&& burst && last->Burst_0 is Finished ==> next == ServerRequest::Return
                &&& burst && last->Burst_0 is Continue ==> next == if complete && active == 1 {
                    ServerRequest::IsClosed
                } else {
                    wait
                }
                &&& asked is IsClosed ==> next == if yes {
                    ServerRequest::Return
                } else {
                    wait
                }
            }
        }),
{
    let start = ServerThread::start(first_path, nb_initiated_paths, transfer_size);
    server_threads_know_what_they_were_told(first_path, nb_initiated_paths, transfer_size, replies);
    if replies.len() > 0 {
        let rest = replies.drop_last();
        server_threads_know_what_they_were_told(
            first_path,
            nb_initiated_paths,
            transfer_size,
            rest,
        );
        lemma_send_step(crate::machine::run(start, rest), replies.last());
    }
}

#[verifier::spinoff_prover]
proof fn lemma_send_step(m: ServerThread, reply: ServerReply)
    requires
        m.accepts(reply),
    ensures
        ({
            let later = m.next(reply);
            let next = later.request;
            let yes = reply == ServerReply::Flag(true);
            let wait = ServerRequest::Poll {
                timeout_ms: if later.continue_write {
                    0
                } else {
                    10
                },
            };
            &&& m.request is HandlePathEvents ==> next == ServerRequest::LossGrown
            &&& m.request is LossGrown ==> next == ServerRequest::SendQuantum
            &&& m.request is LossGrown && yes ==> {
                &&& later.max_send_burst >= 13500
                &&& later.max_send_burst == 13500 || later.max_send_burst == m.max_send_burst / 4
                    * 3
                &&& m.max_send_burst / 4 * 3 > 13500 ==> later.max_send_burst > 13500
            }
            &&& !(m.request is LossGrown && yes) ==> later.max_send_burst == m.max_send_burst
            &&& m.request is SendQuantum ==> next == (ServerRequest::SendBurst {
                limit: burst_limit(reply->Quantum_0, later.max_send_burst),
                probed_my_path: later.probed_my_path,
                can_close_conn: later.can_close_conn,
            })
            &&& m.request is SendBurst && reply->Burst_0 is Finished ==> next
                == ServerRequest::Return
            &&& m.request is SendBurst && reply->Burst_0 is Continue ==> next == if
                later.can_close_conn && later.nb_active_paths == 1 {
                ServerRequest::IsClosed
            } else {
                wait
            }
            &&& m.request is IsClosed ==> next == if yes {
                ServerRequest::Return
            } else {
                wait
            }
        }),
{
}

/// The reading of a path of the server. Without an event it handles the timeout, unless
/// there was more to write. Else it reads until the socket blocks: it leads the path to the
/// origin of a datagram if it leads nowhere yet, and feeds it. On the first path the first
/// datagram that is taken is followed by identifiers, for as long as the peer takes them.
pub proof fn server_reads_in_order(
    first_path: bool,
    scid_sent: bool,
    has_set_peer_addr: bool,
    events: bool,
    continue_write: bool,
    replies: Seq<ServerReadReply>,
)
    requires
        crate::machine::admits(
            ServerRead::start(first_path, scid_sent, has_set_peer_addr, events, continue_write),
            replies,
        ),
    ensures
        ({
            let start = ServerRead::start(
                first_path,
                scid_sent,
                has_set_peer_addr,
                events,
                continue_write,
            );
            let asked = crate::machine::run(start, replies.drop_last()).request;
            let last = replies.last();
            let yes = last == ServerReadReply::Flag(true);
            let m = crate::machine::run(start, replies);
            let next = m.request;
            let led = has_set_peer_addr || crate::machine::answered(
                start,
                replies,
                |m: ServerRead, reply: ServerReadReply| m.request is SetPeerAddr,
            );
            let given = scid_sent || crate::machine::answered(
                start,
                replies,
                ServerRead::identifier_taken(),
            );
            &&& m.has_set_peer_addr == led
            &&& m.ended() == if next is Return {
                Some(ServerReply::Read { scid_sent: given, has_set_peer_addr: led })
            } else {
                None
            }
            &&& replies.len() == 0 ==> next == if events || continue_write {
                ServerReadRequest::RecvFrom
            } else {
                ServerReadRequest::OnTimeout
            }
            &&& replies.len() > 0 ==> {
                &&& asked is OnTimeout ==> next == ServerReadRequest::Return
                &&& asked is RecvFrom ==> match last {
                    ServerReadReply::Received { len, from } => if led {
                        next == (ServerReadRequest::PathRecv { len, from })
                    } else {
                        next == (ServerReadRequest::SetPeerAddr { len, from })
                    },
                    _ => next == ServerReadRequest::Return,
                }
                &&& asked matches ServerReadRequest::SetPeerAddr { len, from } ==> next
                    == (ServerReadRequest::PathRecv { len, from })
                &&& asked is PathRecv ==> next == if yes && first_path && !given {
                    ServerReadRequest::SourceCidsLeft
                } else {
                    ServerReadRequest::RecvFrom
                }
                &&& asked is SourceCidsLeft ==> next == if yes {
                    ServerReadRequest::NewSourceCid
                } else {
                    ServerReadRequest::RecvFrom
                }
                &&& asked is NewSourceCid ==> next == if yes {
                    ServerReadRequest::SourceCidsLeft
                } else {
                    ServerReadRequest::RecvFrom
                }
            }
        }),
    decreases replies.len(),
{
    identifiers_follow_a_packet(
        first_path,
        scid_sent,
        has_set_peer_addr,
        events,
        continue_write,
        replies,
    );
    server_read_follows_its_replies(
        first_path,
        scid_sent,
        has_set_peer_addr,
        events,
        continue_write,
        replies,
    );
    if replies.len() > 0 {
        server_reads_in_order(
            first_path,
            scid_sent,
            has_set_peer_addr,
            events,
            continue_write,
            replies.drop_last(),
        );
        identifiers_follow_a_packet(
            first_path,
            scid_sent,
            has_set_peer_addr,
            events,
            continue_write,
            replies.drop_last(),
        );
        server_read_follows_its_replies(
            first_path,
            scid_sent,
            has_set_peer_addr,
            events,
            continue_write,
            replies.drop_last(),
        );
    }
}

impl SendBurst {
    /// A packet is collected that does not fill a datagram.
    pub open spec fn short_packet() -> spec_fn(SendBurst, BurstReply) -> bool {
        |m: SendBurst, reply: BurstReply|
            reply matches BurstReply::Path(PathSend::Packet { len, .. }) && len < 1350
    }
}

/// A burst collects full datagrams for as long as there is room, and sends them. A short
/// packet ends it, and so does a path that has no more packets or fails, which closes the
/// connection. A draining connection is reported, as a success if the transfer is complete.
/// There may be more to write after a short packet, and after a burst that used up its
/// limit.
pub proof fn bursts_go_in_order(
    limit: usize,
    probed_my_path: bool,
    can_close_conn: bool,
    replies: Seq<BurstReply>,
)
    requires
        limit <= MAX_BUF_SIZE,
        crate::machine::admits(SendBurst::start(limit, probed_my_path, can_close_conn), replies),
    ensures
        ({
            let start = SendBurst::start(limit, probed_my_path, can_close_conn);
            let last = replies.last();
            let m = crate::machine::run(start, replies);
            let next = m.request;
            let collected = packets(replies);
            let whole = total(collected);
            let over = BurstRequest::Return { finished: false };
            let send = if whole > 0 {
                BurstRequest::SendTo { len: whole as usize, to: collected[0].to }
            } else {
                over
            };
            let sent = replies.len() > 0 && last is Socket;
            let complete = can_close_conn || (crate::machine::answered(
                start,
                replies,
                |m: SendBurst, reply: BurstReply| reply == BurstReply::Signalled(false),
            ));
            let more = crate::machine::answered(start, replies, SendBurst::short_packet()) || (sent
                && whole >= limit);
            &&& m.can_close_conn == complete
            &&& m.continue_write == more
            &&& m.ended() == match next {
                BurstRequest::Return { finished: true } => Some(BurstOutcome::Finished),
                BurstRequest::Return { finished: false } => Some(
                    BurstOutcome::Continue { continue_write: more, can_close_conn: complete },
                ),
                _ => None,
            }
            &&& replies.len() == 0 ==> next == if probed_my_path && limit > 0 {
                BurstRequest::SendOnPath { start: 0, end: limit }
            } else {
                over
            }
            &&& replies.len() > 0 ==> next == match last {
                BurstReply::Path(PathSend::Packet { len, .. }) => if len >= 1350 && whole < limit {
                    BurstRequest::SendOnPath { start: whole as usize, end: limit }
                } else {
                    send
                },
                BurstReply::Path(PathSend::Done) => send,
                BurstReply::Path(PathSend::Draining) => BurstRequest::SignalDone {
                    status: if can_close_conn {
                        MulticoreStatus::Success
                    } else {
                        MulticoreStatus::Error
                    },
                },
                BurstReply::Path(PathSend::Failed) => BurstRequest::Close {
                    cause: CloseCause::SendFailure,
                },
                BurstReply::Signalled(true) => BurstRequest::Return { finished: true },
                BurstReply::Signalled(false) => send,
                BurstReply::Closed => send,
                BurstReply::Socket(_) => over,
            }
            &&& next is SendOnPath ==> complete == can_close_conn && !more
        }),
    decreases replies.len(),
{
    bursts_are_of_full_datagrams(limit, probed_my_path, can_close_conn, replies);
    if replies.len() > 0 {
        bursts_go_in_order(limit, probed_my_path, can_close_conn, replies.drop_last());
        bursts_are_of_full_datagrams(limit, probed_my_path, can_close_conn, replies.drop_last());
    }
}

/// The first stream is number 3, and the others follow in steps of four.
pub proof fn streams_start_at_three(n: nat)
    ensures
        stream_id(n) == 3 + 4 * n,
{
}

/// The further addresses of the server that differ from the one it listens on get threads, in
/// order. Where cores are given each runs on the core behind the one before it, the first of
/// them on the second core, and there must be a core for each of them and one more.
pub proof fn server_threads_are_planned_one_by_one(
    server_addresses: Seq<SocketAddr>,
    a: SocketAddr,
    listen: SocketAddr,
    cores: Option<Seq<usize>>,
)
    ensures
        ({
            let plans = server_paths(server_addresses, listen, cores);
            &&& server_paths(Seq::empty(), listen, cores) == Seq::<ServerPathPlan>::empty()
            &&& server_paths(server_addresses.push(a), listen, cores) == if a == listen {
                plans
            } else {
                plans.push(
                    ServerPathPlan {
                        local: a,
                        core: match cores {
                            Some(cores) => Some(cores[plans.len() as int + 1]),
                            None => None,
                        },
                    },
                )
            }
            &&& enough_cores(server_addresses, listen, cores) <==> match cores {
                Some(cores) => plans.len() + 1 <= cores.len(),
                None => true,
            }
        }),
{
    crate::addr::addresses_are_picked_one_by_one(server_addresses, a, listen);
    let plans = server_paths(server_addresses, listen, cores);
    assert(server_paths(Seq::empty(), listen, cores) =~= Seq::<ServerPathPlan>::empty());
    if a == listen {
        assert(server_paths(server_addresses.push(a), listen, cores) =~= plans);
    } else {
        assert(server_paths(server_addresses.push(a), listen, cores) =~= plans.push(
            ServerPathPlan {
                local: a,
                core: match cores {
                    Some(cores) => Some(cores[plans.len() as int + 1]),
                    None => None,
                },
            },
        ));
    }
}

/// Every answer of the right kind is taken, whatever it says, and none of another kind. What was
/// done stays done.
pub proof fn server_threads_take_every_answer(m: ServerThread, reply: ServerReply)
    ensures
        m.request is Poll || m.request is IsActive || m.request is CheckProtocol || m.request
            is SendData || m.request is NoDataInflight || m.request is PeerClosed || m.request
            is SignalDone || m.request is LossGrown || m.request is IsClosed ==> (m.accepts(reply)
            <==> reply is Flag),
        m.request is Read ==> (m.accepts(reply) <==> match reply {
            ServerReply::Read { scid_sent, has_set_peer_addr } => (scid_sent || !m.scid_sent) && (
            has_set_peer_addr || !m.has_set_peer_addr),
            _ => false,
        }),
        m.request is HandleDonePaths ==> (m.accepts(reply) <==> reply is ActivePaths),
        m.request is CreateTransfer || m.request is Close ==> (m.accepts(reply) <==> reply is Done),
        m.request is QueryHandshake ==> (m.accepts(reply) <==> reply is Handshake),
        m.request is HandlePathEvents ==> (m.accepts(reply) <==> reply is Probed && !(
        m.probed_my_path && reply == ServerReply::Probed(false))),
        m.request is SendQuantum ==> (m.accepts(reply) <==> reply is Quantum),
        m.request is SendBurst ==> (m.accepts(reply) <==> match reply {
            ServerReply::Burst(BurstOutcome::Finished) => true,
            ServerReply::Burst(BurstOutcome::Continue { can_close_conn, .. }) => can_close_conn
                || !m.can_close_conn,
            _ => false,
        }),
        m.request is Return ==> !m.accepts(reply),
{
}

/// Every answer of the right kind is taken, whatever it says, and none of another kind. A datagram
/// must fit the buffer, a packet the room that is left, and a socket must not fail.
pub proof fn server_paths_take_every_answer(
    read: ServerRead,
    got: ServerReadReply,
    burst: SendBurst,
    reply: BurstReply,
)
    ensures
        read.request is OnTimeout || read.request is SetPeerAddr ==> (read.accepts(got) <==> got
            is Done),
        read.request is RecvFrom ==> (read.accepts(got) <==> match got {
            ServerReadReply::WouldBlock => true,
            ServerReadReply::Received { len, .. } => len <= 65507,
            _ => false,
        }),
        read.request is PathRecv || read.request is SourceCidsLeft || read.request is NewSourceCid
            ==> (read.accepts(got) <==> got is Flag),
        read.request is Return ==> !read.accepts(got),
        burst.request matches BurstRequest::SendOnPath { start, end } ==> (burst.accepts(reply)
            <==> match reply {
            BurstReply::Path(PathSend::Packet { len, .. }) => start + len <= end,
            BurstReply::Path(_) => true,
            _ => false,
        }),
        burst.request is SignalDone ==> (burst.accepts(reply) <==> reply is Signalled),
        burst.request is Close ==> (burst.accepts(reply) <==> reply is Closed),
        burst.request is SendTo ==> (burst.accepts(reply) <==> reply is Socket && reply
            != BurstReply::Socket(SocketSend::Failed)),
        burst.request is Return ==> !burst.accepts(reply),
{
}

/// The limit of a burst is the greatest number of whole datagrams that both the quantum and the
/// limit of the path leave room for.
pub proof fn burst_limits_are_whole_datagrams(send_quantum: usize, max_send_burst: usize, n: nat)
    ensures
        burst_limit(send_quantum, max_send_burst) % 1350 == 0,
        burst_limit(send_quantum, max_send_burst) <= send_quantum,
        burst_limit(send_quantum, max_send_burst) <= max_send_burst,
        n * 1350 <= send_quantum && n * 1350 <= max_send_burst ==> n * 1350 <= burst_limit(
            send_quantum,
            max_send_burst,
        ),
{
}

} // verus!
