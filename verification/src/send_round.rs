//! One round of sending over the scheduled paths.

use crate::addr::SocketAddr;
use crate::machine::Machine;
use crate::transport::{CloseCause, Outgoing, PathSend, SocketSend, MAX_DATAGRAM_SIZE};
use vstd::prelude::*;

verus! {

/// What a round of sending asks for. A path is named by its position in the
/// schedule.
#[derive(Clone, Copy, Debug, PartialEq, Eq, Structural)]
pub enum SendRequest {
    /// Ask the QUIC stack for the next packet of the path.
    SendOnPath { path: usize },
    /// Hand the first `len` bytes of the buffer over for the path, on their way
    /// to `to`.
    Transmit { path: usize, len: usize, to: SocketAddr },
    /// Close the connection, whatever comes of it.
    Close { path: usize, cause: CloseCause },
    /// All paths have had their turn.
    Return,
    /// A socket failed.
    Fail,
}

/// The answers to a `SendRequest`.
#[derive(Clone, Copy, Debug, PartialEq, Eq, Structural)]
pub enum SendReply {
    Path(PathSend),
    Socket(SocketSend),
    Closed,
}

/// Sends what each path of the schedule has to send, one path after the other.
#[derive(Clone, Copy, Debug, PartialEq, Eq, Structural)]
pub struct SendRound {
    /// Number of scheduled paths.
    pub nb_paths: usize,
    pub request: SendRequest,
}

impl SendRound {
    pub open spec fn with(self, request: SendRequest) -> SendRound {
        SendRound { request, ..self }
    }

    /// Turns to the path at `path`, or ends.
    pub open spec fn turn_to(self, path: int) -> SendRound {
        if path < self.nb_paths {
            self.with(SendRequest::SendOnPath { path: path as usize })
        } else {
            self.with(SendRequest::Return)
        }
    }

    /// The state in which a round over `nb_paths` paths starts.
    pub open spec fn start(nb_paths: usize) -> SendRound {
        (SendRound { nb_paths, request: SendRequest::Return }).turn_to(0)
    }

    /// The packet that is being handed over, if one is, and its path.
    pub open spec fn datagram() -> spec_fn(SendRound) -> Option<(usize, Outgoing)> {
        |m: SendRound|
            match m.request {
                SendRequest::Transmit { path, len, to } => Some((path, Outgoing { len, to })),
                _ => None,
            }
    }

    /// Whether sending succeeded, once the round has ended.
    pub open spec fn ended(self) -> Option<bool> {
        match self.request {
            SendRequest::Return => Some(true),
            SendRequest::Fail => Some(false),
            _ => None,
        }
    }

    /// The path that has its turn.
    pub open spec fn turn(self) -> Option<usize> {
        match self.request {
            SendRequest::SendOnPath { path } | SendRequest::Transmit { path, .. }
            | SendRequest::Close { path, .. } => Some(path),
            SendRequest::Return | SendRequest::Fail => None,
        }
    }

    /// The path that has its turn is one of the schedule.
    pub open spec fn well_formed(self) -> bool {
        self.turn() matches Some(path) ==> path < self.nb_paths
    }
}

impl Machine for SendRound {
    type Reply = SendReply;

    open spec fn accepts(self, reply: SendReply) -> bool {
        match self.request {
            SendRequest::SendOnPath { .. } => reply matches SendReply::Path(sent) && (sent matches
                PathSend::Packet { len, .. } ==> len <= MAX_DATAGRAM_SIZE),
            SendRequest::Transmit { .. } => reply is Socket,
            SendRequest::Close { .. } => reply is Closed,
            SendRequest::Return | SendRequest::Fail => false,
        }
    }

    open spec fn next(self, reply: SendReply) -> SendRound {
        match (self.request, reply) {
            (
                SendRequest::SendOnPath { path },
                SendReply::Path(PathSend::Packet { len, to }),
            ) => self.with(SendRequest::Transmit { path, len, to }),
            (SendRequest::SendOnPath { path }, SendReply::Path(PathSend::Done)) => self.turn_to(
                path + 1,
            ),
            (SendRequest::SendOnPath { path }, _) => self.with(
                SendRequest::Close { path, cause: CloseCause::SendFailure },
            ),
            (SendRequest::Transmit { path, .. }, SendReply::Socket(SocketSend::Sent)) => self.turn_to(
                path as int,
            ),
            (
                SendRequest::Transmit { path, .. },
                SendReply::Socket(SocketSend::WouldBlock),
            ) => self.turn_to(path + 1),
            (SendRequest::Transmit { .. }, _) => self.with(SendRequest::Fail),
            (SendRequest::Close { path, .. }, _) => self.turn_to(path + 1),
            _ => self,
        }
    }
}

impl SendRound {
    /// Starts a round over `nb_paths` paths.
    pub fn new(nb_paths: usize) -> (r: SendRound)
        ensures
            r == SendRound::start(nb_paths),
            r.well_formed(),
    {
        SendRound {
            nb_paths,
            request: if 0 < nb_paths {
                SendRequest::SendOnPath { path: 0 }
            } else {
                SendRequest::Return
            },
        }
    }

    /// Tells whether `reply` answers the pending request.
    pub fn expects(&self, reply: &SendReply) -> (r: bool)
        ensures
            r == self.accepts(*reply),
    {
        match (self.request, reply) {
            (SendRequest::SendOnPath { .. }, SendReply::Path(PathSend::Packet { len, .. })) => *len
                <= MAX_DATAGRAM_SIZE,
            (SendRequest::SendOnPath { .. }, SendReply::Path(_)) => true,
            (SendRequest::Transmit { .. }, SendReply::Socket(_)) => true,
            (SendRequest::Close { .. }, SendReply::Closed) => true,
            _ => false,
        }
    }

    /// Tells whether sending succeeded, once the round has ended.
    pub fn outcome(&self) -> (r: Option<bool>)
        ensures
            r == self.ended(),
    {
        match self.request {
            SendRequest::Return => Some(true),
            SendRequest::Fail => Some(false),
            _ => None,
        }
    }

    fn go_turn_after(&mut self, path: usize)
        requires
            path < old(self).nb_paths,
        ensures
            *final(self) == old(self).turn_to(path + 1),
    {
        self.request = if path + 1 < self.nb_paths {
            SendRequest::SendOnPath { path: path + 1 }
        } else {
            SendRequest::Return
        };
    }

    /// Takes the answer to the pending request.
    pub fn advance(&mut self, reply: SendReply)
        requires
            old(self).accepts(reply),
            old(self).well_formed(),
        ensures
            *final(self) == old(self).next(reply),
            final(self).well_formed(),
    {
        match (self.request, reply) {
            (SendRequest::SendOnPath { path }, SendReply::Path(sent)) => {
                match sent {
                    PathSend::Packet { len, to } => {
                        self.request = SendRequest::Transmit { path, len, to };
                    },
                    PathSend::Done => {
                        self.go_turn_after(path);
                    },
                    PathSend::Draining | PathSend::Failed => {
                        self.request = SendRequest::Close { path, cause: CloseCause::SendFailure };
                    },
                }
            },
            (SendRequest::Transmit { path, .. }, SendReply::Socket(sent)) => {
                match sent {
                    SocketSend::Sent => {
                        self.request = SendRequest::SendOnPath { path };
                    },
                    SocketSend::WouldBlock => {
                        self.go_turn_after(path);
                    },
                    SocketSend::Failed => {
                        self.request = SendRequest::Fail;
                    },
                }
            },
            (SendRequest::Close { path, .. }, _) => {
                self.go_turn_after(path);
            },
            _ => {},
        }
    }
}

/// The paths have their turns in the order of the schedule.
pub proof fn turns_follow_the_schedule(m: SendRound, replies: Seq<SendReply>)
    requires
        m.well_formed(),
        crate::machine::admits(m, replies),
    ensures
        ({
            let later = crate::machine::run(m, replies);
            &&& later.well_formed()
            &&& later.nb_paths == m.nb_paths
            &&& m.turn() is None ==> later == m
            &&& later.turn() matches Some(path) ==> m.turn()->0 <= path
        }),
    decreases replies.len(),
{
    if replies.len() > 0 {
        turns_follow_the_schedule(m, replies.drop_last());
    }
}

/// A round that succeeds has asked every path of the schedule for its packets.
pub proof fn every_path_has_its_turn(nb_paths: usize, replies: Seq<SendReply>, path: usize)
    requires
        crate::machine::admits(SendRound::start(nb_paths), replies),
        crate::machine::run(SendRound::start(nb_paths), replies).ended() == Some(true),
        path < nb_paths,
    ensures
        crate::machine::reaches(
            SendRound::start(nb_paths),
            replies,
            |m: SendRound| m.request == (SendRequest::SendOnPath { path }),
        ),
{
    lemma_turns_reached(nb_paths, replies, path);
}

proof fn lemma_turns_reached(nb_paths: usize, replies: Seq<SendReply>, path: usize)
    requires
        crate::machine::admits(SendRound::start(nb_paths), replies),
        path < nb_paths,
    ensures
        ({
            let m = crate::machine::run(SendRound::start(nb_paths), replies);
            (m.request is Return || (m.turn() matches Some(turn) && path <= turn))
                ==> crate::machine::reaches(
                SendRound::start(nb_paths),
                replies,
                |m: SendRound| m.request == (SendRequest::SendOnPath { path }),
            )
        }),
    decreases replies.len(),
{
    turns_follow_the_schedule(SendRound::start(nb_paths), replies);
    if replies.len() > 0 {
        turns_follow_the_schedule(SendRound::start(nb_paths), replies.drop_last());
        lemma_turns_reached(nb_paths, replies.drop_last(), path);
    }
}

/// What led to the state that a round is in: the packet that is handed over is
/// the one that the path came up with last, and a round fails when a socket
/// does.
pub proof fn round_follows_its_replies(nb_paths: usize, replies: Seq<SendReply>)
    requires
        crate::machine::admits(SendRound::start(nb_paths), replies),
    ensures
        ({
            let m = crate::machine::run(SendRound::start(nb_paths), replies);
            let last = replies.last();
            let begun = replies.len() > 0;
            &&& m.request matches SendRequest::Transmit { len, to, .. } ==> begun && last
                == SendReply::Path(PathSend::Packet { len, to }) && len <= MAX_DATAGRAM_SIZE
            &&& m.request matches SendRequest::Close { cause, .. } ==> begun && cause
                == CloseCause::SendFailure && (last == SendReply::Path(PathSend::Failed) || last
                == SendReply::Path(PathSend::Draining))
            &&& m.ended() == Some(false) <==> begun && last == SendReply::Socket(SocketSend::Failed)
        }),
    decreases replies.len(),
{
    if replies.len() > 0 {
        round_follows_its_replies(nb_paths, replies.drop_last());
    }
}

/// The packets that the paths came up with, in order, each with its path.
pub open spec fn packets_of_paths(nb_paths: usize, replies: Seq<SendReply>) -> Seq<
    (usize, Outgoing),
>
    decreases replies.len(),
{
    if replies.len() == 0 {
        seq![]
    } else {
        let before = packets_of_paths(nb_paths, replies.drop_last());
        let asked = crate::machine::run(SendRound::start(nb_paths), replies.drop_last()).turn();
        match replies.last() {
            SendReply::Path(PathSend::Packet { len, to }) => before.push(
                (asked->0, Outgoing { len, to }),
            ),
            _ => before,
        }
    }
}

/// A round hands over the packets that the paths came up with: all of them, in
/// order, each one once, for the path that came up with it and for its own
/// destination.
pub proof fn sent_packets_are_those_of_the_paths(nb_paths: usize, replies: Seq<SendReply>)
    requires
        crate::machine::admits(SendRound::start(nb_paths), replies),
    ensures
        crate::machine::issued(SendRound::start(nb_paths), replies, SendRound::datagram())
            == packets_of_paths(nb_paths, replies),
    decreases replies.len(),
{
    if replies.len() > 0 {
        sent_packets_are_those_of_the_paths(nb_paths, replies.drop_last());
    }
}

/// In a round each path has its turn. It is asked for packets, which are handed over, until
/// it has no more, the socket blocks or the path fails. A path that fails closes the
/// connection, and a socket that fails ends the round.
pub proof fn rounds_go_in_order(nb_paths: usize, replies: Seq<SendReply>)
    requires
        crate::machine::admits(SendRound::start(nb_paths), replies),
    ensures
        ({
            let start = SendRound::start(nb_paths);
            let before = crate::machine::run(start, replies.drop_last());
            let last = replies.last();
            let m = crate::machine::run(start, replies);
            let next = m.request;
            let path = before.turn()->0;
            let stays = last == SendReply::Socket(SocketSend::Sent);
            let passes_on = {
                ||| last == SendReply::Path(PathSend::Done)
                ||| last == SendReply::Socket(SocketSend::WouldBlock)
                ||| last == SendReply::Closed
            };
            &&& m.ended() == match next {
                SendRequest::Return => Some(true),
                SendRequest::Fail => Some(false),
                _ => None,
            }
            &&& m.turn() == match next {
                SendRequest::SendOnPath { path } => Some(path),
                SendRequest::Transmit { path, .. } => Some(path),
                SendRequest::Close { path, .. } => Some(path),
                _ => None,
            }
            &&& replies.len() == 0 ==> next == if nb_paths > 0 {
                SendRequest::SendOnPath { path: 0 }
            } else {
                SendRequest::Return
            }
            &&& replies.len() > 0 ==> {
                &&& before.turn() is Some && path < nb_paths
                &&& last matches SendReply::Path(PathSend::Packet { len, to }) ==> next
                    == (SendRequest::Transmit { path, len, to })
                &&& last == SendReply::Path(PathSend::Failed) || last == SendReply::Path(
                    PathSend::Draining,
                ) ==> next == (SendRequest::Close { path, cause: CloseCause::SendFailure })
                &&& stays ==> next == (SendRequest::SendOnPath { path })
                &&& passes_on && path + 1 < nb_paths ==> next == (SendRequest::SendOnPath {
                    path: (path + 1) as usize,
                })
                &&& passes_on && path + 1 == nb_paths ==> next == SendRequest::Return
                &&& last == SendReply::Socket(SocketSend::Failed) ==> next == SendRequest::Fail
            }
        }),
{
    turns_follow_the_schedule(SendRound::start(nb_paths), replies);
    if replies.len() > 0 {
        turns_follow_the_schedule(SendRound::start(nb_paths), replies.drop_last());
    }
}

/// Every answer of the right kind is taken, whatever it says, and none of another kind. A packet
/// must fit a datagram.
pub proof fn rounds_take_every_answer(m: SendRound, reply: SendReply)
    ensures
        m.request is SendOnPath ==> (m.accepts(reply) <==> match reply {
            SendReply::Path(PathSend::Packet { len, .. }) => len <= 1350,
            SendReply::Path(_) => true,
            _ => false,
        }),
        m.request is Transmit ==> (m.accepts(reply) <==> reply is Socket),
        m.request is Close ==> (m.accepts(reply) <==> reply is Closed),
        m.request is Return || m.request is Fail ==> !m.accepts(reply),
{
}

} // verus!
