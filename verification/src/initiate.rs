//! Sending the first datagram of a connection.

use crate::addr::SocketAddr;
use crate::machine::Machine;
use crate::transport::{Outgoing, SocketSend};
use vstd::prelude::*;

verus! {

/// What sending the first datagram asks for.
#[derive(Clone, Copy, Debug, PartialEq, Eq, Structural)]
pub enum InitiateRequest {
    /// Hand the first `len` bytes of the buffer to the socket, for `to`.
    SendTo { len: usize, to: SocketAddr },
    /// The datagram was sent.
    Return,
    /// The socket failed.
    Fail,
}

/// Sends one datagram, trying again for as long as the socket would block.
#[derive(Clone, Copy, Debug, PartialEq, Eq, Structural)]
pub struct InitiateLoop {
    pub len: usize,
    /// Where the datagram goes.
    pub to: SocketAddr,
    pub request: InitiateRequest,
}

impl Machine for InitiateLoop {
    type Reply = SocketSend;

    open spec fn accepts(self, reply: SocketSend) -> bool {
        self.request is SendTo
    }

    open spec fn next(self, reply: SocketSend) -> InitiateLoop {
        InitiateLoop {
            request: match reply {
                SocketSend::Sent => InitiateRequest::Return,
                SocketSend::WouldBlock => InitiateRequest::SendTo { len: self.len, to: self.to },
                SocketSend::Failed => InitiateRequest::Fail,
            },
            ..self
        }
    }
}

impl InitiateLoop {
    pub open spec fn start(len: usize, to: SocketAddr) -> InitiateLoop {
        InitiateLoop { len, to, request: InitiateRequest::SendTo { len, to } }
    }

    /// Whether the datagram was sent, once the loop has ended.
    pub open spec fn ended(self) -> Option<bool> {
        match self.request {
            InitiateRequest::SendTo { .. } => None,
            InitiateRequest::Return => Some(true),
            InitiateRequest::Fail => Some(false),
        }
    }

    /// The datagram that is being handed to the socket, if one is.
    pub open spec fn datagram() -> spec_fn(InitiateLoop) -> Option<Outgoing> {
        |m: InitiateLoop|
            match m.request {
                InitiateRequest::SendTo { len, to } => Some(Outgoing { len, to }),
                _ => None,
            }
    }

    /// Starts with a datagram of `len` bytes for `to`.
    pub fn new(len: usize, to: SocketAddr) -> (r: InitiateLoop)
        ensures
            r == InitiateLoop::start(len, to),
    {
        InitiateLoop { len, to, request: InitiateRequest::SendTo { len, to } }
    }

    /// Tells whether the datagram was sent, once the loop has ended.
    pub fn outcome(&self) -> (r: Option<bool>)
        ensures
            r == self.ended(),
    {
        match self.request {
            InitiateRequest::SendTo { .. } => None,
            InitiateRequest::Return => Some(true),
            InitiateRequest::Fail => Some(false),
        }
    }

    /// Tells whether there is a pending request, which any reply answers.
    pub fn expects(&self, reply: &SocketSend) -> (r: bool)
        ensures
            r == self.accepts(*reply),
    {
        match self.request {
            InitiateRequest::SendTo { .. } => true,
            _ => false,
        }
    }

    /// Takes the outcome of the pending request.
    pub fn advance(&mut self, reply: SocketSend)
        requires
            old(self).accepts(reply),
        ensures
            *final(self) == old(self).next(reply),
    {
        self.request = match reply {
            SocketSend::Sent => InitiateRequest::Return,
            SocketSend::WouldBlock => InitiateRequest::SendTo { len: self.len, to: self.to },
            SocketSend::Failed => InitiateRequest::Fail,
        };
    }
}

/// The same datagram is tried for as long as the socket would block, each time
/// for the same destination, and the first other reply decides.
pub proof fn first_datagram_is_tried_until_taken(
    len: usize,
    to: SocketAddr,
    replies: Seq<SocketSend>,
)
    requires
        crate::machine::admits(InitiateLoop::start(len, to), replies),
    ensures
        ({
            let m = crate::machine::run(InitiateLoop::start(len, to), replies);
            let handed = crate::machine::issued(
                InitiateLoop::start(len, to),
                replies,
                InitiateLoop::datagram(),
            );
            &&& handed.len() == replies.len() + if m.ended() is None {
                1int
            } else {
                0
            }
            &&& forall|i: int|
                0 <= i < handed.len() ==> #[trigger] handed[i] == (Outgoing { len, to })
            &&& forall|i: int|
                0 <= i < replies.len() - 1 ==> #[trigger] replies[i] == SocketSend::WouldBlock
            &&& m.ended() is None ==> m.request == (InitiateRequest::SendTo { len, to })
            &&& m.ended() == Some(true) <==> replies.len() > 0 && replies.last() == SocketSend::Sent
            &&& m.ended() == Some(false) <==> replies.len() > 0 && replies.last()
                == SocketSend::Failed
        }),
    decreases replies.len(),
{
    if replies.len() > 0 {
        let before = replies.drop_last();
        first_datagram_is_tried_until_taken(len, to, before);
        crate::machine::invariant_holds(
            InitiateLoop::start(len, to),
            replies,
            |m: InitiateLoop| m.len == len && m.to == to,
        );
        assert forall|i: int| 0 <= i < replies.len() - 1 implies #[trigger] replies[i]
            == SocketSend::WouldBlock by {
            if i < before.len() - 1 {
                assert(before[i] == replies[i]);
            } else {
                assert(before.last() == replies[i]);
            }
        }
    }
}

/// Every outcome of handing the datagram to the socket is taken, and none once the loop has ended.
pub proof fn initiate_loops_take_every_answer(m: InitiateLoop, reply: SocketSend)
    ensures
        m.accepts(reply) <==> m.ended() is None,
{
}

} // verus!
