//! Handling what the QUIC stack reports about the paths.

use crate::addr::SocketAddr;
use crate::machine::Machine;
use crate::transport::PathEvent;
use vstd::prelude::*;

verus! {

/// What handling path events asks for.
#[derive(Clone, Copy, Debug, PartialEq, Eq, Structural)]
pub enum PathEventRequest {
    /// Take the next event from the queue.
    NextEvent,
    /// Find out whether the connection uses several paths.
    IsMultipath { local: SocketAddr, peer: SocketAddr },
    /// Use the path for data, if the stack allows it.
    SetActive { local: SocketAddr, peer: SocketAddr },
    /// Move the connection to the path.
    Migrate { local: SocketAddr, peer: SocketAddr },
    /// Send a challenge on the new path.
    ProbePath { local: SocketAddr, peer: SocketAddr },
    /// Tell the loss recovery of the path that a packet number space is gone.
    DiscardPacketNumSpace { local: SocketAddr, peer: SocketAddr },
    /// The queue is empty.
    Return,
}

/// The answers to a `PathEventRequest`.
#[derive(Clone, Copy, Debug, PartialEq, Eq, Structural)]
pub enum PathEventReply {
    /// The next event, if there is one.
    Event(Option<PathEvent>),
    /// The answer to a question, or the success of an attempt.
    Flag(bool),
    /// The request was carried out.
    Done,
}

/// Handles the path events of a client.
///
/// Only the client opens paths, so none is new to it and the server does not
/// migrate.
#[derive(Clone, Copy, Debug, PartialEq, Eq, Structural)]
pub struct ClientPathEvents {
    /// Move a connection of one path to a path that proves valid.
    pub perform_migration: bool,
    pub migrated: bool,
    pub request: PathEventRequest,
}

impl Machine for ClientPathEvents {
    type Reply = PathEventReply;

    open spec fn accepts(self, reply: PathEventReply) -> bool {
        match self.request {
            PathEventRequest::NextEvent => reply matches PathEventReply::Event(event) && !(event
                matches Some(PathEvent::New { .. })) && !(event matches Some(
                PathEvent::PeerMigrated { .. },
            )),
            PathEventRequest::IsMultipath { .. } => reply is Flag,
            PathEventRequest::SetActive { .. } | PathEventRequest::Migrate { .. }
            | PathEventRequest::DiscardPacketNumSpace { .. } => reply is Done,
            PathEventRequest::ProbePath { .. } | PathEventRequest::Return => false,
        }
    }

    open spec fn next(self, reply: PathEventReply) -> ClientPathEvents {
        match (self.request, reply) {
            (PathEventRequest::NextEvent, PathEventReply::Event(None)) => self.with(
                PathEventRequest::Return,
            ),
            (
                PathEventRequest::NextEvent,
                PathEventReply::Event(Some(PathEvent::Validated { local, peer })),
            ) => self.with(PathEventRequest::IsMultipath { local, peer }),
            (
                PathEventRequest::NextEvent,
                PathEventReply::Event(Some(PathEvent::PacketNumSpaceDiscarded { local, peer })),
            ) => self.with(PathEventRequest::DiscardPacketNumSpace { local, peer }),
            (PathEventRequest::IsMultipath { local, peer }, PathEventReply::Flag(true)) => self.with(
                PathEventRequest::SetActive { local, peer },
            ),
            (PathEventRequest::IsMultipath { local, peer }, PathEventReply::Flag(false)) => if self.perform_migration {
                self.with(PathEventRequest::Migrate { local, peer })
            } else {
                self.with(PathEventRequest::NextEvent)
            },
            (PathEventRequest::Migrate { .. }, _) => ClientPathEvents {
                migrated: true,
                ..self.with(PathEventRequest::NextEvent)
            },
            _ => self.with(PathEventRequest::NextEvent),
        }
    }
}

impl ClientPathEvents {
    pub open spec fn with(self, request: PathEventRequest) -> ClientPathEvents {
        ClientPathEvents { request, ..self }
    }

    pub open spec fn start(perform_migration: bool, migrated: bool) -> ClientPathEvents {
        ClientPathEvents { perform_migration, migrated, request: PathEventRequest::NextEvent }
    }

    /// Whether the connection has migrated, once all events are handled.
    pub open spec fn ended(self) -> Option<bool> {
        if self.request is Return {
            Some(self.migrated)
        } else {
            None
        }
    }

    pub fn new(perform_migration: bool, migrated: bool) -> (r: ClientPathEvents)
        ensures
            r == ClientPathEvents::start(perform_migration, migrated),
    {
        ClientPathEvents { perform_migration, migrated, request: PathEventRequest::NextEvent }
    }

    /// Tells whether `reply` answers the pending request.
    pub fn expects(&self, reply: &PathEventReply) -> (r: bool)
        ensures
            r == self.accepts(*reply),
    {
        match (self.request, reply) {
            (
                PathEventRequest::NextEvent,
                PathEventReply::Event(Some(PathEvent::New { .. })),
            ) => false,
            (
                PathEventRequest::NextEvent,
                PathEventReply::Event(Some(PathEvent::PeerMigrated { .. })),
            ) => false,
            (PathEventRequest::NextEvent, PathEventReply::Event(_)) => true,
            (PathEventRequest::IsMultipath { .. }, PathEventReply::Flag(_)) => true,
            (PathEventRequest::SetActive { .. }, PathEventReply::Done) => true,
            (PathEventRequest::Migrate { .. }, PathEventReply::Done) => true,
            (PathEventRequest::DiscardPacketNumSpace { .. }, PathEventReply::Done) => true,
            _ => false,
        }
    }

    /// Tells whether the connection has migrated, once all events are handled.
    pub fn outcome(&self) -> (r: Option<bool>)
        ensures
            r == self.ended(),
    {
        match self.request {
            PathEventRequest::Return => Some(self.migrated),
            _ => None,
        }
    }

    /// Takes the answer to the pending request.
    pub fn advance(&mut self, reply: PathEventReply)
        requires
            old(self).accepts(reply),
        ensures
            *final(self) == old(self).next(reply),
    {
        self.request = match (self.request, reply) {
            (PathEventRequest::NextEvent, PathEventReply::Event(event)) => match event {
                None => PathEventRequest::Return,
                Some(PathEvent::Validated { local, peer }) => PathEventRequest::IsMultipath {
                    local,
                    peer,
                },
                Some(PathEvent::PacketNumSpaceDiscarded { local, peer }) => {
                    PathEventRequest::DiscardPacketNumSpace { local, peer }
                },
                Some(_) => PathEventRequest::NextEvent,
            },
            (PathEventRequest::IsMultipath { local, peer }, PathEventReply::Flag(multipath)) => {
                if multipath {
                    PathEventRequest::SetActive { local, peer }
                } else if self.perform_migration {
                    PathEventRequest::Migrate { local, peer }
                } else {
                    PathEventRequest::NextEvent
                }
            },
            (PathEventRequest::Migrate { .. }, _) => {
                self.migrated = true;
                PathEventRequest::NextEvent
            },
            _ => PathEventRequest::NextEvent,
        };
    }
}

/// What a client does about a path, it does for the path that its last event
/// was about. A connection that has migrated stays so, and it migrates only if
/// it is to.
pub proof fn client_acts_on_validated_paths(
    perform_migration: bool,
    migrated: bool,
    replies: Seq<PathEventReply>,
)
    requires
        crate::machine::admits(ClientPathEvents::start(perform_migration, migrated), replies),
    ensures
        ({
            let start = ClientPathEvents::start(perform_migration, migrated);
            let m = crate::machine::run(start, replies);
            &&& m.perform_migration == perform_migration
            &&& migrated ==> m.migrated
            &&& m.migrated ==> migrated || perform_migration
            &&& m.request is Migrate ==> perform_migration
            &&& m.request matches PathEventRequest::IsMultipath { local, peer } ==> last_event(
                replies,
            ) == Some(PathEvent::Validated { local, peer })
            &&& m.request matches PathEventRequest::SetActive { local, peer } ==> last_event(
                replies,
            ) == Some(PathEvent::Validated { local, peer }) && replies.last()
                == PathEventReply::Flag(true)
            &&& m.request matches PathEventRequest::Migrate { local, peer } ==> last_event(replies)
                == Some(PathEvent::Validated { local, peer }) && replies.last()
                == PathEventReply::Flag(false)
            &&& m.request matches PathEventRequest::DiscardPacketNumSpace { local, peer }
                ==> last_event(replies) == Some(PathEvent::PacketNumSpaceDiscarded { local, peer })
            &&& m.request is Return <==> replies.len() > 0 && replies.last()
                == PathEventReply::Event(None)
        }),
    decreases replies.len(),
{
    if replies.len() > 0 {
        client_acts_on_validated_paths(perform_migration, migrated, replies.drop_last());
    }
}

/// The event that came last.
pub open spec fn last_event(replies: Seq<PathEventReply>) -> Option<PathEvent>
    decreases replies.len(),
{
    if replies.len() == 0 {
        None
    } else if replies.last() is Event {
        replies.last()->Event_0
    } else {
        last_event(replies.drop_last())
    }
}

/// Handles the path events of a server: it probes each path that is new.
#[derive(Clone, Copy, Debug, PartialEq, Eq, Structural)]
pub struct ServerPathEvents {
    /// The path of this thread was probed.
    pub probed_my_path: bool,
    pub request: PathEventRequest,
}

impl Machine for ServerPathEvents {
    type Reply = PathEventReply;

    open spec fn accepts(self, reply: PathEventReply) -> bool {
        match self.request {
            PathEventRequest::NextEvent => reply is Event,
            PathEventRequest::ProbePath { .. } | PathEventRequest::IsMultipath { .. } => reply is Flag,
            PathEventRequest::SetActive { .. } => reply is Done,
            _ => false,
        }
    }

    open spec fn next(self, reply: PathEventReply) -> ServerPathEvents {
        match (self.request, reply) {
            (PathEventRequest::NextEvent, PathEventReply::Event(None)) => self.with(
                PathEventRequest::Return,
            ),
            (
                PathEventRequest::NextEvent,
                PathEventReply::Event(Some(PathEvent::New { local, peer })),
            ) => self.with(PathEventRequest::ProbePath { local, peer }),
            (
                PathEventRequest::NextEvent,
                PathEventReply::Event(Some(PathEvent::Validated { local, peer })),
            ) => self.with(PathEventRequest::IsMultipath { local, peer }),
            (PathEventRequest::IsMultipath { local, peer }, PathEventReply::Flag(true)) => self.with(
                PathEventRequest::SetActive { local, peer },
            ),
            (PathEventRequest::ProbePath { .. }, PathEventReply::Flag(true)) => ServerPathEvents {
                probed_my_path: true,
                ..self.with(PathEventRequest::NextEvent)
            },
            _ => self.with(PathEventRequest::NextEvent),
        }
    }
}

impl ServerPathEvents {
    pub open spec fn with(self, request: PathEventRequest) -> ServerPathEvents {
        ServerPathEvents { request, ..self }
    }

    pub open spec fn start(probed_my_path: bool) -> ServerPathEvents {
        ServerPathEvents { probed_my_path, request: PathEventRequest::NextEvent }
    }

    /// Whether the path was probed, once all events are handled.
    pub open spec fn ended(self) -> Option<bool> {
        if self.request is Return {
            Some(self.probed_my_path)
        } else {
            None
        }
    }

    pub fn new(probed_my_path: bool) -> (r: ServerPathEvents)
        ensures
            r == ServerPathEvents::start(probed_my_path),
    {
        ServerPathEvents { probed_my_path, request: PathEventRequest::NextEvent }
    }

    /// Tells whether `reply` answers the pending request.
    pub fn expects(&self, reply: &PathEventReply) -> (r: bool)
        ensures
            r == self.accepts(*reply),
    {
        match (self.request, reply) {
            (PathEventRequest::NextEvent, PathEventReply::Event(_)) => true,
            (PathEventRequest::ProbePath { .. }, PathEventReply::Flag(_)) => true,
            (PathEventRequest::IsMultipath { .. }, PathEventReply::Flag(_)) => true,
            (PathEventRequest::SetActive { .. }, PathEventReply::Done) => true,
            _ => false,
        }
    }

    /// Tells whether the path was probed, once all events are handled.
    pub fn outcome(&self) -> (r: Option<bool>)
        ensures
            r == self.ended(),
    {
        match self.request {
            PathEventRequest::Return => Some(self.probed_my_path),
            _ => None,
        }
    }

    /// Takes the answer to the pending request.
    pub fn advance(&mut self, reply: PathEventReply)
        requires
            old(self).accepts(reply),
        ensures
            *final(self) == old(self).next(reply),
    {
        self.request = match (self.request, reply) {
            (PathEventRequest::NextEvent, PathEventReply::Event(event)) => match event {
                None => PathEventRequest::Return,
                Some(PathEvent::New { local, peer }) => PathEventRequest::ProbePath { local, peer },
                Some(PathEvent::Validated { local, peer }) => PathEventRequest::IsMultipath {
                    local,
                    peer,
                },
                Some(_) => PathEventRequest::NextEvent,
            },
            (PathEventRequest::IsMultipath { local, peer }, PathEventReply::Flag(true)) => {
                PathEventRequest::SetActive { local, peer }
            },
            (PathEventRequest::ProbePath { .. }, PathEventReply::Flag(true)) => {
                self.probed_my_path = true;
                PathEventRequest::NextEvent
            },
            _ => PathEventRequest::NextEvent,
        };
    }
}

/// A server probes the paths that are new, and uses for data those that are
/// valid. A path that was probed stays so.
pub proof fn server_acts_on_new_and_validated_paths(
    probed_my_path: bool,
    replies: Seq<PathEventReply>,
)
    requires
        crate::machine::admits(ServerPathEvents::start(probed_my_path), replies),
    ensures
        ({
            let m = crate::machine::run(ServerPathEvents::start(probed_my_path), replies);
            &&& probed_my_path ==> m.probed_my_path
            &&& m.request matches PathEventRequest::ProbePath { local, peer } ==> last_event(
                replies,
            ) == Some(PathEvent::New { local, peer })
            &&& m.request matches PathEventRequest::IsMultipath { local, peer } ==> last_event(
                replies,
            ) == Some(PathEvent::Validated { local, peer })
            &&& m.request matches PathEventRequest::SetActive { local, peer } ==> last_event(
                replies,
            ) == Some(PathEvent::Validated { local, peer }) && replies.last()
                == PathEventReply::Flag(true)
            &&& m.request is Return <==> replies.len() > 0 && replies.last()
                == PathEventReply::Event(None)
        }),
    decreases replies.len(),
{
    if replies.len() > 0 {
        server_acts_on_new_and_validated_paths(probed_my_path, replies.drop_last());
    }
}

impl ServerPathEvents {
    /// A probe of a new path succeeds.
    pub open spec fn probe_succeeds() -> spec_fn(ServerPathEvents, PathEventReply) -> bool {
        |m: ServerPathEvents, reply: PathEventReply|
            m.request is ProbePath && reply == PathEventReply::Flag(true)
    }
}

/// A path comes to count as probed by a probe of a new path that succeeds, and in
/// no other way.
pub proof fn server_probes_new_paths(probed_my_path: bool, replies: Seq<PathEventReply>)
    requires
        crate::machine::admits(ServerPathEvents::start(probed_my_path), replies),
    ensures
        ({
            let start = ServerPathEvents::start(probed_my_path);
            crate::machine::run(start, replies).probed_my_path <==> probed_my_path
                || crate::machine::answered(start, replies, ServerPathEvents::probe_succeeds())
        }),
    decreases replies.len(),
{
    if replies.len() > 0 {
        server_probes_new_paths(probed_my_path, replies.drop_last());
    }
}

/// The new path that an event tells of, if it tells of one.
pub open spec fn new_path(event: PathEvent) -> Option<(SocketAddr, SocketAddr)> {
    match event {
        PathEvent::New { local, peer } => Some((local, peer)),
        _ => None,
    }
}

/// The valid path that an event tells of, if it tells of one.
pub open spec fn valid_path(event: PathEvent) -> Option<(SocketAddr, SocketAddr)> {
    match event {
        PathEvent::Validated { local, peer } => Some((local, peer)),
        _ => None,
    }
}

/// The paths that the events tell of, in order, as far as `pick` selects them.
pub open spec fn paths_told(
    replies: Seq<PathEventReply>,
    pick: spec_fn(PathEvent) -> Option<(SocketAddr, SocketAddr)>,
) -> Seq<(SocketAddr, SocketAddr)>
    decreases replies.len(),
{
    if replies.len() == 0 {
        seq![]
    } else {
        let before = paths_told(replies.drop_last(), pick);
        match replies.last() {
            PathEventReply::Event(Some(event)) => match pick(event) {
                Some(path) => before.push(path),
                None => before,
            },
            _ => before,
        }
    }
}

/// The path that is being considered for data, if one is.
pub open spec fn considered(request: PathEventRequest) -> Option<(SocketAddr, SocketAddr)> {
    match request {
        PathEventRequest::IsMultipath { local, peer } => Some((local, peer)),
        _ => None,
    }
}

/// The path that is being probed, if one is.
pub open spec fn probed(request: PathEventRequest) -> Option<(SocketAddr, SocketAddr)> {
    match request {
        PathEventRequest::ProbePath { local, peer } => Some((local, peer)),
        _ => None,
    }
}

/// A client considers each valid path that it is told of: in order, and once for
/// each time that it is told.
pub proof fn client_considers_every_valid_path(
    perform_migration: bool,
    migrated: bool,
    replies: Seq<PathEventReply>,
)
    requires
        crate::machine::admits(ClientPathEvents::start(perform_migration, migrated), replies),
    ensures
        crate::machine::issued(
            ClientPathEvents::start(perform_migration, migrated),
            replies,
            |m: ClientPathEvents| considered(m.request),
        ) == paths_told(replies, |event: PathEvent| valid_path(event)),
    decreases replies.len(),
{
    if replies.len() > 0 {
        client_considers_every_valid_path(perform_migration, migrated, replies.drop_last());
    }
}

/// A server probes each new path and considers each valid path that it is told of:
/// in order, and once for each time that it is told.
pub proof fn server_acts_on_every_path(probed_my_path: bool, replies: Seq<PathEventReply>)
    requires
        crate::machine::admits(ServerPathEvents::start(probed_my_path), replies),
    ensures
        crate::machine::issued(
            ServerPathEvents::start(probed_my_path),
            replies,
            |m: ServerPathEvents| probed(m.request),
        ) == paths_told(replies, |event: PathEvent| new_path(event)),
        crate::machine::issued(
            ServerPathEvents::start(probed_my_path),
            replies,
            |m: ServerPathEvents| considered(m.request),
        ) == paths_told(replies, |event: PathEvent| valid_path(event)),
    decreases replies.len(),
{
    if replies.len() > 0 {
        server_acts_on_every_path(probed_my_path, replies.drop_last());
    }
}

/// How a client handles its path events: one after the other until there are no more. A
/// path that proves valid is used for data if the connection uses several paths. Else the
/// connection migrates to it, if it is to. Only this makes the connection count as
/// migrated.
pub proof fn client_handles_events_in_order(
    perform_migration: bool,
    migrated: bool,
    replies: Seq<PathEventReply>,
)
    requires
        crate::machine::admits(ClientPathEvents::start(perform_migration, migrated), replies),
    ensures
        ({
            let start = ClientPathEvents::start(perform_migration, migrated);
            let asked = crate::machine::run(start, replies.drop_last()).request;
            let last = replies.last();
            let m = crate::machine::run(start, replies);
            let next = m.request;
            let moved = migrated || crate::machine::answered(
                start,
                replies,
                |m: ClientPathEvents, reply: PathEventReply| m.request is Migrate,
            );
            &&& m.migrated == moved
            &&& m.ended() == if next is Return {
                Some(moved)
            } else {
                None
            }
            &&& replies.len() == 0 ==> next == PathEventRequest::NextEvent
            &&& replies.len() > 0 ==> {
                &&& asked is NextEvent ==> next == match last {
                    PathEventReply::Event(None) => PathEventRequest::Return,
                    PathEventReply::Event(Some(PathEvent::Validated { local, peer })) => {
                        PathEventRequest::IsMultipath { local, peer }
                    },
                    PathEventReply::Event(
                        Some(PathEvent::PacketNumSpaceDiscarded { local, peer }),
                    ) => PathEventRequest::DiscardPacketNumSpace { local, peer },
                    _ => PathEventRequest::NextEvent,
                }
                &&& asked matches PathEventRequest::IsMultipath { local, peer } ==> next == if last
                    == PathEventReply::Flag(true) {
                    PathEventRequest::SetActive { local, peer }
                } else if perform_migration {
                    PathEventRequest::Migrate { local, peer }
                } else {
                    PathEventRequest::NextEvent
                }
                &&& !(asked is NextEvent || asked is IsMultipath) ==> next
                    == PathEventRequest::NextEvent
            }
        }),
    decreases replies.len(),
{
    client_acts_on_validated_paths(perform_migration, migrated, replies);
    if replies.len() > 0 {
        client_acts_on_validated_paths(perform_migration, migrated, replies.drop_last());
        client_handles_events_in_order(perform_migration, migrated, replies.drop_last());
    }
}

/// How a server handles its path events: one after the other until there are no more. It
/// probes a path that is new. A path that proves valid is used for data if and only if
/// the connection uses several paths.
pub proof fn server_handles_events_in_order(probed_my_path: bool, replies: Seq<PathEventReply>)
    requires
        crate::machine::admits(ServerPathEvents::start(probed_my_path), replies),
    ensures
        ({
            let start = ServerPathEvents::start(probed_my_path);
            let asked = crate::machine::run(start, replies.drop_last()).request;
            let last = replies.last();
            let m = crate::machine::run(start, replies);
            let next = m.request;
            let probed = probed_my_path || crate::machine::answered(
                start,
                replies,
                ServerPathEvents::probe_succeeds(),
            );
            &&& m.ended() == if next is Return {
                Some(probed)
            } else {
                None
            }
            &&& replies.len() == 0 ==> next == PathEventRequest::NextEvent
            &&& replies.len() > 0 ==> {
                &&& asked is NextEvent ==> next == match last {
                    PathEventReply::Event(None) => PathEventRequest::Return,
                    PathEventReply::Event(Some(PathEvent::New { local, peer })) => {
                        PathEventRequest::ProbePath { local, peer }
                    },
                    PathEventReply::Event(Some(PathEvent::Validated { local, peer })) => {
                        PathEventRequest::IsMultipath { local, peer }
                    },
                    _ => PathEventRequest::NextEvent,
                }
                &&& asked matches PathEventRequest::IsMultipath { local, peer } ==> next == if last
                    == PathEventReply::Flag(true) {
                    PathEventRequest::SetActive { local, peer }
                } else {
                    PathEventRequest::NextEvent
                }
                &&& !(asked is NextEvent || asked is IsMultipath) ==> next
                    == PathEventRequest::NextEvent
            }
        }),
{
    server_probes_new_paths(probed_my_path, replies);
}

/// The paths that were found to be usable for data, in order: those that were considered
/// while the connection uses several paths.
pub open spec fn confirmed(start: ServerPathEvents, replies: Seq<PathEventReply>) -> Seq<
    (SocketAddr, SocketAddr),
>
    decreases replies.len(),
{
    if replies.len() == 0 {
        seq![]
    } else {
        let earlier = confirmed(start, replies.drop_last());
        match (crate::machine::run(start, replies.drop_last()).request, replies.last()) {
            (PathEventRequest::IsMultipath { local, peer }, PathEventReply::Flag(true)) => {
                earlier.push((local, peer))
            },
            _ => earlier,
        }
    }
}

/// The paths that a server uses for data are exactly the valid ones that are found to be
/// usable, in order.
pub proof fn server_uses_the_confirmed_paths(probed_my_path: bool, replies: Seq<PathEventReply>)
    requires
        crate::machine::admits(ServerPathEvents::start(probed_my_path), replies),
    ensures
        crate::machine::issued(
            ServerPathEvents::start(probed_my_path),
            replies,
            |m: ServerPathEvents|
                match m.request {
                    PathEventRequest::SetActive { local, peer } => Some((local, peer)),
                    _ => None,
                },
        ) == confirmed(ServerPathEvents::start(probed_my_path), replies),
    decreases replies.len(),
{
    if replies.len() > 0 {
        server_uses_the_confirmed_paths(probed_my_path, replies.drop_last());
    }
}

/// Every answer of the right kind is taken, whatever it says, and none of another kind. But a
/// client is never told of a new path or of a peer that migrated.
pub proof fn path_events_take_every_answer(
    client: ClientPathEvents,
    server: ServerPathEvents,
    reply: PathEventReply,
)
    ensures
        client.request is NextEvent ==> (client.accepts(reply) <==> match reply {
            PathEventReply::Event(Some(PathEvent::New { .. })) => false,
            PathEventReply::Event(Some(PathEvent::PeerMigrated { .. })) => false,
            PathEventReply::Event(_) => true,
            _ => false,
        }),
        client.request is IsMultipath ==> (client.accepts(reply) <==> reply is Flag),
        client.request is SetActive || client.request is Migrate || client.request
            is DiscardPacketNumSpace ==> (client.accepts(reply) <==> reply is Done),
        client.request is Return ==> !client.accepts(reply),
        server.request is NextEvent ==> (server.accepts(reply) <==> reply is Event),
        server.request is ProbePath || server.request is IsMultipath ==> (server.accepts(reply)
            <==> reply is Flag),
        server.request is SetActive ==> (server.accepts(reply) <==> reply is Done),
        server.request is Return ==> !server.accepts(reply),
{
}

} // verus!
