//! What a client does between reading and sending: connection identifiers,
//! probes of further paths, and changes of paths that were asked for.

use crate::addr::SocketAddr;
use crate::args::{PathRemoval, PathStatusChange};
use crate::machine::Machine;
use vstd::prelude::*;

verus! {

/// The error code that paths are abandoned with.
pub const ABANDON_CODE: u64 = 0;

/// Changes of status are advertised to the peer.
pub const ADVERTISE_STATUS: bool = true;

/// The position of the socket whose path a connection of one path migrates to.
pub const MIGRATION_SOCKET: usize = 1;

/// The bytes of "do not use me anymore".
pub open spec fn abandon_reason_bytes() -> Seq<u8> {
    seq![
        100u8, 111, 32, 110, 111, 116, 32, 117, 115, 101, 32, 109, 101, 32, 97, 110, 121, 109, 111,
        114, 101,
    ]
}

/// The reason that paths are abandoned for.
pub fn abandon_reason() -> (r: Vec<u8>)
    ensures
        r@ == abandon_reason_bytes(),
{
    let bytes: Vec<u8> = vec![
        100, 111, 32, 110, 111, 116, 32, 117, 115, 101, 32, 109, 101, 32, 97, 110, 121, 109, 111,
        114, 101,
    ];
    assert(bytes@ =~= abandon_reason_bytes());
    bytes
}

/// What the upkeep of a connection asks for.
#[derive(Clone, Copy, Debug, PartialEq, Eq, Structural)]
pub enum UpkeepRequest {
    /// Take the next identifier that the peer has retired.
    RetiredScid,
    /// Find out whether the peer can take another connection identifier.
    SourceCidsLeft,
    /// Give the peer a new connection identifier.
    NewSourceCid,
    /// Find out whether there is an unused identifier of the peer, to probe
    /// the next path with.
    DcidsToProbe,
    /// Send a challenge on the path from `local` to `peer`.
    ProbePath { local: SocketAddr, peer: SocketAddr },
    /// Find out whether there is an unused identifier of the peer, to migrate
    /// with.
    DcidsToMigrate,
    /// Send a challenge on the path that the connection is to migrate to: the one
    /// from the socket at `socket` to `peer`.
    ProbeSecondPath { socket: usize, peer: SocketAddr },
    /// Find out whether the connection uses several paths.
    IsMultipath,
    /// Tell the time since the start, for the removal at `index`.
    RemovalTime { index: usize },
    /// Abandon the path from `addr` to `peer`, with the error code `code`.
    AbandonPath { index: usize, addr: SocketAddr, peer: SocketAddr, code: u64 },
    /// Tell the time since the start, for the change of status at `index`.
    StatusTime { index: usize },
    /// Set the status of the path from `addr` to `peer`, and advertise it if
    /// `advertise`.
    SetPathStatus {
        index: usize,
        addr: SocketAddr,
        peer: SocketAddr,
        available: bool,
        advertise: bool,
    },
    /// The upkeep is done.
    Return,
}

/// The answers to an `UpkeepRequest`.
#[derive(Clone, Copy, Debug, PartialEq, Eq, Structural)]
pub enum UpkeepReply {
    /// The request was carried out.
    Done,
    /// The answer to a question, or the success of an attempt.
    Flag(bool),
    /// Nanoseconds since the start.
    Elapsed(u128),
}

/// The state of the upkeep of a connection.
#[verifier::ext_equal]
pub struct UpkeepState {
    pub multipath: bool,
    pub perform_migration: bool,
    /// The address that the connection was started to.
    pub peer: SocketAddr,
    /// The two ends of the paths that are probed in turn.
    pub paths: Seq<(SocketAddr, SocketAddr)>,
    /// Paths that are still to be abandoned.
    pub rm_addrs: Seq<PathRemoval>,
    /// Changes of status that are still to be advertised.
    pub status: Seq<PathStatusChange>,
    /// Number of paths that were probed.
    pub probed_paths: usize,
    /// A connection identifier was given to the peer.
    pub scid_sent: bool,
    /// The path to migrate to was probed.
    pub new_path_probed: bool,
    pub request: UpkeepRequest,
}

impl UpkeepState {
    pub open spec fn with(self, request: UpkeepRequest) -> UpkeepState {
        UpkeepState { request, ..self }
    }

    /// The pending request speaks of an address, a removal or a change that
    /// is there.
    pub open spec fn well_formed(self) -> bool {
        &&& self.probed_paths <= self.paths.len() <= usize::MAX
        &&& self.rm_addrs.len() <= usize::MAX
        &&& self.status.len() <= usize::MAX
        &&& match self.request {
            UpkeepRequest::DcidsToProbe => self.probed_paths < self.paths.len(),
            UpkeepRequest::ProbePath { local, peer } => self.probed_paths < self.paths.len() && (
            local, peer) == self.paths[self.probed_paths as int],
            UpkeepRequest::ProbeSecondPath { socket, peer } => socket == MIGRATION_SOCKET && peer
                == self.peer,
            UpkeepRequest::RemovalTime { index } => index < self.rm_addrs.len(),
            UpkeepRequest::AbandonPath { index, addr, peer, code } => {
                &&& index < self.rm_addrs.len()
                &&& addr == self.rm_addrs[index as int].addr
                &&& peer == self.peer
                &&& code == ABANDON_CODE
            },
            UpkeepRequest::StatusTime { index } => index < self.status.len(),
            UpkeepRequest::SetPathStatus { index, addr, peer, available, advertise } => {
                &&& index < self.status.len()
                &&& addr == self.status[index as int].addr
                &&& peer == self.peer
                &&& available == self.status[index as int].available
                &&& advertise == ADVERTISE_STATUS
            },
            _ => true,
        }
    }

    /// A connection of several paths probes one path after the other.
    pub open spec fn probe(self) -> UpkeepState {
        if self.multipath && self.probed_paths < self.paths.len() {
            self.with(UpkeepRequest::DcidsToProbe)
        } else {
            self.migrate()
        }
    }

    /// A connection of one path probes the path it is to migrate to, once,
    /// after the peer was given an identifier.
    pub open spec fn migrate(self) -> UpkeepState {
        if !self.multipath && self.perform_migration && !self.new_path_probed && self.scid_sent {
            self.with(UpkeepRequest::DcidsToMigrate)
        } else {
            self.with(UpkeepRequest::IsMultipath)
        }
    }

    /// Goes on with the removal at `index`, or with the changes of status.
    pub open spec fn removal(self, index: int) -> UpkeepState {
        if index < self.rm_addrs.len() {
            self.with(UpkeepRequest::RemovalTime { index: index as usize })
        } else {
            self.change(0)
        }
    }

    /// Goes on with the change of status at `index`, or ends.
    pub open spec fn change(self, index: int) -> UpkeepState {
        if index < self.status.len() {
            self.with(UpkeepRequest::StatusTime { index: index as usize })
        } else {
            self.with(UpkeepRequest::Return)
        }
    }

    /// The state in which a pass over the connection begins.
    pub open spec fn begun(self) -> UpkeepState {
        self.with(UpkeepRequest::RetiredScid)
    }
}

impl Machine for UpkeepState {
    type Reply = UpkeepReply;

    open spec fn accepts(self, reply: UpkeepReply) -> bool {
        match self.request {
            UpkeepRequest::RetiredScid | UpkeepRequest::SourceCidsLeft
            | UpkeepRequest::NewSourceCid | UpkeepRequest::DcidsToProbe
            | UpkeepRequest::ProbePath { .. } | UpkeepRequest::DcidsToMigrate
            | UpkeepRequest::IsMultipath | UpkeepRequest::AbandonPath { .. }
            | UpkeepRequest::SetPathStatus { .. } => reply is Flag,
            UpkeepRequest::ProbeSecondPath { .. } => reply is Done,
            UpkeepRequest::RemovalTime { .. } | UpkeepRequest::StatusTime { .. } => reply is Elapsed,
            UpkeepRequest::Return => false,
        }
    }

    open spec fn next(self, reply: UpkeepReply) -> UpkeepState {
        match (self.request, reply) {
            (UpkeepRequest::RetiredScid, UpkeepReply::Flag(true)) => self,
            (UpkeepRequest::RetiredScid, _) => self.with(UpkeepRequest::SourceCidsLeft),
            (UpkeepRequest::SourceCidsLeft, UpkeepReply::Flag(true)) => self.with(
                UpkeepRequest::NewSourceCid,
            ),
            (UpkeepRequest::NewSourceCid, UpkeepReply::Flag(true)) => UpkeepState {
                scid_sent: true,
                ..self.with(UpkeepRequest::SourceCidsLeft)
            },
            (UpkeepRequest::SourceCidsLeft, _) | (UpkeepRequest::NewSourceCid, _) => self.probe(),
            (UpkeepRequest::DcidsToProbe, UpkeepReply::Flag(true)) => self.with(
                UpkeepRequest::ProbePath {
                    local: self.paths[self.probed_paths as int].0,
                    peer: self.paths[self.probed_paths as int].1,
                },
            ),
            (UpkeepRequest::ProbePath { .. }, UpkeepReply::Flag(true)) => UpkeepState {
                probed_paths: (self.probed_paths + 1) as usize,
                ..self
            }.migrate(),
            (UpkeepRequest::DcidsToProbe, _) | (UpkeepRequest::ProbePath { .. }, _) => self.migrate(),
            (UpkeepRequest::DcidsToMigrate, UpkeepReply::Flag(true)) => self.with(
                UpkeepRequest::ProbeSecondPath { socket: MIGRATION_SOCKET, peer: self.peer },
            ),
            (UpkeepRequest::DcidsToMigrate, _) => self.with(UpkeepRequest::IsMultipath),
            (UpkeepRequest::ProbeSecondPath { .. }, _) => UpkeepState {
                new_path_probed: true,
                ..self.with(UpkeepRequest::IsMultipath)
            },
            (UpkeepRequest::IsMultipath, UpkeepReply::Flag(true)) => self.removal(0),
            (UpkeepRequest::IsMultipath, _) => self.with(UpkeepRequest::Return),
            (UpkeepRequest::RemovalTime { index }, UpkeepReply::Elapsed(nanos)) => if nanos
                >= self.rm_addrs[index as int].after_nanos {
                self.with(
                    UpkeepRequest::AbandonPath {
                        index,
                        addr: self.rm_addrs[index as int].addr,
                        peer: self.peer,
                        code: ABANDON_CODE,
                    },
                )
            } else {
                self.removal(index + 1)
            },
            // What could not be done is tried again in the next pass.
            (UpkeepRequest::AbandonPath { index, .. }, UpkeepReply::Flag(true)) => UpkeepState {
                rm_addrs: self.rm_addrs.remove(index as int),
                ..self
            }.removal(index as int),
            (UpkeepRequest::AbandonPath { index, .. }, _) => self.removal(index + 1),
            (UpkeepRequest::StatusTime { index }, UpkeepReply::Elapsed(nanos)) => if nanos
                >= self.status[index as int].after_nanos {
                self.with(
                    UpkeepRequest::SetPathStatus {
                        index,
                        addr: self.status[index as int].addr,
                        peer: self.peer,
                        available: self.status[index as int].available,
                        advertise: ADVERTISE_STATUS,
                    },
                )
            } else {
                self.change(index + 1)
            },
            (UpkeepRequest::SetPathStatus { index, .. }, UpkeepReply::Flag(true)) => UpkeepState {
                status: self.status.remove(index as int),
                ..self
            }.change(index as int),
            (UpkeepRequest::SetPathStatus { index, .. }, _) => self.change(index + 1),
            _ => self,
        }
    }
}

/// The upkeep of a connection.
#[derive(Debug)]
pub struct Upkeep {
    pub multipath: bool,
    pub perform_migration: bool,
    pub peer: SocketAddr,
    pub paths: Vec<(SocketAddr, SocketAddr)>,
    pub rm_addrs: Vec<PathRemoval>,
    pub status: Vec<PathStatusChange>,
    pub probed_paths: usize,
    pub scid_sent: bool,
    pub new_path_probed: bool,
    pub request: UpkeepRequest,
}

impl View for Upkeep {
    type V = UpkeepState;

    open spec fn view(&self) -> UpkeepState {
        UpkeepState {
            multipath: self.multipath,
            perform_migration: self.perform_migration,
            peer: self.peer,
            paths: self.paths@,
            rm_addrs: self.rm_addrs@,
            status: self.status@,
            probed_paths: self.probed_paths,
            scid_sent: self.scid_sent,
            new_path_probed: self.new_path_probed,
            request: self.request,
        }
    }
}

impl Upkeep {
    /// Starts with the paths that can be probed and the changes that were asked
    /// for, on a connection to `peer`.
    pub fn new(
        multipath: bool,
        perform_migration: bool,
        peer: SocketAddr,
        paths: Vec<(SocketAddr, SocketAddr)>,
        rm_addrs: Vec<PathRemoval>,
        status: Vec<PathStatusChange>,
    ) -> (r: Upkeep)
        ensures
            r@ == (UpkeepState {
                multipath,
                perform_migration,
                peer,
                paths: paths@,
                rm_addrs: rm_addrs@,
                status: status@,
                probed_paths: 0,
                scid_sent: false,
                new_path_probed: false,
                request: UpkeepRequest::RetiredScid,
            }),
            r@.well_formed(),
    {
        broadcast use vstd::std_specs::vec::axiom_spec_len;

        assert(paths.len() == paths@.len());
        assert(rm_addrs.len() == rm_addrs@.len());
        assert(status.len() == status@.len());
        Upkeep {
            multipath,
            perform_migration,
            peer,
            paths,
            rm_addrs,
            status,
            probed_paths: 0,
            scid_sent: false,
            new_path_probed: false,
            request: UpkeepRequest::RetiredScid,
        }
    }

    /// Begins another pass.
    pub fn begin(&mut self)
        ensures
            final(self)@ == old(self)@.begun(),
            old(self)@.well_formed() ==> final(self)@.well_formed(),
    {
        self.request = UpkeepRequest::RetiredScid;
    }

    /// Tells whether `reply` answers the pending request.
    pub fn expects(&self, reply: &UpkeepReply) -> (r: bool)
        ensures
            r == self@.accepts(*reply),
    {
        match (self.request, reply) {
            (UpkeepRequest::RetiredScid, UpkeepReply::Flag(_)) => true,
            (UpkeepRequest::SourceCidsLeft, UpkeepReply::Flag(_)) => true,
            (UpkeepRequest::NewSourceCid, UpkeepReply::Flag(_)) => true,
            (UpkeepRequest::DcidsToProbe, UpkeepReply::Flag(_)) => true,
            (UpkeepRequest::DcidsToMigrate, UpkeepReply::Flag(_)) => true,
            (UpkeepRequest::IsMultipath, UpkeepReply::Flag(_)) => true,
            (UpkeepRequest::ProbePath { .. }, UpkeepReply::Flag(_)) => true,
            (UpkeepRequest::AbandonPath { .. }, UpkeepReply::Flag(_)) => true,
            (UpkeepRequest::SetPathStatus { .. }, UpkeepReply::Flag(_)) => true,
            (UpkeepRequest::ProbeSecondPath { .. }, UpkeepReply::Done) => true,
            (UpkeepRequest::RemovalTime { .. }, UpkeepReply::Elapsed(_)) => true,
            (UpkeepRequest::StatusTime { .. }, UpkeepReply::Elapsed(_)) => true,
            _ => false,
        }
    }

    fn go_probe(&mut self)
        ensures
            final(self)@ == old(self)@.probe(),
    {
        if self.multipath && self.probed_paths < self.paths.len() {
            self.request = UpkeepRequest::DcidsToProbe;
        } else {
            self.go_migrate();
        }
    }

    fn go_migrate(&mut self)
        ensures
            final(self)@ == old(self)@.migrate(),
    {
        self.request = if !self.multipath && self.perform_migration && !self.new_path_probed
            && self.scid_sent {
            UpkeepRequest::DcidsToMigrate
        } else {
            UpkeepRequest::IsMultipath
        };
    }

    fn go_removal(&mut self, index: usize)
        ensures
            final(self)@ == old(self)@.removal(index as int),
    {
        if index < self.rm_addrs.len() {
            self.request = UpkeepRequest::RemovalTime { index };
        } else {
            self.go_change(0);
        }
    }

    fn go_change(&mut self, index: usize)
        ensures
            final(self)@ == old(self)@.change(index as int),
    {
        self.request = if index < self.status.len() {
            UpkeepRequest::StatusTime { index }
        } else {
            UpkeepRequest::Return
        };
    }

    /// Takes the answer to the pending request.
    pub fn advance(&mut self, reply: UpkeepReply)
        requires
            old(self)@.accepts(reply),
            old(self)@.well_formed(),
        ensures
            final(self)@ == old(self)@.next(reply),
            final(self)@.well_formed(),
    {
        match (self.request, reply) {
            (UpkeepRequest::RetiredScid, UpkeepReply::Flag(more)) => {
                if !more {
                    self.request = UpkeepRequest::SourceCidsLeft;
                }
            },
            (UpkeepRequest::SourceCidsLeft, UpkeepReply::Flag(left)) => {
                if left {
                    self.request = UpkeepRequest::NewSourceCid;
                } else {
                    self.go_probe();
                }
            },
            (UpkeepRequest::NewSourceCid, UpkeepReply::Flag(ok)) => {
                if ok {
                    self.scid_sent = true;
                    self.request = UpkeepRequest::SourceCidsLeft;
                } else {
                    self.go_probe();
                }
            },
            (UpkeepRequest::DcidsToProbe, UpkeepReply::Flag(available)) => {
                if available {
                    let (local, peer) = self.paths[self.probed_paths];
                    self.request = UpkeepRequest::ProbePath { local, peer };
                } else {
                    self.go_migrate();
                }
            },
            (UpkeepRequest::ProbePath { .. }, UpkeepReply::Flag(ok)) => {
                if ok {
                    self.probed_paths = self.probed_paths + 1;
                }
                self.go_migrate();
            },
            (UpkeepRequest::DcidsToMigrate, UpkeepReply::Flag(available)) => {
                self.request = if available {
                    UpkeepRequest::ProbeSecondPath { socket: MIGRATION_SOCKET, peer: self.peer }
                } else {
                    UpkeepRequest::IsMultipath
                };
            },
            (UpkeepRequest::ProbeSecondPath { .. }, _) => {
                self.new_path_probed = true;
                self.request = UpkeepRequest::IsMultipath;
            },
            (UpkeepRequest::IsMultipath, UpkeepReply::Flag(multipath)) => {
                if multipath {
                    self.go_removal(0);
                } else {
                    self.request = UpkeepRequest::Return;
                }
            },
            (UpkeepRequest::RemovalTime { index }, UpkeepReply::Elapsed(nanos)) => {
                if nanos >= self.rm_addrs[index].after_nanos {
                    self.request = UpkeepRequest::AbandonPath {
                        index,
                        addr: self.rm_addrs[index].addr,
                        peer: self.peer,
                        code: ABANDON_CODE,
                    };
                } else {
                    self.go_removal(index + 1);
                }
            },
            (UpkeepRequest::AbandonPath { index, .. }, UpkeepReply::Flag(ok)) => {
                if ok {
                    let _ = self.rm_addrs.remove(index);
                    self.go_removal(index);
                } else {
                    self.go_removal(index + 1);
                }
            },
            (UpkeepRequest::StatusTime { index }, UpkeepReply::Elapsed(nanos)) => {
                if nanos >= self.status[index].after_nanos {
                    self.request = UpkeepRequest::SetPathStatus {
                        index,
                        addr: self.status[index].addr,
                        peer: self.peer,
                        available: self.status[index].available,
                        advertise: ADVERTISE_STATUS,
                    };
                } else {
                    self.go_change(index + 1);
                }
            },
            (UpkeepRequest::SetPathStatus { index, .. }, UpkeepReply::Flag(ok)) => {
                if ok {
                    let _ = self.status.remove(index);
                    self.go_change(index);
                } else {
                    self.go_change(index + 1);
                }
            },
            _ => {},
        }
    }
}

/// In every state of every run of a pass the pending request speaks of what is
/// there. The paths stay as they are, and what was done stays done.
pub proof fn upkeep_stays_well_formed(m: UpkeepState, replies: Seq<UpkeepReply>)
    requires
        m.well_formed(),
        crate::machine::admits(m, replies),
    ensures
        ({
            let later = crate::machine::run(m, replies);
            &&& later.well_formed()
            &&& later.multipath == m.multipath
            &&& later.perform_migration == m.perform_migration
            &&& later.peer == m.peer
            &&& later.paths == m.paths
            &&& m.probed_paths <= later.probed_paths
            &&& m.scid_sent ==> later.scid_sent
            &&& m.new_path_probed ==> later.new_path_probed
        }),
    decreases replies.len(),
{
    if replies.len() > 0 {
        upkeep_stays_well_formed(m, replies.drop_last());
    }
}

impl UpkeepState {
    /// What a request to probe tells about the connection.
    pub open spec fn probes_in_turn(self) -> bool {
        match self.request {
            UpkeepRequest::DcidsToProbe | UpkeepRequest::ProbePath { .. } => self.multipath,
            UpkeepRequest::DcidsToMigrate | UpkeepRequest::ProbeSecondPath { .. } => {
                &&& !self.multipath
                &&& self.perform_migration
                &&& !self.new_path_probed
                &&& self.scid_sent
            },
            _ => true,
        }
    }
}

/// A pass of a connection of several paths probes the next path that was not
/// probed yet, and no other. One of a connection of a single path probes
/// the path to migrate to, if it is to migrate and has given out an identifier.
pub proof fn probes_are_in_turn(m: UpkeepState, replies: Seq<UpkeepReply>)
    requires
        m.well_formed(),
        crate::machine::admits(m.begun(), replies),
    ensures
        ({
            let later = crate::machine::run(m.begun(), replies);
            &&& later.probes_in_turn()
            &&& later.request matches UpkeepRequest::ProbePath { local, peer } ==> (local, peer)
                == m.paths[m.probed_paths as int]
            &&& later.request matches UpkeepRequest::ProbeSecondPath { socket, peer } ==> socket
                == MIGRATION_SOCKET && peer == m.peer
            &&& later.probed_paths <= m.probed_paths + 1
        }),
{
    lemma_probes(m, replies);
    upkeep_stays_well_formed(m.begun(), replies);
}

proof fn lemma_probes(m: UpkeepState, replies: Seq<UpkeepReply>)
    requires
        m.well_formed(),
        crate::machine::admits(m.begun(), replies),
    ensures
        ({
            let later = crate::machine::run(m.begun(), replies);
            &&& later.probes_in_turn()
            &&& later.probed_paths <= m.probed_paths + 1
            &&& match later.request {
                UpkeepRequest::RetiredScid | UpkeepRequest::SourceCidsLeft
                | UpkeepRequest::NewSourceCid | UpkeepRequest::DcidsToProbe
                | UpkeepRequest::ProbePath { .. } => later.probed_paths == m.probed_paths,
                _ => true,
            }
        }),
    decreases replies.len(),
{
    upkeep_stays_well_formed(m.begun(), replies);
    if replies.len() > 0 {
        lemma_probes(m, replies.drop_last());
        upkeep_stays_well_formed(m.begun(), replies.drop_last());
    }
}

/// The path to migrate to is probed at most once in a pass, and not at all in
/// a pass that comes after.
pub proof fn second_path_is_probed_once(m: UpkeepState, replies: Seq<UpkeepReply>)
    requires
        m.well_formed(),
        crate::machine::admits(m.begun(), replies),
    ensures
        crate::machine::visits(
            m.begun(),
            replies,
            |m: UpkeepState| m.request is ProbeSecondPath,
        ) <= 1,
        m.new_path_probed ==> crate::machine::visits(
            m.begun(),
            replies,
            |m: UpkeepState| m.request is ProbeSecondPath,
        ) == 0,
{
    let inv = |m: UpkeepState| m.probes_in_turn();
    let pred = |m: UpkeepState| m.request is ProbeSecondPath;
    let done = |m: UpkeepState| m.new_path_probed;
    assert forall|m: UpkeepState, reply: UpkeepReply| inv(m) && m.accepts(reply) implies inv(
        #[trigger] m.next(reply),
    ) && (pred(m) || done(m) ==> done(m.next(reply))) by {
        lemma_probes_step(m, reply);
    }
    crate::machine::happens_at_most_once(m.begun(), replies, inv, pred, done);
    if m.new_path_probed {
        lemma_not_probed_again(m, replies);
    }
}

proof fn lemma_probes_step(m: UpkeepState, reply: UpkeepReply)
    requires
        m.probes_in_turn(),
        m.accepts(reply),
    ensures
        m.next(reply).probes_in_turn(),
        m.request is ProbeSecondPath || m.new_path_probed ==> m.next(reply).new_path_probed,
{
}

proof fn lemma_not_probed_again(m: UpkeepState, replies: Seq<UpkeepReply>)
    requires
        m.well_formed(),
        m.new_path_probed,
        crate::machine::admits(m.begun(), replies),
    ensures
        crate::machine::visits(
            m.begun(),
            replies,
            |m: UpkeepState| m.request is ProbeSecondPath,
        ) == 0,
    decreases replies.len(),
{
    probes_are_in_turn(m, replies);
    upkeep_stays_well_formed(m.begun(), replies);
    if replies.len() > 0 {
        lemma_not_probed_again(m, replies.drop_last());
    }
}

/// A pass of a connection that does not use several paths changes none.
pub proof fn single_path_is_left_alone(m: UpkeepState, replies: Seq<UpkeepReply>)
    requires
        m.well_formed(),
        crate::machine::admits(m.begun(), replies),
        crate::machine::run(m.begun(), replies.drop_last()).request is IsMultipath,
        replies.len() > 0,
        replies.last() == UpkeepReply::Flag(false),
    ensures
        ({
            let later = crate::machine::run(m.begun(), replies);
            &&& later.request is Return
            &&& later.rm_addrs == m.rm_addrs
            &&& later.status == m.status
        }),
{
    lemma_lists_wait(m, replies.drop_last());
}

impl UpkeepState {
    /// The changes of the paths are under way.
    pub open spec fn changes_paths(self) -> bool {
        match self.request {
            UpkeepRequest::RemovalTime { .. } | UpkeepRequest::AbandonPath { .. }
            | UpkeepRequest::StatusTime { .. } | UpkeepRequest::SetPathStatus { .. }
            | UpkeepRequest::Return => true,
            _ => false,
        }
    }
}

/// Nothing is taken off the lists before the connection is known to use several
/// paths.
proof fn lemma_lists_wait(m: UpkeepState, replies: Seq<UpkeepReply>)
    requires
        m.well_formed(),
        crate::machine::admits(m.begun(), replies),
    ensures
        ({
            let later = crate::machine::run(m.begun(), replies);
            !later.changes_paths() ==> later.rm_addrs == m.rm_addrs && later.status == m.status
        }),
    decreases replies.len(),
{
    if replies.len() > 0 {
        lemma_lists_wait(m, replies.drop_last());
    }
}

/// The replies to a pass answer for each removal and each change of status
/// whether it is due and whether it can be done.
pub open spec fn answers_agree(
    m: UpkeepState,
    replies: Seq<UpkeepReply>,
    removal_due: spec_fn(PathRemoval) -> bool,
    removal_done: spec_fn(PathRemoval) -> bool,
    change_due: spec_fn(PathStatusChange) -> bool,
    change_done: spec_fn(PathStatusChange) -> bool,
) -> bool
    decreases replies.len(),
{
    replies.len() == 0 || {
        let before = crate::machine::run(m, replies.drop_last());
        &&& answers_agree(
            m,
            replies.drop_last(),
            removal_due,
            removal_done,
            change_due,
            change_done,
        )
        &&& match before.request {
            UpkeepRequest::RemovalTime { index } => {
                let removal = before.rm_addrs[index as int];
                (replies.last()->Elapsed_0 >= removal.after_nanos) == removal_due(removal)
            },
            UpkeepRequest::AbandonPath { index, .. } => replies.last()->Flag_0 == removal_done(
                before.rm_addrs[index as int],
            ),
            UpkeepRequest::StatusTime { index } => {
                let change = before.status[index as int];
                (replies.last()->Elapsed_0 >= change.after_nanos) == change_due(change)
            },
            UpkeepRequest::SetPathStatus { index, .. } => replies.last()->Flag_0 == change_done(
                before.status[index as int],
            ),
            _ => true,
        }
    }
}

/// A pass takes off the lists what was due and could be done. It keeps the rest,
/// in order, for the next pass.
pub proof fn pass_keeps_what_is_not_done(
    m: UpkeepState,
    replies: Seq<UpkeepReply>,
    removal_due: spec_fn(PathRemoval) -> bool,
    removal_done: spec_fn(PathRemoval) -> bool,
    change_due: spec_fn(PathStatusChange) -> bool,
    change_done: spec_fn(PathStatusChange) -> bool,
)
    requires
        m.well_formed(),
        crate::machine::admits(m.removal(0), replies),
        answers_agree(m.removal(0), replies, removal_due, removal_done, change_due, change_done),
        crate::machine::run(m.removal(0), replies).request is Return,
    ensures
        ({
            let later = crate::machine::run(m.removal(0), replies);
            &&& later.rm_addrs == m.rm_addrs.filter(
                |r: PathRemoval| !(removal_due(r) && removal_done(r)),
            )
            &&& later.status == m.status.filter(
                |c: PathStatusChange| !(change_due(c) && change_done(c)),
            )
        }),
{
    let keep_removal = |r: PathRemoval| !(removal_due(r) && removal_done(r));
    let keep_change = |c: PathStatusChange| !(change_due(c) && change_done(c));
    lemma_pass(m, replies, removal_due, removal_done, change_due, change_done);
    let later = crate::machine::run(m.removal(0), replies);
    lemma_scan_ends(m.rm_addrs, keep_removal, later.rm_addrs);
    lemma_scan_ends(m.status, keep_change, later.status);
}

/// The first `index` entries of `current` are those that are kept of the first
/// entries of `all`. The others are still to be looked at.
spec fn scanned<A>(all: Seq<A>, keep: spec_fn(A) -> bool, current: Seq<A>, index: int) -> bool {
    let seen = all.len() - (current.len() - index);
    &&& 0 <= seen <= all.len()
    &&& index == all.take(seen).filter(keep).len()
    &&& current == all.take(seen).filter(keep) + all.skip(seen)
}

proof fn lemma_scan_starts<A>(all: Seq<A>, keep: spec_fn(A) -> bool)
    ensures
        scanned(all, keep, all, 0),
{
    reveal(Seq::filter);
    assert(all =~= all.take(0).filter(keep) + all.skip(0));
}

proof fn lemma_scan_ends<A>(all: Seq<A>, keep: spec_fn(A) -> bool, current: Seq<A>)
    requires
        scanned(all, keep, current, current.len() as int),
    ensures
        current == all.filter(keep),
{
    assert(all.take(all.len() as int) =~= all);
    assert(current =~= all.filter(keep));
}

proof fn lemma_scan_step<A>(all: Seq<A>, keep: spec_fn(A) -> bool, current: Seq<A>, index: int)
    requires
        scanned(all, keep, current, index),
        index < current.len(),
    ensures
        keep(current[index]) ==> scanned(all, keep, current, index + 1),
        !keep(current[index]) ==> scanned(all, keep, current.remove(index), index),
{
    let seen = all.len() - (current.len() - index);
    let kept = all.take(seen).filter(keep);
    assert(current[index] == all[seen]);
    assert(all.take(seen + 1).drop_last() =~= all.take(seen));
    assert(all.take(seen + 1).last() == all[seen]);
    reveal(Seq::filter);
    if keep(all[seen]) {
        assert(all.take(seen + 1).filter(keep) =~= kept.push(all[seen]));
        assert(current =~= kept.push(all[seen]) + all.skip(seen + 1));
    } else {
        assert(all.take(seen + 1).filter(keep) =~= kept);
        assert(current.remove(index) =~= kept + all.skip(seen + 1));
    }
}

#[verifier::spinoff_prover]
#[verifier::rlimit(30)]
proof fn lemma_pass(
    m: UpkeepState,
    replies: Seq<UpkeepReply>,
    removal_due: spec_fn(PathRemoval) -> bool,
    removal_done: spec_fn(PathRemoval) -> bool,
    change_due: spec_fn(PathStatusChange) -> bool,
    change_done: spec_fn(PathStatusChange) -> bool,
)
    requires
        m.well_formed(),
        crate::machine::admits(m.removal(0), replies),
        answers_agree(m.removal(0), replies, removal_due, removal_done, change_due, change_done),
    ensures
        ({
            let keep_removal = |r: PathRemoval| !(removal_due(r) && removal_done(r));
            let keep_change = |c: PathStatusChange| !(change_due(c) && change_done(c));
            let later = crate::machine::run(m.removal(0), replies);
            let removals = later.rm_addrs;
            let changes = later.status;
            &&& later.well_formed()
            &&& match later.request {
                UpkeepRequest::RemovalTime { index } => {
                    &&& scanned(m.rm_addrs, keep_removal, removals, index as int)
                    &&& changes == m.status
                },
                UpkeepRequest::AbandonPath { index, .. } => {
                    &&& scanned(m.rm_addrs, keep_removal, removals, index as int)
                    &&& removal_due(removals[index as int])
                    &&& changes == m.status
                },
                UpkeepRequest::StatusTime { index } => {
                    &&& scanned(m.rm_addrs, keep_removal, removals, removals.len() as int)
                    &&& scanned(m.status, keep_change, changes, index as int)
                },
                UpkeepRequest::SetPathStatus { index, .. } => {
                    &&& scanned(m.rm_addrs, keep_removal, removals, removals.len() as int)
                    &&& scanned(m.status, keep_change, changes, index as int)
                    &&& change_due(changes[index as int])
                },
                UpkeepRequest::Return => {
                    &&& scanned(m.rm_addrs, keep_removal, removals, removals.len() as int)
                    &&& scanned(m.status, keep_change, changes, changes.len() as int)
                },
                _ => false,
            }
        }),
    decreases replies.len(),
{
    let keep_removal = |r: PathRemoval| !(removal_due(r) && removal_done(r));
    let keep_change = |c: PathStatusChange| !(change_due(c) && change_done(c));
    lemma_scan_starts(m.rm_addrs, keep_removal);
    lemma_scan_starts(m.status, keep_change);
    if replies.len() > 0 {
        lemma_pass(
            m,
            replies.drop_last(),
            removal_due,
            removal_done,
            change_due,
            change_done,
        );
        let before = crate::machine::run(m.removal(0), replies.drop_last());
        match before.request {
            UpkeepRequest::RemovalTime { index } => {
                lemma_scan_step(m.rm_addrs, keep_removal, before.rm_addrs, index as int);
            },
            UpkeepRequest::AbandonPath { index, .. } => {
                lemma_scan_step(m.rm_addrs, keep_removal, before.rm_addrs, index as int);
            },
            UpkeepRequest::StatusTime { index } => {
                lemma_scan_step(m.status, keep_change, before.status, index as int);
            },
            UpkeepRequest::SetPathStatus { index, .. } => {
                lemma_scan_step(m.status, keep_change, before.status, index as int);
            },
            _ => {},
        }
    }
}

/// A path is abandoned, or its status advertised, only once its time has come,
/// and as was asked for. It is the path to the address that the connection was
/// started to.
pub proof fn changes_wait_for_their_time(m: UpkeepState, replies: Seq<UpkeepReply>)
    requires
        m.well_formed(),
        crate::machine::admits(m.begun(), replies),
    ensures
        ({
            let later = crate::machine::run(m.begun(), replies);
            let begun = replies.len() > 0;
            let last = replies.last();
            &&& later.request matches UpkeepRequest::AbandonPath { index, addr, peer, code } ==> {
                &&& index < later.rm_addrs.len()
                &&& peer == m.peer
                &&& code == ABANDON_CODE
                &&& later.rm_addrs[index as int].addr == addr
                &&& begun && last is Elapsed
                &&& last->Elapsed_0 >= later.rm_addrs[index as int].after_nanos
            }
            &&& later.request matches UpkeepRequest::SetPathStatus {
                index,
                addr,
                peer,
                available,
                advertise,
            } ==> {
                &&& index < later.status.len()
                &&& peer == m.peer
                &&& advertise == ADVERTISE_STATUS
                &&& later.status[index as int].addr == addr
                &&& later.status[index as int].available == available
                &&& begun && last is Elapsed
                &&& last->Elapsed_0 >= later.status[index as int].after_nanos
            }
        }),
{
    upkeep_stays_well_formed(m.begun(), replies);
    if replies.len() > 0 {
        upkeep_stays_well_formed(m.begun(), replies.drop_last());
    }
}

/// The state after a number of passes, of each of which `passes` holds the
/// replies.
pub open spec fn after_passes(m: UpkeepState, passes: Seq<Seq<UpkeepReply>>) -> UpkeepState
    decreases passes.len(),
{
    if passes.len() == 0 {
        m
    } else {
        crate::machine::run(after_passes(m, passes.drop_last()).begun(), passes.last())
    }
}

/// The replies of each pass answer its requests.
pub open spec fn passes_admitted(m: UpkeepState, passes: Seq<Seq<UpkeepReply>>) -> bool
    decreases passes.len(),
{
    passes.len() == 0 || {
        &&& passes_admitted(m, passes.drop_last())
        &&& crate::machine::admits(after_passes(m, passes.drop_last()).begun(), passes.last())
    }
}

/// A probe of the path at the position `at`, and whether it succeeded.
pub struct Probe {
    pub path: (SocketAddr, SocketAddr),
    pub at: usize,
    pub ok: bool,
}

/// The probes of the paths of a connection of several, in order.
pub open spec fn probes(start: UpkeepState, replies: Seq<UpkeepReply>) -> Seq<Probe>
    decreases replies.len(),
{
    if replies.len() == 0 {
        seq![]
    } else {
        let before = crate::machine::run(start, replies.drop_last());
        let earlier = probes(start, replies.drop_last());
        match before.request {
            UpkeepRequest::ProbePath { local, peer } => earlier.push(
                Probe {
                    path: (local, peer),
                    at: before.probed_paths,
                    ok: replies.last() == UpkeepReply::Flag(true),
                },
            ),
            _ => earlier,
        }
    }
}

/// The probes of all passes, in order.
pub open spec fn all_probes(m: UpkeepState, passes: Seq<Seq<UpkeepReply>>) -> Seq<Probe>
    decreases passes.len(),
{
    if passes.len() == 0 {
        seq![]
    } else {
        all_probes(m, passes.drop_last()) + probes(
            after_passes(m, passes.drop_last()).begun(),
            passes.last(),
        )
    }
}

/// The number of probes that succeeded.
pub open spec fn successes(probes: Seq<Probe>) -> nat
    decreases probes.len(),
{
    if probes.len() == 0 {
        0
    } else {
        successes(probes.drop_last()) + if probes.last().ok {
            1nat
        } else {
            0nat
        }
    }
}

/// Over any number of passes the paths are probed one after the other: each probe is
/// of the first path whose probe has not succeeded yet. A path whose probe succeeded
/// is not probed again, and one whose probe failed is tried again before any other.
pub proof fn passes_probe_in_turn(m: UpkeepState, passes: Seq<Seq<UpkeepReply>>)
    requires
        m.well_formed(),
        passes_admitted(m, passes),
    ensures
        ({
            let later = after_passes(m, passes);
            let tried = all_probes(m, passes);
            &&& later.well_formed()
            &&& later.paths == m.paths
            &&& later.probed_paths == m.probed_paths + successes(tried)
            &&& forall|i: int|
                0 <= i < tried.len() ==> {
                    &&& (#[trigger] tried[i]).at == m.probed_paths + successes(tried.take(i))
                    &&& tried[i].at < m.paths.len()
                    &&& tried[i].path == m.paths[tried[i].at as int]
                }
            &&& forall|i: int, j: int|
                0 <= i < j < tried.len() ==> {
                    &&& (#[trigger] tried[i]).at <= (#[trigger] tried[j]).at
                    &&& tried[i].ok ==> tried[i].at < tried[j].at
                    &&& !tried[i].ok && j == i + 1 ==> tried[i].at == tried[j].at
                }
        }),
    decreases passes.len(),
{
    if passes.len() > 0 {
        let before = after_passes(m, passes.drop_last());
        let earlier = all_probes(m, passes.drop_last());
        let now = probes(before.begun(), passes.last());
        let tried = all_probes(m, passes);
        passes_probe_in_turn(m, passes.drop_last());
        upkeep_stays_well_formed(before.begun(), passes.last());
        lemma_probe_of_pass(before, passes.last());
        if now.len() == 0 {
            assert(tried =~= earlier);
        } else {
            assert(tried =~= earlier.push(now[0]));
            assert(tried.drop_last() =~= earlier);
            assert(tried.take(earlier.len() as int) =~= earlier);
            assert forall|i: int| 0 <= i < earlier.len() implies #[trigger] tried.take(i)
                == earlier.take(i) by {
                assert(tried.take(i) =~= earlier.take(i));
            }
            assert forall|i: int| 0 <= i < earlier.len() implies (#[trigger] tried[i])
                == earlier[i] by {}
            if earlier.len() > 0 {
                let last = earlier.len() - 1;
                assert(earlier.drop_last() =~= earlier.take(last));
                assert(earlier[last].at == m.probed_paths + successes(earlier.take(last)));
                assert forall|i: int| 0 <= i < earlier.len() implies (#[trigger] earlier[i]).at
                    <= now[0].at && (earlier[i].ok ==> earlier[i].at < now[0].at) by {
                    if i < last {
                        assert(earlier[i].at <= earlier[last].at);
                    }
                }
            }
        }
    }
}

/// A pass makes at most one probe.
proof fn lemma_probe_of_pass(m: UpkeepState, replies: Seq<UpkeepReply>)
    requires
        m.well_formed(),
        crate::machine::admits(m.begun(), replies),
    ensures
        ({
            let later = crate::machine::run(m.begun(), replies);
            let tried = probes(m.begun(), replies);
            &&& tried.len() <= 1
            &&& tried.len() == 0 ==> later.probed_paths == m.probed_paths
            &&& tried.len() == 1 ==> {
                &&& tried[0].at == m.probed_paths
                &&& tried[0].at < m.paths.len()
                &&& tried[0].path == m.paths[m.probed_paths as int]
                &&& later.probed_paths == m.probed_paths + if tried[0].ok {
                    1int
                } else {
                    0
                }
            }
            &&& match later.request {
                UpkeepRequest::RetiredScid | UpkeepRequest::SourceCidsLeft
                | UpkeepRequest::NewSourceCid | UpkeepRequest::DcidsToProbe
                | UpkeepRequest::ProbePath { .. } => tried.len() == 0,
                _ => true,
            }
        }),
    decreases replies.len(),
{
    if replies.len() > 0 {
        lemma_probe_of_pass(m, replies.drop_last());
        upkeep_stays_well_formed(m.begun(), replies.drop_last());
    }
}

impl UpkeepState {
    /// The removal that is being looked at, if one is.
    pub open spec fn removal_in_view() -> spec_fn(UpkeepState) -> Option<PathRemoval> {
        |m: UpkeepState|
            match m.request {
                UpkeepRequest::RemovalTime { index } => Some(m.rm_addrs[index as int]),
                _ => None,
            }
    }

    /// The change of status that is being looked at, if one is.
    pub open spec fn change_in_view() -> spec_fn(UpkeepState) -> Option<PathStatusChange> {
        |m: UpkeepState|
            match m.request {
                UpkeepRequest::StatusTime { index } => Some(m.status[index as int]),
                _ => None,
            }
    }

    /// The connection is found to use several paths.
    pub open spec fn found_multipath() -> spec_fn(UpkeepState, UpkeepReply) -> bool {
        |m: UpkeepState, reply: UpkeepReply|
            m.request is IsMultipath && reply == UpkeepReply::Flag(true)
    }
}

/// The removals that were made, in order.
pub open spec fn removals_made(start: UpkeepState, replies: Seq<UpkeepReply>) -> Seq<PathRemoval>
    decreases replies.len(),
{
    if replies.len() == 0 {
        seq![]
    } else {
        let before = crate::machine::run(start, replies.drop_last());
        let earlier = removals_made(start, replies.drop_last());
        match (before.request, replies.last()) {
            (UpkeepRequest::AbandonPath { index, .. }, UpkeepReply::Flag(true)) => earlier.push(
                before.rm_addrs[index as int],
            ),
            _ => earlier,
        }
    }
}

/// The changes of status that were made, in order.
pub open spec fn changes_made(start: UpkeepState, replies: Seq<UpkeepReply>) -> Seq<
    PathStatusChange,
>
    decreases replies.len(),
{
    if replies.len() == 0 {
        seq![]
    } else {
        let before = crate::machine::run(start, replies.drop_last());
        let earlier = changes_made(start, replies.drop_last());
        match (before.request, replies.last()) {
            (UpkeepRequest::SetPathStatus { index, .. }, UpkeepReply::Flag(true)) => earlier.push(
                before.status[index as int],
            ),
            _ => earlier,
        }
    }
}

/// The removals of all passes, in order.
pub open spec fn all_removals(m: UpkeepState, passes: Seq<Seq<UpkeepReply>>) -> Seq<PathRemoval>
    decreases passes.len(),
{
    if passes.len() == 0 {
        seq![]
    } else {
        all_removals(m, passes.drop_last()) + removals_made(
            after_passes(m, passes.drop_last()).begun(),
            passes.last(),
        )
    }
}

/// The changes of status of all passes, in order.
pub open spec fn all_changes(m: UpkeepState, passes: Seq<Seq<UpkeepReply>>) -> Seq<
    PathStatusChange,
>
    decreases passes.len(),
{
    if passes.len() == 0 {
        seq![]
    } else {
        all_changes(m, passes.drop_last()) + changes_made(
            after_passes(m, passes.drop_last()).begun(),
            passes.last(),
        )
    }
}

/// Over any number of passes, what was asked for is what was made and what is left:
/// a removal or a change that was made is never made again, and none gets lost.
pub proof fn changes_are_made_once(m: UpkeepState, passes: Seq<Seq<UpkeepReply>>)
    requires
        m.well_formed(),
        passes_admitted(m, passes),
    ensures
        after_passes(m, passes).well_formed(),
        m.rm_addrs.to_multiset() == after_passes(m, passes).rm_addrs.to_multiset().add(
            all_removals(m, passes).to_multiset(),
        ),
        m.status.to_multiset() == after_passes(m, passes).status.to_multiset().add(
            all_changes(m, passes).to_multiset(),
        ),
    decreases passes.len(),
{
    broadcast use vstd::seq_lib::group_to_multiset_ensures;

    if passes.len() > 0 {
        let before = after_passes(m, passes.drop_last());
        changes_are_made_once(m, passes.drop_last());
        upkeep_stays_well_formed(before.begun(), passes.last());
        lemma_made_of_pass(before, passes.last());
        vstd::seq_lib::lemma_multiset_commutative(
            all_removals(m, passes.drop_last()),
            removals_made(before.begun(), passes.last()),
        );
        vstd::seq_lib::lemma_multiset_commutative(
            all_changes(m, passes.drop_last()),
            changes_made(before.begun(), passes.last()),
        );
        assert(m.rm_addrs.to_multiset() =~= after_passes(m, passes).rm_addrs.to_multiset().add(
            all_removals(m, passes).to_multiset(),
        ));
        assert(m.status.to_multiset() =~= after_passes(m, passes).status.to_multiset().add(
            all_changes(m, passes).to_multiset(),
        ));
    } else {
        assert(m.rm_addrs.to_multiset() =~= m.rm_addrs.to_multiset().add(
            Seq::<PathRemoval>::empty().to_multiset(),
        ));
        assert(m.status.to_multiset() =~= m.status.to_multiset().add(
            Seq::<PathStatusChange>::empty().to_multiset(),
        ));
    }
}

proof fn lemma_made_of_pass(m: UpkeepState, replies: Seq<UpkeepReply>)
    requires
        m.well_formed(),
        crate::machine::admits(m.begun(), replies),
    ensures
        ({
            let later = crate::machine::run(m.begun(), replies);
            &&& m.rm_addrs.to_multiset() == later.rm_addrs.to_multiset().add(
                removals_made(m.begun(), replies).to_multiset(),
            )
            &&& m.status.to_multiset() == later.status.to_multiset().add(
                changes_made(m.begun(), replies).to_multiset(),
            )
        }),
    decreases replies.len(),
{
    broadcast use vstd::seq_lib::group_to_multiset_ensures;

    if replies.len() > 0 {
        let rest = replies.drop_last();
        lemma_made_of_pass(m, rest);
        upkeep_stays_well_formed(m.begun(), rest);
        let before = crate::machine::run(m.begun(), rest);
        if let UpkeepReply::Flag(true) = replies.last() {
            if let UpkeepRequest::AbandonPath { index, .. } = before.request {
                lemma_taken_off(before.rm_addrs, index as int, removals_made(m.begun(), rest));
            }
            if let UpkeepRequest::SetPathStatus { index, .. } = before.request {
                lemma_taken_off(before.status, index as int, changes_made(m.begun(), rest));
            }
        }
    } else {
        assert(m.rm_addrs.to_multiset() =~= m.rm_addrs.to_multiset().add(
            Seq::<PathRemoval>::empty().to_multiset(),
        ));
        assert(m.status.to_multiset() =~= m.status.to_multiset().add(
            Seq::<PathStatusChange>::empty().to_multiset(),
        ));
    }
}

/// What goes from one list to the other is in neither lost nor doubled.
proof fn lemma_taken_off<A>(list: Seq<A>, index: int, made: Seq<A>)
    requires
        0 <= index < list.len(),
    ensures
        list.to_multiset().add(made.to_multiset()) == list.remove(index).to_multiset().add(
            made.push(list[index]).to_multiset(),
        ),
{
    broadcast use vstd::seq_lib::group_to_multiset_ensures;

    assert(list.contains(list[index]));
    assert(list.to_multiset().add(made.to_multiset()) =~= list.remove(index).to_multiset().add(
        made.push(list[index]).to_multiset(),
    ));
}

/// A pass that finds several paths in use looks at every removal and every change
/// that is left over from the passes before, in order and once each.
pub proof fn passes_look_at_what_is_left(m: UpkeepState, passes: Seq<Seq<UpkeepReply>>)
    requires
        m.well_formed(),
        passes_admitted(m, passes),
        passes.len() > 0,
        ({
            let start = after_passes(m, passes.drop_last()).begun();
            &&& crate::machine::answered(start, passes.last(), UpkeepState::found_multipath())
            &&& crate::machine::run(start, passes.last()).request is Return
        }),
    ensures
        ({
            let left = after_passes(m, passes.drop_last());
            &&& crate::machine::issued(
                left.begun(),
                passes.last(),
                UpkeepState::removal_in_view(),
            ) == left.rm_addrs
            &&& crate::machine::issued(
                left.begun(),
                passes.last(),
                UpkeepState::change_in_view(),
            ) == left.status
        }),
{
    changes_are_made_once(m, passes.drop_last());
    lemma_views(after_passes(m, passes.drop_last()), passes.last());
}

/// The entry at `index` of `current` is being looked at, and so were those of `all`
/// up to it. Those behind it are still to be looked at.
spec fn viewing<A>(all: Seq<A>, current: Seq<A>, index: int, viewed: Seq<A>) -> bool {
    let seen = all.len() - (current.len() - index);
    &&& 0 <= index < current.len()
    &&& 0 <= seen < all.len()
    &&& current.skip(index) == all.skip(seen)
    &&& viewed == all.take(seen + 1)
}

proof fn lemma_viewing_starts<A>(all: Seq<A>)
    ensures
        all.len() > 0 ==> viewing(all, all, 0, Seq::<A>::empty().push(all[0])),
        all.len() == 0 ==> Seq::<A>::empty() == all,
{
    if all.len() > 0 {
        assert(Seq::<A>::empty().push(all[0]) =~= all.take(1));
    } else {
        assert(Seq::<A>::empty() =~= all);
    }
}

proof fn lemma_viewing_goes_on<A>(all: Seq<A>, current: Seq<A>, index: int, viewed: Seq<A>)
    requires
        viewing(all, current, index, viewed),
    ensures
        index + 1 < current.len() ==> viewing(
            all,
            current,
            index + 1,
            viewed.push(current[index + 1]),
        ),
        index + 1 == current.len() ==> viewed == all,
        index + 1 < current.len() ==> viewing(
            all,
            current.remove(index),
            index,
            viewed.push(current.remove(index)[index]),
        ),
{
    let seen = all.len() - (current.len() - index);
    if index + 1 < current.len() {
        assert(current.skip(index)[1] == all.skip(seen)[1]);
        assert(current.skip(index + 1) =~= current.skip(index).skip(1));
        assert(all.skip(seen + 1) =~= all.skip(seen).skip(1));
        assert(viewed.push(current[index + 1]) =~= all.take(seen + 2));
        assert(current.remove(index).skip(index) =~= current.skip(index + 1));
        assert(current.remove(index)[index] == current[index + 1]);
    } else {
        assert(viewed =~= all);
    }
}

proof fn lemma_views(m: UpkeepState, replies: Seq<UpkeepReply>)
    requires
        m.well_formed(),
        crate::machine::admits(m.begun(), replies),
    ensures
        ({
            let later = crate::machine::run(m.begun(), replies);
            let removals = crate::machine::issued(
                m.begun(),
                replies,
                UpkeepState::removal_in_view(),
            );
            let changes = crate::machine::issued(
                m.begun(),
                replies,
                UpkeepState::change_in_view(),
            );
            let found = crate::machine::answered(
                m.begun(),
                replies,
                UpkeepState::found_multipath(),
            );
            match later.request {
                UpkeepRequest::RemovalTime { index } | UpkeepRequest::AbandonPath { index, .. } => {
                    &&& viewing(m.rm_addrs, later.rm_addrs, index as int, removals)
                    &&& changes == Seq::<PathStatusChange>::empty()
                    &&& later.status == m.status
                },
                UpkeepRequest::StatusTime { index } | UpkeepRequest::SetPathStatus {
                    index,
                    ..
                } => {
                    &&& removals == m.rm_addrs
                    &&& viewing(m.status, later.status, index as int, changes)
                },
                UpkeepRequest::Return => found ==> removals == m.rm_addrs && changes == m.status,
                _ => {
                    &&& !found
                    &&& removals == Seq::<PathRemoval>::empty()
                    &&& changes == Seq::<PathStatusChange>::empty()
                    &&& later.rm_addrs == m.rm_addrs
                    &&& later.status == m.status
                },
            }
        }),
    decreases replies.len(),
{
    if replies.len() > 0 {
        let rest = replies.drop_last();
        let before = crate::machine::run(m.begun(), rest);
        let removals = crate::machine::issued(m.begun(), rest, UpkeepState::removal_in_view());
        let changes = crate::machine::issued(m.begun(), rest, UpkeepState::change_in_view());
        lemma_views(m, rest);
        upkeep_stays_well_formed(m.begun(), rest);
        lemma_viewing_starts(m.rm_addrs);
        lemma_viewing_starts(m.status);
        match before.request {
            UpkeepRequest::RemovalTime { index } | UpkeepRequest::AbandonPath { index, .. } => {
                lemma_viewing_goes_on(m.rm_addrs, before.rm_addrs, index as int, removals);
            },
            UpkeepRequest::StatusTime { index } | UpkeepRequest::SetPathStatus { index, .. } => {
                lemma_viewing_goes_on(m.status, before.status, index as int, changes);
            },
            _ => {},
        }
    }
}

/// The first part of a pass: all retired identifiers are taken, and identifiers are given
/// out for as long as the peer takes them. A connection of several paths then probes the
/// next path, if there is one and there is an identifier for it. One of a single path
/// probes the path to migrate to, if it is to migrate, has given out an identifier and has
/// not probed that path before.
pub proof fn passes_begin_in_order(m: UpkeepState, replies: Seq<UpkeepReply>)
    requires
        m.well_formed(),
        crate::machine::admits(m.begun(), replies),
    ensures
        ({
            let start = m.begun();
            let before = crate::machine::run(start, replies.drop_last());
            let asked = before.request;
            let last = replies.last();
            let yes = last == UpkeepReply::Flag(true);
            let later = crate::machine::run(start, replies);
            let next = later.request;
            let given = m.scid_sent || crate::machine::answered(
                start,
                replies,
                |m: UpkeepState, reply: UpkeepReply|
                    m.request is NewSourceCid && reply == UpkeepReply::Flag(true),
            );
            let moved = m.new_path_probed || crate::machine::answered(
                start,
                replies,
                |m: UpkeepState, reply: UpkeepReply| m.request is ProbeSecondPath,
            );
            let ids_done = (asked is SourceCidsLeft || asked is NewSourceCid) && !yes;
            let to_probe = m.multipath && m.probed_paths < m.paths.len();
            let probe_done = (ids_done && !to_probe) || (asked is DcidsToProbe && !yes)
                || asked is ProbePath;
            &&& later.multipath == m.multipath
            &&& later.perform_migration == m.perform_migration
            &&& later.scid_sent == given
            &&& later.new_path_probed == moved
            &&& replies.len() == 0 ==> next == UpkeepRequest::RetiredScid
            &&& replies.len() > 0 ==> {
                &&& asked is RetiredScid ==> next == if yes {
                    UpkeepRequest::RetiredScid
                } else {
                    UpkeepRequest::SourceCidsLeft
                }
                &&& asked is SourceCidsLeft && yes ==> next == UpkeepRequest::NewSourceCid
                &&& asked is NewSourceCid && yes ==> next == UpkeepRequest::SourceCidsLeft
                &&& ids_done && to_probe ==> next == UpkeepRequest::DcidsToProbe
                &&& asked is DcidsToProbe && yes ==> next == (UpkeepRequest::ProbePath {
                    local: m.paths[m.probed_paths as int].0,
                    peer: m.paths[m.probed_paths as int].1,
                })
                &&& probe_done ==> next == if !m.multipath && m.perform_migration && given
                    && !moved {
                    UpkeepRequest::DcidsToMigrate
                } else {
                    UpkeepRequest::IsMultipath
                }
                &&& asked is DcidsToMigrate ==> next == if yes {
                    UpkeepRequest::ProbeSecondPath { socket: 1, peer: m.peer }
                } else {
                    UpkeepRequest::IsMultipath
                }
                &&& asked is ProbeSecondPath ==> next == UpkeepRequest::IsMultipath
            }
        }),
    decreases replies.len(),
{
    upkeep_stays_well_formed(m.begun(), replies);
    lemma_probes(m, replies);
    if replies.len() > 0 {
        upkeep_stays_well_formed(m.begun(), replies.drop_last());
        lemma_probes(m, replies.drop_last());
        passes_begin_in_order(m, replies.drop_last());
    }
}

/// The second part of a pass: if the connection uses several paths, it goes over the
/// removals and then over the changes of status. What is due is tried. It leaves the list if
/// it could be done, and stays for the next pass if not.
pub proof fn passes_end_in_order(m: UpkeepState, replies: Seq<UpkeepReply>)
    requires
        m.well_formed(),
        crate::machine::admits(m.begun(), replies),
        replies.len() > 0,
    ensures
        ({
            let before = crate::machine::run(m.begun(), replies.drop_last());
            let asked = before.request;
            let last = replies.last();
            let yes = last == UpkeepReply::Flag(true);
            let later = crate::machine::run(m.begun(), replies);
            let next = later.request;
            let first_change = if later.status.len() > 0 {
                UpkeepRequest::StatusTime { index: 0 }
            } else {
                UpkeepRequest::Return
            };
            &&& asked is IsMultipath ==> next == if !yes {
                UpkeepRequest::Return
            } else if later.rm_addrs.len() > 0 {
                UpkeepRequest::RemovalTime { index: 0 }
            } else {
                first_change
            }
            &&& asked matches UpkeepRequest::RemovalTime { index } ==> {
                let removal = before.rm_addrs[index as int];
                last->Elapsed_0 >= removal.after_nanos ==> next == (UpkeepRequest::AbandonPath {
                    index,
                    addr: removal.addr,
                    peer: m.peer,
                    code: 0,
                })
            }
            &&& asked matches UpkeepRequest::AbandonPath { index, .. } ==> later.rm_addrs == if yes {
                before.rm_addrs.remove(index as int)
            } else {
                before.rm_addrs
            }
            &&& !(asked is AbandonPath) ==> later.rm_addrs == before.rm_addrs
            &&& asked matches UpkeepRequest::StatusTime { index } ==> {
                let change = before.status[index as int];
                last->Elapsed_0 >= change.after_nanos ==> next == (UpkeepRequest::SetPathStatus {
                    index,
                    addr: change.addr,
                    peer: m.peer,
                    available: change.available,
                    advertise: true,
                })
            }
            &&& asked matches UpkeepRequest::SetPathStatus { index, .. } ==> later.status == if yes {
                before.status.remove(index as int)
            } else {
                before.status
            }
            &&& !(asked is SetPathStatus) ==> later.status == before.status
            // Having been looked at, an entry makes room for the one behind it.
            &&& {
                let at = match asked {
                    UpkeepRequest::RemovalTime { index } => Some(index + 1),
                    UpkeepRequest::AbandonPath { index, .. } => Some(
                        if yes {
                            index as int
                        } else {
                            index + 1
                        },
                    ),
                    _ => None,
                };
                at is Some && !(next is AbandonPath) ==> next == if at->0 < later.rm_addrs.len() {
                    UpkeepRequest::RemovalTime { index: at->0 as usize }
                } else {
                    first_change
                }
            }
            &&& {
                let at = match asked {
                    UpkeepRequest::StatusTime { index } => Some(index + 1),
                    UpkeepRequest::SetPathStatus { index, .. } => Some(
                        if yes {
                            index as int
                        } else {
                            index + 1
                        },
                    ),
                    _ => None,
                };
                at is Some && !(next is SetPathStatus) ==> next == if at->0 < later.status.len() {
                    UpkeepRequest::StatusTime { index: at->0 as usize }
                } else {
                    UpkeepRequest::Return
                }
            }
        }),
{
    upkeep_stays_well_formed(m.begun(), replies.drop_last());
}

/// Paths are abandoned for the reason "do not use me anymore".
pub proof fn abandoned_paths_are_told_why()
    ensures
        abandon_reason_bytes() == "do not use me anymore"@.map_values(|c: char| c as u8),
{
    reveal_strlit("do not use me anymore");
    assert(abandon_reason_bytes() =~= "do not use me anymore"@.map_values(|c: char| c as u8));
}

/// Every answer of the right kind is taken, whatever it says, and none of another kind.
pub proof fn passes_take_every_answer(m: UpkeepState, reply: UpkeepReply)
    ensures
        m.request is RetiredScid || m.request is SourceCidsLeft || m.request is NewSourceCid
            || m.request is DcidsToProbe || m.request is ProbePath || m.request is DcidsToMigrate
            || m.request is IsMultipath || m.request is AbandonPath || m.request is SetPathStatus
            ==> (m.accepts(reply) <==> reply is Flag),
        m.request is ProbeSecondPath ==> (m.accepts(reply) <==> reply is Done),
        m.request is RemovalTime || m.request is StatusTime ==> (m.accepts(reply) <==> reply
            is Elapsed),
        m.request is Return ==> !m.accepts(reply),
{
}

} // verus!
