use mcmpquic::addr::{Ipv4Addr, SocketAddr};
use mcmpquic::args::{ClientArgs, ClientError, PathRemoval, PathStatusChange};
use mcmpquic::client::{
    ConnectFailure, ConnectLoop, ConnectReply, ConnectRequest, EventsReply, EventsRequest,
    SocketEvents,
};
use mcmpquic::multicore_client_new::{
    addressed, multicore_prepare_addresses, outgoing_packet, plan_socket_threads, received_packet,
    thread_of_path, AppProtocol, ConnReply, ConnRequest, ConnThread, RelayReply, RelayRequest,
    RelayThread, SocketPlan,
};
use mcmpquic::schedule::{largest_cwnd_scheduler, PathInfo};
use mcmpquic::send_round::{SendReply, SendRequest, SendRound};
use mcmpquic::transport::{CloseCause, Outgoing, PathSend, SocketRecv, SocketSend};
use mcmpquic::upkeep::{abandon_reason, Upkeep, UpkeepReply, UpkeepRequest};

fn addr(port: u16) -> SocketAddr {
    SocketAddr::V4 {
        ip: Ipv4Addr { a: 127, b: 0, c: 0, d: 1 },
        port,
    }
}

fn client_args(addrs: Vec<SocketAddr>) -> ClientArgs {
    ClientArgs {
        version: 1,
        connect_to: None,
        addrs,
        rm_addrs: vec![],
        status: vec![],
        trust_origin_ca_pem: None,
        skip_verification: false,
        session_file: None,
        perform_migration: false,
    }
}

fn path(port: u16, rtt: u128, closed: bool) -> PathInfo {
    PathInfo {
        local: addr(port),
        peer: addr(4433),
        rtt,
        closed,
    }
}

#[test]
fn paths_are_scheduled_by_round_trip_time() {
    let paths = vec![
        path(1, 30, false),
        path(2, 10, false),
        path(3, 5, true),
        path(4, 10, false),
        path(5, 20, false),
    ];
    assert_eq!(
        largest_cwnd_scheduler(&paths),
        vec![
            (addr(2), addr(4433)),
            (addr(4), addr(4433)),
            (addr(5), addr(4433)),
            (addr(1), addr(4433))
        ]
    );
    assert_eq!(largest_cwnd_scheduler(&vec![path(1, 1, true)]), vec![]);
}

#[test]
fn round_serves_the_paths_in_order() {
    let mut round = SendRound::new(2);
    assert!(!round.expects(&SendReply::Path(PathSend::Packet { len: 1351, to: addr(9) })));
    let steps = vec![
        (
            SendRequest::SendOnPath { path: 0 },
            SendReply::Path(PathSend::Packet { len: 1350, to: addr(9) }),
        ),
        (
            SendRequest::Transmit { path: 0, len: 1350, to: addr(9) },
            SendReply::Socket(SocketSend::Sent),
        ),
        (
            SendRequest::SendOnPath { path: 0 },
            SendReply::Path(PathSend::Packet { len: 20, to: addr(8) }),
        ),
        (
            SendRequest::Transmit { path: 0, len: 20, to: addr(8) },
            SendReply::Socket(SocketSend::WouldBlock),
        ),
        (SendRequest::SendOnPath { path: 1 }, SendReply::Path(PathSend::Failed)),
        (
            SendRequest::Close { path: 1, cause: CloseCause::SendFailure },
            SendReply::Closed,
        ),
    ];
    for (request, reply) in steps {
        assert_eq!(round.request, request);
        assert!(round.expects(&reply));
        round.advance(reply);
    }
    assert_eq!(round.outcome(), Some(true));
    assert_eq!(SendRound::new(0).outcome(), Some(true));
    let mut failing = SendRound::new(1);
    failing.advance(SendReply::Path(PathSend::Packet { len: 1, to: addr(9) }));
    failing.advance(SendReply::Socket(SocketSend::Failed));
    assert_eq!(failing.outcome(), Some(false));
    let mut done = SendRound::new(1);
    done.advance(SendReply::Path(PathSend::Done));
    assert_eq!(done.outcome(), Some(true));
}

#[test]
fn datagrams_are_dumped_and_fed() {
    let mut events = SocketEvents::new(2, 65535, true, 7);
    let steps = vec![
        (
            EventsRequest::RecvFrom { event: 0 },
            EventsReply::Socket(SocketRecv::Received { len: 50, from: addr(9) }),
        ),
        (
            EventsRequest::DumpPacket { event: 0, number: 7, len: 50, from: addr(9) },
            EventsReply::Done,
        ),
        (
            EventsRequest::ConnRecv { event: 0, len: 50, from: addr(9) },
            EventsReply::Done,
        ),
        (
            EventsRequest::RecvFrom { event: 0 },
            EventsReply::Socket(SocketRecv::Received { len: 60, from: addr(9) }),
        ),
        (
            EventsRequest::DumpPacket { event: 0, number: 8, len: 60, from: addr(9) },
            EventsReply::Done,
        ),
        (
            EventsRequest::ConnRecv { event: 0, len: 60, from: addr(9) },
            EventsReply::Done,
        ),
        (
            EventsRequest::RecvFrom { event: 0 },
            EventsReply::Socket(SocketRecv::WouldBlock),
        ),
        (
            EventsRequest::RecvFrom { event: 1 },
            EventsReply::Socket(SocketRecv::WouldBlock),
        ),
    ];
    for (request, reply) in steps {
        assert_eq!(events.request, request);
        assert!(events.expects(&reply));
        events.advance(reply);
    }
    assert_eq!(events.outcome(), Some(true));
    assert_eq!(events.pkt_count, 9);
    assert_eq!(SocketEvents::new(0, 65535, false, 0).outcome(), Some(true));
}

#[test]
fn datagrams_are_fed_without_dumps() {
    let mut events = SocketEvents::new(1, 100, false, 0);
    assert!(!events.expects(&EventsReply::Socket(SocketRecv::Received {
        len: 101,
        from: addr(9)
    })));
    events.advance(EventsReply::Socket(SocketRecv::Received { len: 100, from: addr(9) }));
    assert_eq!(
        events.request,
        EventsRequest::ConnRecv { event: 0, len: 100, from: addr(9) }
    );
    assert_eq!(events.pkt_count, 1);
    events.advance(EventsReply::Done);
    events.advance(EventsReply::Socket(SocketRecv::Failed));
    assert_eq!(events.outcome(), Some(false));
    let full = SocketEvents::new(1, 100, false, 0x7fff_ffff);
    assert!(!full.expects(&EventsReply::Socket(SocketRecv::Received {
        len: 1,
        from: addr(9)
    })));
}

fn run_client(client: &mut ConnectLoop, steps: Vec<(ConnectRequest, ConnectReply)>) {
    for (request, reply) in steps {
        assert_eq!(client.request, request);
        assert!(client.expects(&reply));
        client.advance(reply);
    }
}

#[test]
fn client_transfers_and_closes() {
    let mut client = ConnectLoop::new(false, true);
    run_client(
        &mut client,
        vec![
            (ConnectRequest::IsInEarlyData, ConnectReply::Flag(false)),
            (ConnectRequest::Poll, ConnectReply::Done),
            (ConnectRequest::CountEvents, ConnectReply::Count(1)),
            (ConnectRequest::ReadSockets { nb_events: 1 }, ConnectReply::Flag(true)),
            (ConnectRequest::IsClosed { after_sending: false }, ConnectReply::Flag(false)),
            (ConnectRequest::CanStart, ConnectReply::Flag(true)),
            (ConnectRequest::CheckProtocol, ConnectReply::Flag(true)),
            (ConnectRequest::CreateTransfer, ConnectReply::Done),
            (ConnectRequest::ReceiveData, ConnectReply::Flag(true)),
            (ConnectRequest::Close { cause: CloseCause::Complete }, ConnectReply::Done),
            (
                ConnectRequest::HandlePathEvents { migrated: false },
                ConnectReply::Migrated(false),
            ),
            (ConnectRequest::Upkeep, ConnectReply::Done),
            (ConnectRequest::Send, ConnectReply::Flag(true)),
            (ConnectRequest::IsClosed { after_sending: true }, ConnectReply::Flag(false)),
            (ConnectRequest::IsInEarlyData, ConnectReply::Flag(true)),
            (ConnectRequest::Poll, ConnectReply::Done),
            (ConnectRequest::CountEvents, ConnectReply::Count(0)),
            (ConnectRequest::OnTimeout, ConnectReply::Done),
            (ConnectRequest::IsClosed { after_sending: false }, ConnectReply::Flag(true)),
            (ConnectRequest::IsEstablished, ConnectReply::Flag(true)),
            (ConnectRequest::SaveSession, ConnectReply::Done),
            (ConnectRequest::ReportIncomplete, ConnectReply::Flag(false)),
        ],
    );
    assert_eq!(client.request, ConnectRequest::Return);
}

#[test]
fn client_migrates_before_it_transfers() {
    let mut client = ConnectLoop::new(true, false);
    run_client(
        &mut client,
        vec![
            (ConnectRequest::IsInEarlyData, ConnectReply::Flag(true)),
            (ConnectRequest::CountEvents, ConnectReply::Count(0)),
            (ConnectRequest::OnTimeout, ConnectReply::Done),
            (ConnectRequest::IsClosed { after_sending: false }, ConnectReply::Flag(false)),
            (
                ConnectRequest::HandlePathEvents { migrated: false },
                ConnectReply::Migrated(true),
            ),
            (ConnectRequest::Upkeep, ConnectReply::Done),
            (ConnectRequest::Send, ConnectReply::Flag(true)),
            (ConnectRequest::IsClosed { after_sending: true }, ConnectReply::Flag(false)),
            (ConnectRequest::IsInEarlyData, ConnectReply::Flag(false)),
            (ConnectRequest::Poll, ConnectReply::Done),
            (ConnectRequest::CountEvents, ConnectReply::Count(0)),
            (ConnectRequest::OnTimeout, ConnectReply::Done),
            (ConnectRequest::IsClosed { after_sending: false }, ConnectReply::Flag(false)),
            (ConnectRequest::CanStart, ConnectReply::Flag(true)),
            (ConnectRequest::CheckProtocol, ConnectReply::Flag(false)),
            (
                ConnectRequest::Close { cause: CloseCause::WrongProtocol },
                ConnectReply::Done,
            ),
        ],
    );
    assert!(!client.expects(&ConnectReply::Migrated(false)));
    assert!(client.expects(&ConnectReply::Migrated(true)));
}

#[test]
fn client_failures() {
    let mut reading = ConnectLoop::new(false, false);
    reading.advance(ConnectReply::Flag(false));
    reading.advance(ConnectReply::Done);
    reading.advance(ConnectReply::Count(2));
    let mut closed = reading;
    reading.advance(ConnectReply::Flag(false));
    assert_eq!(reading.request, ConnectRequest::Fail { failure: ConnectFailure::Recv });
    closed.advance(ConnectReply::Flag(true));
    let mut open = closed;
    closed.advance(ConnectReply::Flag(true));
    let mut established = closed;
    closed.advance(ConnectReply::Flag(false));
    assert_eq!(closed.request, ConnectRequest::Fail { failure: ConnectFailure::Handshake });
    established.advance(ConnectReply::Flag(true));
    assert_eq!(established.request, ConnectRequest::Return);
    open.advance(ConnectReply::Flag(false));
    open.advance(ConnectReply::Flag(true));
    open.advance(ConnectReply::Flag(true));
    open.advance(ConnectReply::Done);
    open.advance(ConnectReply::Flag(false));
    open.advance(ConnectReply::Migrated(false));
    open.advance(ConnectReply::Done);
    let mut sending = open;
    sending.advance(ConnectReply::Flag(false));
    assert_eq!(sending.request, ConnectRequest::Fail { failure: ConnectFailure::Send });
    open.advance(ConnectReply::Flag(true));
    open.advance(ConnectReply::Flag(true));
    open.advance(ConnectReply::Flag(true));
    assert_eq!(open.request, ConnectRequest::ReportIncomplete);
    open.advance(ConnectReply::Flag(true));
    assert_eq!(open.request, ConnectRequest::Fail { failure: ConnectFailure::Incomplete });
}

#[test]
fn client_failures_become_errors() {
    assert!(matches!(
        ConnectFailure::Handshake.error("x".to_string()),
        ClientError::HandshakeFail
    ));
    assert!(matches!(
        ConnectFailure::Incomplete.error("x".to_string()),
        ClientError::HttpFail
    ));
    for failure in [ConnectFailure::Recv, ConnectFailure::Send] {
        match failure.error("recv() failed".to_string()) {
            ClientError::Other(text) => assert_eq!(text, "recv() failed"),
            _ => panic!("wrong error"),
        }
    }
}

fn run_pass(upkeep: &mut Upkeep, steps: Vec<(UpkeepRequest, UpkeepReply)>) {
    for (request, reply) in steps {
        assert_eq!(upkeep.request, request);
        assert!(upkeep.expects(&reply));
        upkeep.advance(reply);
    }
    assert_eq!(upkeep.request, UpkeepRequest::Return);
}

#[test]
fn passes_probe_one_address_after_the_other() {
    let mut upkeep = Upkeep::new(
        true,
        false,
        addr(9),
        vec![(addr(1), addr(9)), (addr(2), addr(8))],
        vec![],
        vec![],
    );
    run_pass(
        &mut upkeep,
        vec![
            (UpkeepRequest::RetiredScid, UpkeepReply::Flag(true)),
            (UpkeepRequest::RetiredScid, UpkeepReply::Flag(false)),
            (UpkeepRequest::SourceCidsLeft, UpkeepReply::Flag(true)),
            (UpkeepRequest::NewSourceCid, UpkeepReply::Flag(true)),
            (UpkeepRequest::SourceCidsLeft, UpkeepReply::Flag(false)),
            (UpkeepRequest::DcidsToProbe, UpkeepReply::Flag(true)),
            (
                UpkeepRequest::ProbePath { local: addr(1), peer: addr(9) },
                UpkeepReply::Flag(true),
            ),
            (UpkeepRequest::IsMultipath, UpkeepReply::Flag(false)),
        ],
    );
    assert!(upkeep.scid_sent);
    upkeep.begin();
    run_pass(
        &mut upkeep,
        vec![
            (UpkeepRequest::RetiredScid, UpkeepReply::Flag(false)),
            (UpkeepRequest::SourceCidsLeft, UpkeepReply::Flag(false)),
            (UpkeepRequest::DcidsToProbe, UpkeepReply::Flag(true)),
            (
                UpkeepRequest::ProbePath { local: addr(2), peer: addr(8) },
                UpkeepReply::Flag(false),
            ),
            (UpkeepRequest::IsMultipath, UpkeepReply::Flag(true)),
        ],
    );
    assert_eq!(upkeep.probed_paths, 1);
    upkeep.begin();
    run_pass(
        &mut upkeep,
        vec![
            (UpkeepRequest::RetiredScid, UpkeepReply::Flag(false)),
            (UpkeepRequest::SourceCidsLeft, UpkeepReply::Flag(false)),
            (UpkeepRequest::DcidsToProbe, UpkeepReply::Flag(true)),
            (
                UpkeepRequest::ProbePath { local: addr(2), peer: addr(8) },
                UpkeepReply::Flag(true),
            ),
            (UpkeepRequest::IsMultipath, UpkeepReply::Flag(true)),
        ],
    );
    upkeep.begin();
    run_pass(
        &mut upkeep,
        vec![
            (UpkeepRequest::RetiredScid, UpkeepReply::Flag(false)),
            (UpkeepRequest::SourceCidsLeft, UpkeepReply::Flag(false)),
            (UpkeepRequest::IsMultipath, UpkeepReply::Flag(true)),
        ],
    );
}

#[test]
fn second_path_is_probed_once_to_migrate() {
    let mut upkeep = Upkeep::new(
        false,
        true,
        addr(9),
        vec![(addr(1), addr(9))],
        vec![],
        vec![],
    );
    run_pass(
        &mut upkeep,
        vec![
            (UpkeepRequest::RetiredScid, UpkeepReply::Flag(false)),
            (UpkeepRequest::SourceCidsLeft, UpkeepReply::Flag(true)),
            (UpkeepRequest::NewSourceCid, UpkeepReply::Flag(false)),
            (UpkeepRequest::IsMultipath, UpkeepReply::Flag(false)),
        ],
    );
    upkeep.begin();
    run_pass(
        &mut upkeep,
        vec![
            (UpkeepRequest::RetiredScid, UpkeepReply::Flag(false)),
            (UpkeepRequest::SourceCidsLeft, UpkeepReply::Flag(true)),
            (UpkeepRequest::NewSourceCid, UpkeepReply::Flag(true)),
            (UpkeepRequest::SourceCidsLeft, UpkeepReply::Flag(false)),
            (UpkeepRequest::DcidsToMigrate, UpkeepReply::Flag(true)),
            (
                UpkeepRequest::ProbeSecondPath { socket: 1, peer: addr(9) },
                UpkeepReply::Done,
            ),
            (UpkeepRequest::IsMultipath, UpkeepReply::Flag(false)),
        ],
    );
    upkeep.begin();
    run_pass(
        &mut upkeep,
        vec![
            (UpkeepRequest::RetiredScid, UpkeepReply::Flag(false)),
            (UpkeepRequest::SourceCidsLeft, UpkeepReply::Flag(false)),
            (UpkeepRequest::IsMultipath, UpkeepReply::Flag(false)),
        ],
    );
}

#[test]
fn changes_of_paths_are_made_when_due() {
    let removals = vec![
        PathRemoval { after_nanos: 100, addr: addr(1) },
        PathRemoval { after_nanos: 300, addr: addr(2) },
        PathRemoval { after_nanos: 200, addr: addr(3) },
    ];
    let changes = vec![
        PathStatusChange { after_nanos: 100, addr: addr(4), available: false },
        PathStatusChange { after_nanos: 150, addr: addr(5), available: true },
    ];
    let mut upkeep = Upkeep::new(false, false, addr(9), vec![], removals, changes);
    run_pass(
        &mut upkeep,
        vec![
            (UpkeepRequest::RetiredScid, UpkeepReply::Flag(false)),
            (UpkeepRequest::SourceCidsLeft, UpkeepReply::Flag(false)),
            (UpkeepRequest::IsMultipath, UpkeepReply::Flag(true)),
            (UpkeepRequest::RemovalTime { index: 0 }, UpkeepReply::Elapsed(200)),
            (
                UpkeepRequest::AbandonPath {
                    index: 0,
                    addr: addr(1),
                    peer: addr(9),
                    code: 0,
                },
                UpkeepReply::Flag(true),
            ),
            (UpkeepRequest::RemovalTime { index: 0 }, UpkeepReply::Elapsed(200)),
            (UpkeepRequest::RemovalTime { index: 1 }, UpkeepReply::Elapsed(200)),
            (
                UpkeepRequest::AbandonPath {
                    index: 1,
                    addr: addr(3),
                    peer: addr(9),
                    code: 0,
                },
                UpkeepReply::Flag(false),
            ),
            (UpkeepRequest::StatusTime { index: 0 }, UpkeepReply::Elapsed(99)),
            (UpkeepRequest::StatusTime { index: 1 }, UpkeepReply::Elapsed(150)),
            (
                UpkeepRequest::SetPathStatus {
                    index: 1,
                    addr: addr(5),
                    peer: addr(9),
                    available: true,
                    advertise: true,
                },
                UpkeepReply::Flag(true),
            ),
        ],
    );
    assert_eq!(
        upkeep.rm_addrs,
        vec![
            PathRemoval { after_nanos: 300, addr: addr(2) },
            PathRemoval { after_nanos: 200, addr: addr(3) }
        ]
    );
    assert_eq!(abandon_reason(), b"do not use me anymore".to_vec());
    assert_eq!(
        upkeep.status,
        vec![PathStatusChange { after_nanos: 100, addr: addr(4), available: false }]
    );
}

#[test]
fn client_starts_from_the_first_address_of_the_family() {
    let six = SocketAddr::unspecified_for(&SocketAddr::V6 {
        ip: mcmpquic::addr::Ipv6Addr {
            s0: 0,
            s1: 0,
            s2: 0,
            s3: 0,
            s4: 0,
            s5: 0,
            s6: 0,
            s7: 1,
        },
        port: 1,
        flowinfo: 0,
        scope_id: 0,
    });
    let args = client_args(vec![six, addr(1), addr(2)]);
    let (tuples, local) = multicore_prepare_addresses(&addr(4433), &args);
    assert_eq!(tuples, vec![(addr(1), addr(4433)), (addr(2), addr(4433))]);
    assert_eq!(local, addr(1));
    let (none, any) = multicore_prepare_addresses(&addr(4433), &client_args(vec![six]));
    assert_eq!(none, vec![]);
    assert_eq!(any, SocketAddr::unspecified_for(&addr(1)));
    let (one, local) = multicore_prepare_addresses(&six, &args);
    assert_eq!(one, vec![(six, six)]);
    assert_eq!(local, six);
    let (_, any) = multicore_prepare_addresses(&six, &client_args(vec![addr(1)]));
    assert_eq!(any, six);
}

#[test]
fn later_thread_serves_the_path() {
    let tuples = vec![
        (addr(1), addr(9)),
        (addr(2), addr(9)),
        (addr(1), addr(9)),
        (addr(1), addr(8)),
    ];
    assert_eq!(thread_of_path(&tuples, &addr(1), &addr(9)), Some(2));
    assert_eq!(thread_of_path(&tuples, &addr(2), &addr(9)), Some(1));
    assert_eq!(thread_of_path(&tuples, &addr(2), &addr(8)), None);
}

#[test]
fn packets_carry_both_ends() {
    let packet = received_packet(addr(1), addr(9), 3, vec![7u8, 8, 9, 0]);
    assert_eq!(packet.local_addr, addr(1));
    assert_eq!(packet.rcv_info.to, addr(1));
    assert_eq!(packet.rcv_info.from, addr(9));
    assert_eq!(packet.len, 3);
    assert_eq!(packet.pckt, vec![7, 8, 9, 0]);
    let outgoing = outgoing_packet(&(addr(1), addr(9)), 1, [1u8; 2]);
    assert_eq!(outgoing.peer_addr, addr(9));
    assert_eq!(outgoing.pkt[..outgoing.len], [1]);
    assert_eq!(addressed(&outgoing), Outgoing { len: 1, to: addr(9) });
}

#[test]
fn threads_of_sockets_have_their_own_cores() {
    let tuples = vec![(addr(1), addr(9)), (addr(2), addr(9))];
    let plans = vec![
        SocketPlan { local: addr(1), peer: addr(9), core: 0 },
        SocketPlan { local: addr(2), peer: addr(9), core: 1 },
    ];
    assert_eq!(plan_socket_threads(&tuples, 2), Some(plans));
    assert_eq!(plan_socket_threads(&tuples, 1), None);
    assert_eq!(plan_socket_threads(&vec![], 0), Some(vec![]));
}

#[test]
fn socket_thread_relays_both_ways() {
    let mut relay = RelayThread::new();
    let steps = vec![
        (RelayRequest::Poll, RelayReply::Count(2)),
        (
            RelayRequest::RecvFrom { event: 0 },
            RelayReply::Recv(SocketRecv::Received { len: 1350, from: addr(9) }),
        ),
        (
            RelayRequest::PassOn { event: 0, len: 1350, from: addr(9) },
            RelayReply::Done,
        ),
        (
            RelayRequest::RecvFrom { event: 0 },
            RelayReply::Recv(SocketRecv::WouldBlock),
        ),
        (
            RelayRequest::RecvFrom { event: 1 },
            RelayReply::Recv(SocketRecv::WouldBlock),
        ),
        (
            RelayRequest::TakeOutgoing,
            RelayReply::Outgoing(Some(Outgoing { len: 100, to: addr(7) })),
        ),
        (
            RelayRequest::SendTo { len: 100, to: addr(7) },
            RelayReply::Send(SocketSend::Sent),
        ),
        (RelayRequest::Poll, RelayReply::Count(0)),
        (RelayRequest::TakeOutgoing, RelayReply::Outgoing(None)),
        (RelayRequest::Poll, RelayReply::Count(1)),
    ];
    for (request, reply) in steps {
        assert_eq!(relay.request, request);
        assert!(relay.expects(&reply));
        relay.advance(reply);
    }
    assert!(!relay.expects(&RelayReply::Recv(SocketRecv::Received {
        len: 1351,
        from: addr(9)
    })));
    relay.advance(RelayReply::Recv(SocketRecv::Failed));
    assert_eq!(relay.request, RelayRequest::FailRecv);
    let mut blocked = RelayThread::new();
    blocked.advance(RelayReply::Count(0));
    assert!(!blocked.expects(&RelayReply::Outgoing(Some(Outgoing { len: 1351, to: addr(7) }))));
    blocked.advance(RelayReply::Outgoing(Some(Outgoing { len: 1, to: addr(7) })));
    blocked.advance(RelayReply::Send(SocketSend::WouldBlock));
    assert_eq!(blocked.request, RelayRequest::FailSend);
}

fn run_conn(conn: &mut ConnThread, steps: Vec<(ConnRequest, ConnReply)>) {
    for (request, reply) in steps {
        assert_eq!(conn.request, request);
        assert!(conn.expects(&reply));
        conn.advance(reply);
    }
}

#[test]
fn connection_thread_exchanges_http() {
    let mut conn = ConnThread::new(false, true, true, true);
    run_conn(
        &mut conn,
        vec![
            (ConnRequest::IsInEarlyData, ConnReply::Flag(false)),
            (ConnRequest::TakePacket, ConnReply::Flag(true)),
            (ConnRequest::DumpPacket { number: 0 }, ConnReply::Done),
            (ConnRequest::ConnRecv, ConnReply::Flag(true)),
            (ConnRequest::IsClosed { after_sending: false }, ConnReply::Flag(false)),
            (ConnRequest::CanStart, ConnReply::Flag(true)),
            (ConnRequest::SelectedProtocol, ConnReply::Protocol(AppProtocol::Http3)),
            (ConnRequest::CreateHttp3 { with_datagrams: true }, ConnReply::Done),
            (ConnRequest::Exchange, ConnReply::Done),
            (ConnRequest::HandlePathEvents { migrated: false }, ConnReply::Migrated(false)),
            (ConnRequest::Upkeep, ConnReply::Done),
            (ConnRequest::Send, ConnReply::Done),
            (ConnRequest::IsClosed { after_sending: true }, ConnReply::Flag(false)),
            (ConnRequest::IsInEarlyData, ConnReply::Flag(true)),
            (ConnRequest::TakePacket, ConnReply::Flag(true)),
            (ConnRequest::DumpPacket { number: 1 }, ConnReply::Done),
            (ConnRequest::ConnRecv, ConnReply::Flag(true)),
            (ConnRequest::IsClosed { after_sending: false }, ConnReply::Flag(true)),
            (ConnRequest::IsEstablished, ConnReply::Flag(true)),
            (ConnRequest::SaveSession, ConnReply::Done),
            (ConnRequest::ReportIncomplete, ConnReply::Flag(false)),
        ],
    );
    assert_eq!(conn.request, ConnRequest::Return);
    assert_eq!(conn.pkt_count, 2);
}

#[test]
fn connection_thread_failures() {
    let mut conn = ConnThread::new(false, false, false, false);
    run_conn(
        &mut conn,
        vec![
            (ConnRequest::IsInEarlyData, ConnReply::Flag(true)),
            (ConnRequest::OnTimeout, ConnReply::Done),
            (ConnRequest::IsClosed { after_sending: false }, ConnReply::Flag(false)),
            (ConnRequest::CanStart, ConnReply::Flag(true)),
            (ConnRequest::SelectedProtocol, ConnReply::Protocol(AppProtocol::Other)),
            (ConnRequest::HandlePathEvents { migrated: false }, ConnReply::Migrated(false)),
            (ConnRequest::Upkeep, ConnReply::Done),
            (ConnRequest::Send, ConnReply::Done),
            (ConnRequest::IsClosed { after_sending: true }, ConnReply::Flag(false)),
            (ConnRequest::IsInEarlyData, ConnReply::Flag(false)),
            (ConnRequest::TakePacket, ConnReply::Flag(true)),
        ],
    );
    let mut refused = conn;
    refused.advance(ConnReply::Flag(false));
    assert_eq!(refused.request, ConnRequest::Fail { failure: ConnectFailure::Recv });
    run_conn(
        &mut conn,
        vec![
            (ConnRequest::ConnRecv, ConnReply::Flag(true)),
            (ConnRequest::IsClosed { after_sending: false }, ConnReply::Flag(false)),
            (ConnRequest::CanStart, ConnReply::Flag(true)),
            (ConnRequest::SelectedProtocol, ConnReply::Protocol(AppProtocol::Http09)),
            (ConnRequest::CreateHttp09, ConnReply::Done),
            (ConnRequest::Exchange, ConnReply::Done),
            (ConnRequest::HandlePathEvents { migrated: false }, ConnReply::Migrated(false)),
            (ConnRequest::Upkeep, ConnReply::Done),
            (ConnRequest::Send, ConnReply::Done),
            (ConnRequest::IsClosed { after_sending: true }, ConnReply::Flag(true)),
        ],
    );
    let mut unestablished = conn;
    unestablished.advance(ConnReply::Flag(false));
    assert_eq!(
        unestablished.request,
        ConnRequest::Fail { failure: ConnectFailure::Handshake }
    );
    conn.advance(ConnReply::Flag(true));
    conn.advance(ConnReply::Flag(true));
    assert_eq!(conn.request, ConnRequest::Fail { failure: ConnectFailure::Incomplete });
}
