use mcmpquic::addr::{Ipv4Addr, SocketAddr};
use mcmpquic::multicore_server::{
    first_server_core, has_enough_cores, limit_burst, nb_initiated_paths, path_transfer_size,
    plan_server_paths, take_stream_id, BurstOutcome, BurstReply, BurstRequest, SendBurst,
    ServerPathPlan, ServerRead, ServerReadReply, ServerReadRequest, ServerReply, ServerRequest,
    ServerThread, FIRST_STREAM_ID,
};
use mcmpquic::transport::{CloseCause, MulticoreStatus, PathSend, SocketSend};

fn addr(d: u8, port: u16) -> SocketAddr {
    SocketAddr::V4 {
        ip: Ipv4Addr { a: 127, b: 0, c: 0, d },
        port,
    }
}

const POLL: ServerRequest = ServerRequest::Poll { timeout_ms: 10 };

#[test]
fn transfer_is_shared_among_the_paths() {
    let further = vec![addr(2, 3344)];
    assert_eq!(nb_initiated_paths(&further), 2);
    assert_eq!(path_transfer_size(Some(1073741824), 2), Some(536870912));
    assert_eq!(path_transfer_size(Some(10), 3), Some(3));
    assert_eq!(path_transfer_size(None, 2), None);
}

#[test]
fn streams_are_taken_one_after_the_other() {
    let mut next = FIRST_STREAM_ID;
    assert_eq!(take_stream_id(&mut next), 3);
    assert_eq!(take_stream_id(&mut next), 7);
    assert_eq!(take_stream_id(&mut next), 11);
    assert_eq!(next, 15);
}

#[test]
fn further_paths_are_planned() {
    let listen = addr(1, 4433);
    let servers = vec![addr(2, 3344), listen, addr(3, 3344)];
    assert_eq!(
        plan_server_paths(&servers, &listen, &None),
        vec![
            ServerPathPlan { local: addr(2, 3344), core: None },
            ServerPathPlan { local: addr(3, 3344), core: None }
        ]
    );
    assert_eq!(first_server_core(&None), None);
    let cores = Some(vec![7, 5, 6]);
    assert!(has_enough_cores(&servers, &listen, &cores));
    assert_eq!(first_server_core(&cores), Some(7));
    assert_eq!(
        plan_server_paths(&servers, &listen, &cores),
        vec![
            ServerPathPlan { local: addr(2, 3344), core: Some(5) },
            ServerPathPlan { local: addr(3, 3344), core: Some(6) }
        ]
    );
    assert!(!has_enough_cores(&servers, &listen, &Some(vec![7, 5])));
    assert!(has_enough_cores(&servers, &listen, &None));
}

#[test]
fn bursts_are_limited_to_whole_datagrams() {
    assert_eq!(limit_burst(65535, 65507), 64800);
    assert_eq!(limit_burst(13499, 65507), 12150);
    assert_eq!(limit_burst(100000, 13500), 13500);
    assert_eq!(limit_burst(1349, 65507), 0);
}

#[test]
fn first_datagram_tells_the_peer() {
    let mut read = ServerRead::new(false, false, false, true, false);
    let steps = vec![
        (
            ServerReadRequest::RecvFrom,
            ServerReadReply::Received { len: 1200, from: addr(9, 1) },
        ),
        (
            ServerReadRequest::SetPeerAddr { len: 1200, from: addr(9, 1) },
            ServerReadReply::Done,
        ),
        (
            ServerReadRequest::PathRecv { len: 1200, from: addr(9, 1) },
            ServerReadReply::Flag(true),
        ),
        (
            ServerReadRequest::RecvFrom,
            ServerReadReply::Received { len: 65507, from: addr(9, 2) },
        ),
        (
            ServerReadRequest::PathRecv { len: 65507, from: addr(9, 2) },
            ServerReadReply::Flag(false),
        ),
        (ServerReadRequest::RecvFrom, ServerReadReply::WouldBlock),
    ];
    for (request, reply) in steps {
        assert_eq!(read.request, request);
        assert!(read.expects(&reply));
        read.advance(reply);
    }
    assert_eq!(
        read.outcome(),
        Some(ServerReply::Read { scid_sent: false, has_set_peer_addr: true })
    );
}

#[test]
fn first_path_gives_out_identifiers_once() {
    let mut read = ServerRead::new(true, false, true, false, true);
    assert!(!read.expects(&ServerReadReply::Received { len: 65508, from: addr(9, 1) }));
    let steps = vec![
        (
            ServerReadRequest::RecvFrom,
            ServerReadReply::Received { len: 10, from: addr(9, 1) },
        ),
        (
            ServerReadRequest::PathRecv { len: 10, from: addr(9, 1) },
            ServerReadReply::Flag(true),
        ),
        (ServerReadRequest::SourceCidsLeft, ServerReadReply::Flag(true)),
        (ServerReadRequest::NewSourceCid, ServerReadReply::Flag(true)),
        (ServerReadRequest::SourceCidsLeft, ServerReadReply::Flag(true)),
        (ServerReadRequest::NewSourceCid, ServerReadReply::Flag(false)),
        (
            ServerReadRequest::RecvFrom,
            ServerReadReply::Received { len: 10, from: addr(9, 1) },
        ),
        (
            ServerReadRequest::PathRecv { len: 10, from: addr(9, 1) },
            ServerReadReply::Flag(true),
        ),
        (ServerReadRequest::RecvFrom, ServerReadReply::WouldBlock),
    ];
    for (request, reply) in steps {
        assert_eq!(read.request, request);
        assert!(read.expects(&reply));
        read.advance(reply);
    }
    assert_eq!(
        read.outcome(),
        Some(ServerReply::Read { scid_sent: true, has_set_peer_addr: true })
    );
    let mut idle = ServerRead::new(true, false, true, false, false);
    assert_eq!(idle.request, ServerReadRequest::OnTimeout);
    idle.advance(ServerReadReply::Done);
    assert!(idle.outcome().is_some());
}

#[test]
fn burst_ends_with_a_short_packet() {
    let mut burst = SendBurst::new(64800, true, false);
    assert_eq!(burst.request, BurstRequest::SendOnPath { start: 0, end: 64800 });
    burst.advance(BurstReply::Path(PathSend::Packet { len: 1350, to: addr(9, 1) }));
    assert_eq!(burst.request, BurstRequest::SendOnPath { start: 1350, end: 64800 });
    assert!(!burst.expects(&BurstReply::Path(PathSend::Packet { len: 63451, to: addr(9, 1) })));
    burst.advance(BurstReply::Path(PathSend::Packet { len: 100, to: addr(9, 2) }));
    assert_eq!(burst.request, BurstRequest::SendTo { len: 1450, to: addr(9, 1) });
    assert!(!burst.expects(&BurstReply::Socket(SocketSend::Failed)));
    assert!(burst.expects(&BurstReply::Socket(SocketSend::WouldBlock)));
    burst.advance(BurstReply::Socket(SocketSend::Sent));
    assert_eq!(
        burst.outcome(),
        Some(BurstOutcome::Continue { continue_write: true, can_close_conn: false })
    );
}

#[test]
fn full_burst_asks_for_another() {
    let mut burst = SendBurst::new(2700, true, false);
    burst.advance(BurstReply::Path(PathSend::Packet { len: 1350, to: addr(9, 1) }));
    burst.advance(BurstReply::Path(PathSend::Packet { len: 1350, to: addr(9, 1) }));
    assert_eq!(burst.request, BurstRequest::SendTo { len: 2700, to: addr(9, 1) });
    burst.advance(BurstReply::Socket(SocketSend::Sent));
    assert_eq!(
        burst.outcome(),
        Some(BurstOutcome::Continue { continue_write: true, can_close_conn: false })
    );
    let mut done = SendBurst::new(2700, true, false);
    done.advance(BurstReply::Path(PathSend::Packet { len: 1350, to: addr(9, 1) }));
    done.advance(BurstReply::Path(PathSend::Done));
    assert_eq!(done.request, BurstRequest::SendTo { len: 1350, to: addr(9, 1) });
    done.advance(BurstReply::Socket(SocketSend::Sent));
    assert_eq!(
        done.outcome(),
        Some(BurstOutcome::Continue { continue_write: false, can_close_conn: false })
    );
}

#[test]
fn nothing_is_sent_on_paths_that_are_not_probed() {
    let burst = SendBurst::new(64800, false, true);
    assert_eq!(
        burst.outcome(),
        Some(BurstOutcome::Continue { continue_write: false, can_close_conn: true })
    );
    assert_eq!(limit_burst(1349, 65507), 0);
    let small = SendBurst::new(limit_burst(1349, 65507), true, false);
    assert_eq!(
        small.outcome(),
        Some(BurstOutcome::Continue { continue_write: false, can_close_conn: false })
    );
}

#[test]
fn draining_ends_a_burst() {
    let mut burst = SendBurst::new(64800, true, false);
    burst.advance(BurstReply::Path(PathSend::Packet { len: 1350, to: addr(9, 1) }));
    burst.advance(BurstReply::Path(PathSend::Draining));
    assert_eq!(
        burst.request,
        BurstRequest::SignalDone { status: MulticoreStatus::Error }
    );
    let mut finished = burst;
    finished.advance(BurstReply::Signalled(true));
    assert_eq!(finished.outcome(), Some(BurstOutcome::Finished));
    burst.advance(BurstReply::Signalled(false));
    assert_eq!(burst.request, BurstRequest::SendTo { len: 1350, to: addr(9, 1) });
    assert!(burst.can_close_conn);
    let mut failing = SendBurst::new(64800, true, true);
    failing.advance(BurstReply::Path(PathSend::Failed));
    assert_eq!(
        failing.request,
        BurstRequest::Close { cause: CloseCause::SendFailure }
    );
    failing.advance(BurstReply::Closed);
    assert!(failing.outcome().is_some());
}

fn drive(thread: &mut ServerThread, steps: Vec<(ServerRequest, ServerReply)>) {
    for (request, reply) in steps {
        assert_eq!(thread.request, request);
        assert!(thread.expects(&reply));
        thread.advance(reply);
    }
}

#[test]
fn first_thread_transfers_until_the_peer_closes() {
    let mut thread = ServerThread::new(true, 1, Some(500));
    let read = ServerReply::Read { scid_sent: true, has_set_peer_addr: true };
    let sent = ServerReply::Burst(BurstOutcome::Continue {
        continue_write: true,
        can_close_conn: false,
    });
    drive(
        &mut thread,
        vec![
            (POLL, ServerReply::Flag(true)),
            (ServerRequest::Read { events: true }, read),
            (ServerRequest::HandleDonePaths, ServerReply::ActivePaths(1)),
            (
                ServerRequest::QueryHandshake,
                ServerReply::Handshake { in_early_data: false, established: true },
            ),
            (
                ServerRequest::HandlePathEvents { probed_my_path: true },
                ServerReply::Probed(true),
            ),
            (ServerRequest::LossGrown, ServerReply::Flag(true)),
            (ServerRequest::SendQuantum, ServerReply::Quantum(65535)),
            (
                ServerRequest::SendBurst {
                    limit: 48600,
                    probed_my_path: true,
                    can_close_conn: false,
                },
                sent,
            ),
            (ServerRequest::Poll { timeout_ms: 0 }, ServerReply::Flag(false)),
            (ServerRequest::Read { events: false }, read),
            (ServerRequest::HandleDonePaths, ServerReply::ActivePaths(1)),
            (ServerRequest::IsActive, ServerReply::Flag(true)),
            (ServerRequest::CheckProtocol, ServerReply::Flag(true)),
            (
                ServerRequest::CreateTransfer { transfer_size: Some(500) },
                ServerReply::Done,
            ),
            (ServerRequest::SendData, ServerReply::Flag(true)),
            (ServerRequest::NoDataInflight, ServerReply::Flag(true)),
            (ServerRequest::PeerClosed, ServerReply::Flag(true)),
            (
                ServerRequest::SignalDone { status: MulticoreStatus::Success },
                ServerReply::Flag(false),
            ),
            (
                ServerRequest::HandlePathEvents { probed_my_path: true },
                ServerReply::Probed(true),
            ),
            (ServerRequest::LossGrown, ServerReply::Flag(false)),
            (ServerRequest::SendQuantum, ServerReply::Quantum(1350)),
            (
                ServerRequest::SendBurst {
                    limit: 1350,
                    probed_my_path: true,
                    can_close_conn: true,
                },
                ServerReply::Burst(BurstOutcome::Continue {
                    continue_write: false,
                    can_close_conn: true,
                }),
            ),
            (ServerRequest::IsClosed, ServerReply::Flag(false)),
        ],
    );
    assert_eq!(thread.request, POLL);
    assert_eq!(thread.max_send_burst, 49128);
    assert!(!thread.expects(&ServerReply::Done));
}

#[test]
fn further_thread_ends_when_its_data_is_acknowledged() {
    let mut thread = ServerThread::new(false, 2, None);
    assert!(!thread.probed_my_path);
    drive(
        &mut thread,
        vec![
            (POLL, ServerReply::Flag(true)),
            (
                ServerRequest::Read { events: true },
                ServerReply::Read { scid_sent: false, has_set_peer_addr: true },
            ),
            (
                ServerRequest::QueryHandshake,
                ServerReply::Handshake { in_early_data: false, established: true },
            ),
            (
                ServerRequest::HandlePathEvents { probed_my_path: false },
                ServerReply::Probed(true),
            ),
            (ServerRequest::LossGrown, ServerReply::Flag(false)),
            (ServerRequest::SendQuantum, ServerReply::Quantum(0)),
            (
                ServerRequest::SendBurst {
                    limit: 0,
                    probed_my_path: true,
                    can_close_conn: false,
                },
                ServerReply::Burst(BurstOutcome::Continue {
                    continue_write: false,
                    can_close_conn: false,
                }),
            ),
            (POLL, ServerReply::Flag(true)),
        ],
    );
    assert!(!thread.expects(&ServerReply::Read {
        scid_sent: false,
        has_set_peer_addr: false
    }));
    drive(
        &mut thread,
        vec![
            (
                ServerRequest::Read { events: true },
                ServerReply::Read { scid_sent: false, has_set_peer_addr: true },
            ),
            (ServerRequest::IsActive, ServerReply::Flag(true)),
            (ServerRequest::CheckProtocol, ServerReply::Flag(true)),
            (ServerRequest::CreateTransfer { transfer_size: None }, ServerReply::Done),
            (ServerRequest::SendData, ServerReply::Flag(true)),
            (ServerRequest::NoDataInflight, ServerReply::Flag(true)),
            (
                ServerRequest::SignalDone { status: MulticoreStatus::Success },
                ServerReply::Flag(true),
            ),
        ],
    );
    assert_eq!(thread.request, ServerRequest::Return);
}

#[test]
fn wrong_protocol_closes_the_connection() {
    let mut thread = ServerThread::new(false, 2, None);
    drive(
        &mut thread,
        vec![
            (POLL, ServerReply::Flag(false)),
            (
                ServerRequest::Read { events: false },
                ServerReply::Read { scid_sent: false, has_set_peer_addr: false },
            ),
            (
                ServerRequest::QueryHandshake,
                ServerReply::Handshake { in_early_data: true, established: false },
            ),
            (
                ServerRequest::HandlePathEvents { probed_my_path: false },
                ServerReply::Probed(false),
            ),
            (ServerRequest::LossGrown, ServerReply::Flag(false)),
            (ServerRequest::SendQuantum, ServerReply::Quantum(70000)),
            (
                ServerRequest::SendBurst {
                    limit: 64800,
                    probed_my_path: false,
                    can_close_conn: false,
                },
                ServerReply::Burst(BurstOutcome::Continue {
                    continue_write: false,
                    can_close_conn: false,
                }),
            ),
            (POLL, ServerReply::Flag(false)),
            (
                ServerRequest::Read { events: false },
                ServerReply::Read { scid_sent: false, has_set_peer_addr: false },
            ),
            (ServerRequest::IsActive, ServerReply::Flag(true)),
            (ServerRequest::CheckProtocol, ServerReply::Flag(false)),
            (
                ServerRequest::Close { cause: CloseCause::WrongProtocol },
                ServerReply::Done,
            ),
        ],
    );
    assert_eq!(
        thread.request,
        ServerRequest::HandlePathEvents { probed_my_path: false }
    );
    assert!(!thread.created_app_conn);
}

#[test]
fn bursts_are_never_limited_below_ten_datagrams() {
    let mut thread = ServerThread::new(true, 1, None);
    for _ in 0..12 {
        thread.request = ServerRequest::LossGrown;
        thread.advance(ServerReply::Flag(true));
    }
    assert_eq!(thread.max_send_burst, 13500);
    thread.advance(ServerReply::Quantum(1000000));
    assert_eq!(
        thread.request,
        ServerRequest::SendBurst { limit: 13500, probed_my_path: true, can_close_conn: false }
    );
    thread.advance(ServerReply::Burst(BurstOutcome::Finished));
    assert_eq!(thread.request, ServerRequest::Return);
}
