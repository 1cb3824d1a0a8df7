use mcmpquic::addr::{Ipv4Addr, SocketAddr};
use mcmpquic::args::ClientError;
use mcmpquic::initiate::{InitiateLoop, InitiateRequest};
use mcmpquic::multicore_client::{
    joined, ClientThread, Occasion, ReadLoop, ReadReply, ReadRequest, ThreadFailure, ThreadReply,
    ThreadRequest, WriteLoop, WriteOutcome, WriteReply, WriteRequest,
};
use mcmpquic::path_events::{
    ClientPathEvents, PathEventReply, PathEventRequest, ServerPathEvents,
};
use mcmpquic::transport::{
    CloseCause, MulticoreStatus, PathEvent, PathSend, SocketRecv, SocketSend,
};

fn addr(port: u16) -> SocketAddr {
    SocketAddr::V4 {
        ip: Ipv4Addr { a: 127, b: 0, c: 0, d: 1 },
        port,
    }
}

fn drive(thread: &mut ClientThread, steps: Vec<(ThreadRequest, ThreadReply)>) {
    for (request, reply) in steps {
        assert_eq!(thread.request, request);
        assert!(thread.expects(&reply));
        thread.advance(reply);
    }
}

const POLL: ThreadRequest = ThreadRequest::Poll { timeout_ms: 10 };

#[test]
fn initial_datagram_is_sent_again_until_taken() {
    let mut initiate = InitiateLoop::new(1200, addr(9));
    assert_eq!(initiate.request, InitiateRequest::SendTo { len: 1200, to: addr(9) });
    initiate.advance(SocketSend::WouldBlock);
    assert_eq!(initiate.request, InitiateRequest::SendTo { len: 1200, to: addr(9) });
    assert_eq!(initiate.outcome(), None);
    assert!(initiate.expects(&SocketSend::Sent));
    initiate.advance(SocketSend::Sent);
    assert_eq!(initiate.outcome(), Some(true));
    assert!(!initiate.expects(&SocketSend::Sent));
    let mut failing = InitiateLoop::new(1, addr(9));
    failing.advance(SocketSend::Failed);
    assert_eq!(failing.outcome(), Some(false));
}

#[test]
fn packets_are_written_until_there_are_none() {
    let mut write = WriteLoop::new(1350, false);
    assert!(!write.expects(&WriteReply::Path(PathSend::Packet { len: 1351, to: addr(9) })));
    write.advance(WriteReply::Path(PathSend::Packet { len: 1350, to: addr(9) }));
    assert_eq!(write.request, WriteRequest::SendTo { len: 1350, to: addr(9) });
    write.advance(WriteReply::Socket(SocketSend::Sent));
    assert_eq!(write.request, WriteRequest::SendOnPath);
    write.advance(WriteReply::Path(PathSend::Packet { len: 7, to: addr(8) }));
    assert_eq!(write.request, WriteRequest::SendTo { len: 7, to: addr(8) });
    write.advance(WriteReply::Socket(SocketSend::Sent));
    write.advance(WriteReply::Path(PathSend::Done));
    assert_eq!(write.outcome(), Some(WriteOutcome::Continue { can_close_conn: false }));
}

#[test]
fn writing_pauses_when_the_socket_blocks() {
    let mut write = WriteLoop::new(1350, true);
    write.advance(WriteReply::Path(PathSend::Packet { len: 40, to: addr(9) }));
    write.advance(WriteReply::Socket(SocketSend::WouldBlock));
    assert_eq!(write.outcome(), Some(WriteOutcome::Continue { can_close_conn: true }));
    let mut failing = WriteLoop::new(1350, true);
    failing.advance(WriteReply::Path(PathSend::Packet { len: 40, to: addr(9) }));
    failing.advance(WriteReply::Socket(SocketSend::Failed));
    assert_eq!(failing.outcome(), Some(WriteOutcome::Failed));
}

#[test]
fn draining_connections_are_reported() {
    let mut write = WriteLoop::new(1350, false);
    write.advance(WriteReply::Path(PathSend::Draining));
    assert_eq!(
        write.request,
        WriteRequest::SignalDone { status: MulticoreStatus::Error }
    );
    write.advance(WriteReply::Signalled(false));
    assert_eq!(write.outcome(), Some(WriteOutcome::Continue { can_close_conn: true }));
    let mut complete = WriteLoop::new(1350, true);
    complete.advance(WriteReply::Path(PathSend::Draining));
    assert_eq!(
        complete.request,
        WriteRequest::SignalDone { status: MulticoreStatus::Success }
    );
    complete.advance(WriteReply::Signalled(true));
    assert_eq!(complete.outcome(), Some(WriteOutcome::Finished));
}

#[test]
fn failure_to_produce_a_packet_closes_the_connection() {
    let mut write = WriteLoop::new(1350, false);
    write.advance(WriteReply::Path(PathSend::Failed));
    assert_eq!(
        write.request,
        WriteRequest::Close { cause: CloseCause::SendFailure }
    );
    write.advance(WriteReply::Closed);
    assert_eq!(write.outcome(), Some(WriteOutcome::Continue { can_close_conn: false }));
}

#[test]
fn close_causes_have_codes_and_reasons() {
    assert!(CloseCause::Complete.is_app_level());
    assert_eq!(CloseCause::Complete.error_code(), 0);
    assert_eq!(CloseCause::Complete.reason(), Vec::<u8>::new());
    assert!(CloseCause::WrongProtocol.is_app_level());
    assert_eq!(CloseCause::WrongProtocol.error_code(), 0);
    assert_eq!(CloseCause::WrongProtocol.reason(), b"APLN not mMPQUIC".to_vec());
    assert!(!CloseCause::SendFailure.is_app_level());
    assert_eq!(CloseCause::SendFailure.error_code(), 1);
    assert_eq!(CloseCause::SendFailure.reason(), b"fail".to_vec());
}

#[test]
fn datagrams_are_read_for_each_readable_event() {
    let mut read = ReadLoop::new(65507);
    read.advance(ReadReply::Event(Some(false)));
    assert_eq!(read.request, ReadRequest::NextEvent);
    read.advance(ReadReply::Event(Some(true)));
    assert_eq!(read.request, ReadRequest::RecvFrom);
    let received = ReadReply::Socket(SocketRecv::Received { len: 100, from: addr(5) });
    assert!(!read.expects(&ReadReply::Socket(SocketRecv::Received {
        len: 65508,
        from: addr(5)
    })));
    read.advance(received);
    assert_eq!(read.request, ReadRequest::PathRecv { len: 100, from: addr(5) });
    read.advance(ReadReply::Processed);
    assert_eq!(read.request, ReadRequest::RecvFrom);
    read.advance(ReadReply::Socket(SocketRecv::WouldBlock));
    assert_eq!(read.outcome(), None);
    read.advance(ReadReply::Event(None));
    assert_eq!(read.outcome(), Some(true));
    let mut failing = ReadLoop::new(65507);
    failing.advance(ReadReply::Event(Some(true)));
    failing.advance(ReadReply::Socket(SocketRecv::Failed));
    assert_eq!(failing.outcome(), Some(false));
}

#[test]
fn initiating_thread_gives_out_identifiers_and_closes() {
    let mut thread = ClientThread::new(true, true, 1);
    drive(
        &mut thread,
        vec![
            (ThreadRequest::InitiateConnection, ThreadReply::Done),
            (POLL, ThreadReply::Flag(true)),
            (ThreadRequest::ReadPackets, ThreadReply::Flag(true)),
            (ThreadRequest::HandleDonePaths, ThreadReply::ActivePaths(Some(1))),
            (ThreadRequest::ReceiveData, ThreadReply::Flag(false)),
            (ThreadRequest::HandlePathEvents, ThreadReply::Done),
            (ThreadRequest::SourceCidsLeft, ThreadReply::Flag(true)),
            (ThreadRequest::NewSourceCid, ThreadReply::Flag(true)),
            (ThreadRequest::SourceCidsLeft, ThreadReply::Flag(true)),
            (ThreadRequest::NewSourceCid, ThreadReply::Flag(false)),
            (
                ThreadRequest::WritePackets { can_close_conn: false },
                ThreadReply::Wrote(WriteOutcome::Continue { can_close_conn: false }),
            ),
            (POLL, ThreadReply::Flag(false)),
            (ThreadRequest::OnTimeout, ThreadReply::Done),
            (ThreadRequest::HandleDonePaths, ThreadReply::ActivePaths(Some(1))),
            (ThreadRequest::ReceiveData, ThreadReply::Flag(true)),
            (
                ThreadRequest::SignalDone {
                    status: MulticoreStatus::Success,
                    on: Occasion::DataReceived,
                },
                ThreadReply::Flag(false),
            ),
            (ThreadRequest::HandlePathEvents, ThreadReply::Done),
            (ThreadRequest::SourceCidsLeft, ThreadReply::Flag(false)),
        ],
    );
    assert!(!thread.expects(&ThreadReply::Wrote(WriteOutcome::Continue {
        can_close_conn: false
    })));
    drive(
        &mut thread,
        vec![
            (
                ThreadRequest::WritePackets { can_close_conn: true },
                ThreadReply::Wrote(WriteOutcome::Continue { can_close_conn: true }),
            ),
            (
                ThreadRequest::Close { cause: CloseCause::Complete },
                ThreadReply::Flag(true),
            ),
            (POLL, ThreadReply::Flag(false)),
            (ThreadRequest::OnTimeout, ThreadReply::Done),
            (ThreadRequest::HandleDonePaths, ThreadReply::ActivePaths(Some(1))),
            (ThreadRequest::HandlePathEvents, ThreadReply::Done),
            (ThreadRequest::SourceCidsLeft, ThreadReply::Flag(false)),
            (
                ThreadRequest::WritePackets { can_close_conn: true },
                ThreadReply::Wrote(WriteOutcome::Continue { can_close_conn: true }),
            ),
            (
                ThreadRequest::QueryClosed,
                ThreadReply::ConnState { closed: true, established: true },
            ),
        ],
    );
    assert_eq!(thread.request, ThreadRequest::Return);
}

#[test]
fn further_path_is_probed_before_it_is_used() {
    let mut thread = ClientThread::new(false, true, 2);
    drive(
        &mut thread,
        vec![
            (POLL, ThreadReply::Flag(false)),
            (ThreadRequest::OnTimeout, ThreadReply::Done),
            (ThreadRequest::HandleDonePaths, ThreadReply::ActivePaths(Some(2))),
            (ThreadRequest::ReceiveData, ThreadReply::Flag(false)),
            (ThreadRequest::HandlePathEvents, ThreadReply::Done),
            (ThreadRequest::AvailableDcids, ThreadReply::Flag(false)),
            (POLL, ThreadReply::Flag(false)),
            (ThreadRequest::OnTimeout, ThreadReply::Done),
            (ThreadRequest::HandleDonePaths, ThreadReply::ActivePaths(Some(2))),
            (ThreadRequest::ReceiveData, ThreadReply::Flag(false)),
            (ThreadRequest::HandlePathEvents, ThreadReply::Done),
            (ThreadRequest::AvailableDcids, ThreadReply::Flag(true)),
            (ThreadRequest::ProbePath, ThreadReply::Flag(true)),
            (
                ThreadRequest::WritePackets { can_close_conn: false },
                ThreadReply::Wrote(WriteOutcome::Finished),
            ),
        ],
    );
    assert_eq!(thread.request, ThreadRequest::Return);
    assert!(thread.probed_my_path);
}

#[test]
fn thread_failures_become_errors() {
    let mut thread = ClientThread::new(false, false, 2);
    drive(
        &mut thread,
        vec![
            (POLL, ThreadReply::Flag(true)),
            (ThreadRequest::ReadPackets, ThreadReply::Flag(false)),
            (
                ThreadRequest::SignalDone {
                    status: MulticoreStatus::Error,
                    on: Occasion::ReadError,
                },
                ThreadReply::Flag(true),
            ),
        ],
    );
    assert_eq!(thread.request, ThreadRequest::Fail { failure: ThreadFailure::Read });
    assert!(matches!(
        ThreadFailure::Handshake.error(ClientError::Other("x".to_string())),
        ClientError::HandshakeFail
    ));
    for failure in [
        ThreadFailure::Read,
        ThreadFailure::DonePaths,
        ThreadFailure::Write,
        ThreadFailure::Close,
    ] {
        match failure.error(ClientError::Other("detail".to_string())) {
            ClientError::Other(text) => assert_eq!(text, "detail"),
            _ => panic!("wrong error"),
        }
    }
}

#[test]
fn other_thread_failures() {
    let mut thread = ClientThread::new(false, false, 2);
    drive(
        &mut thread,
        vec![
            (POLL, ThreadReply::Flag(false)),
            (ThreadRequest::OnTimeout, ThreadReply::Done),
            (ThreadRequest::HandleDonePaths, ThreadReply::ActivePaths(None)),
        ],
    );
    assert_eq!(thread.request, ThreadRequest::Fail { failure: ThreadFailure::DonePaths });
    let mut closing = ClientThread::new(true, false, 1);
    drive(
        &mut closing,
        vec![
            (ThreadRequest::InitiateConnection, ThreadReply::Done),
            (POLL, ThreadReply::Flag(false)),
            (ThreadRequest::OnTimeout, ThreadReply::Done),
            (ThreadRequest::HandleDonePaths, ThreadReply::ActivePaths(Some(1))),
            (ThreadRequest::ReceiveData, ThreadReply::Flag(false)),
            (ThreadRequest::HandlePathEvents, ThreadReply::Done),
            (ThreadRequest::SourceCidsLeft, ThreadReply::Flag(false)),
        ],
    );
    let mut writing = closing;
    writing.advance(ThreadReply::Wrote(WriteOutcome::Failed));
    assert_eq!(writing.request, ThreadRequest::Fail { failure: ThreadFailure::Write });
    closing.advance(ThreadReply::Wrote(WriteOutcome::Continue { can_close_conn: true }));
    let mut refused = closing;
    refused.advance(ThreadReply::Flag(false));
    assert_eq!(refused.request, ThreadRequest::Fail { failure: ThreadFailure::Close });
    drive(
        &mut closing,
        vec![
            (
                ThreadRequest::Close { cause: CloseCause::Complete },
                ThreadReply::Flag(true),
            ),
            (POLL, ThreadReply::Flag(false)),
            (ThreadRequest::OnTimeout, ThreadReply::Done),
            (ThreadRequest::HandleDonePaths, ThreadReply::ActivePaths(Some(1))),
            (ThreadRequest::HandlePathEvents, ThreadReply::Done),
            (ThreadRequest::SourceCidsLeft, ThreadReply::Flag(false)),
            (
                ThreadRequest::WritePackets { can_close_conn: true },
                ThreadReply::Wrote(WriteOutcome::Continue { can_close_conn: true }),
            ),
            (
                ThreadRequest::QueryClosed,
                ThreadReply::ConnState { closed: true, established: false },
            ),
        ],
    );
    assert_eq!(closing.request, ThreadRequest::Fail { failure: ThreadFailure::Handshake });
}

#[test]
fn client_activates_or_migrates_to_valid_paths() {
    let validated = PathEventReply::Event(Some(PathEvent::Validated {
        local: addr(1),
        peer: addr(2),
    }));
    let mut events = ClientPathEvents::new(true, false);
    assert!(!events.expects(&PathEventReply::Event(Some(PathEvent::New {
        local: addr(1),
        peer: addr(2)
    }))));
    assert!(!events.expects(&PathEventReply::Event(Some(PathEvent::PeerMigrated {
        local: addr(1),
        peer: addr(2)
    }))));
    events.advance(validated);
    assert_eq!(
        events.request,
        PathEventRequest::IsMultipath { local: addr(1), peer: addr(2) }
    );
    events.advance(PathEventReply::Flag(true));
    assert_eq!(
        events.request,
        PathEventRequest::SetActive { local: addr(1), peer: addr(2) }
    );
    events.advance(PathEventReply::Done);
    events.advance(validated);
    events.advance(PathEventReply::Flag(false));
    assert_eq!(
        events.request,
        PathEventRequest::Migrate { local: addr(1), peer: addr(2) }
    );
    events.advance(PathEventReply::Done);
    events.advance(PathEventReply::Event(Some(PathEvent::PacketNumSpaceDiscarded {
        local: addr(3),
        peer: addr(4),
    })));
    assert_eq!(
        events.request,
        PathEventRequest::DiscardPacketNumSpace { local: addr(3), peer: addr(4) }
    );
    events.advance(PathEventReply::Done);
    assert_eq!(events.outcome(), None);
    events.advance(PathEventReply::Event(None));
    assert_eq!(events.outcome(), Some(true));
}

#[test]
fn server_probes_new_paths() {
    let mut events = ServerPathEvents::new(false);
    let new = PathEventReply::Event(Some(PathEvent::New {
        local: addr(1),
        peer: addr(2),
    }));
    events.advance(new);
    assert_eq!(
        events.request,
        PathEventRequest::ProbePath { local: addr(1), peer: addr(2) }
    );
    events.advance(PathEventReply::Flag(false));
    assert!(!events.probed_my_path);
    events.advance(new);
    events.advance(PathEventReply::Flag(true));
    events.advance(PathEventReply::Event(Some(PathEvent::Validated {
        local: addr(1),
        peer: addr(2),
    })));
    events.advance(PathEventReply::Flag(false));
    assert_eq!(events.request, PathEventRequest::NextEvent);
    events.advance(PathEventReply::Event(Some(PathEvent::Closed {
        local: addr(1),
        peer: addr(2),
    })));
    events.advance(PathEventReply::Event(None));
    assert_eq!(events.outcome(), Some(true));
}

#[test]
fn panicked_threads_fail_the_client() {
    assert!(joined(&vec![]).is_ok());
    assert!(joined(&vec![false, false]).is_ok());
    match joined(&vec![false, true, false]) {
        Err(ClientError::Other(message)) => assert_eq!(message, "Error in thread"),
        _ => panic!("wrong error"),
    }
}
