use mcmpquic::addr::{Ipv4Addr, Ipv6Addr, SocketAddr};
use mcmpquic::listener::{
    decide_packet, derive_connection_id, handle_datagram, handle_packet, mint_token,
    token_present, validate_token, Datagram, DatagramAction, Header, ListenLoop, ListenReply,
    ListenRequest, PacketAction, PacketType, Verdict,
};
use mcmpquic::random::{random_connection_id, random_seed, take_random, RandomFailure};
use mcmpquic::transport::SocketSend;

fn v4(d: u8, port: u16) -> SocketAddr {
    SocketAddr::V4 {
        ip: Ipv4Addr { a: 192, b: 0, c: 2, d },
        port,
    }
}

fn header(dcid: Vec<u8>, token: Vec<u8>) -> Header {
    Header {
        ty: PacketType::Initial,
        version: 1,
        scid: vec![3; 8],
        dcid,
        token: Some(token),
    }
}

fn bytes(hex: &str) -> Vec<u8> {
    (0..hex.len() / 2)
        .map(|i| u8::from_str_radix(&hex[2 * i..2 * i + 2], 16).unwrap())
        .collect()
}

#[test]
fn token_is_tag_address_and_identifier() {
    let token = mint_token(&vec![1, 2, 3], &v4(9, 4433));
    assert_eq!(token, vec![b'q', b'u', b'i', b'c', b'h', b'e', 192, 0, 2, 9, 1, 2, 3]);
    assert_eq!(validate_token(&v4(9, 1), &token), Some(vec![1, 2, 3]));
}

#[test]
fn tokens_of_others_are_refused() {
    let token = mint_token(&vec![1, 2, 3], &v4(9, 4433));
    assert_eq!(validate_token(&v4(8, 4433), &token), None);
    assert_eq!(validate_token(&v4(9, 4433), &vec![]), None);
    assert_eq!(validate_token(&v4(9, 4433), &b"quiche".to_vec()), None);
    assert_eq!(validate_token(&v4(9, 4433), &b"quichy\xc0\x00\x02\x09".to_vec()), None);
    assert_eq!(
        validate_token(&v4(9, 4433), &b"quiche\xc0\x00\x02\x09".to_vec()),
        Some(vec![])
    );
}

#[test]
fn tokens_hold_sixteen_octets_of_an_ipv6_address() {
    let src = SocketAddr::V6 {
        ip: Ipv6Addr {
            s0: 0xfe80,
            s1: 0,
            s2: 0,
            s3: 0,
            s4: 0,
            s5: 0,
            s6: 0,
            s7: 1,
        },
        port: 1,
        flowinfo: 0,
        scope_id: 3,
    };
    let token = mint_token(&vec![7], &src);
    assert_eq!(token.len(), 23);
    assert_eq!(token[6], 0xfe);
    assert_eq!(token[21], 1);
    assert_eq!(validate_token(&src, &token), Some(vec![7]));
    assert_eq!(validate_token(&v4(1, 1), &token), None);
}

#[test]
fn identifier_is_the_start_of_the_keyed_digest() {
    let id = derive_connection_id(&b"Jefe".to_vec(), &b"what do ya want for nothing?".to_vec());
    assert_eq!(id, bytes("5bdcc146bf60754e6a042426089575c75a003f08"));
}

#[test]
fn packets_that_are_not_initial_are_dropped() {
    let mut hdr = header(vec![1], vec![]);
    hdr.token = None;
    for ty in [
        PacketType::Retry,
        PacketType::Handshake,
        PacketType::ZeroRtt,
        PacketType::VersionNegotiation,
        PacketType::Short,
    ] {
        hdr.ty = ty;
        assert!(token_present(&hdr));
        let action = decide_packet(vec![5; 20], &hdr, false, &v4(1, 1));
        assert!(matches!(action, PacketAction::Drop));
    }
}

#[test]
fn unsupported_versions_are_negotiated() {
    let mut hdr = header(vec![1], vec![]);
    for version in [0, 2, 0xff00_001a, 0xff00_001e, 0x1a1a_1a1a] {
        hdr.version = version;
        let action = decide_packet(vec![5; 20], &hdr, true, &v4(1, 1));
        assert!(matches!(action, PacketAction::NegotiateVersion));
    }
    for version in [1, 0xff00_001b, 0xff00_001c, 0xff00_001d] {
        hdr.version = version;
        let action = decide_packet(vec![5; 20], &hdr, true, &v4(1, 1));
        assert!(matches!(action, PacketAction::Accept { .. }));
    }
}

#[test]
fn without_retries_clients_are_accepted_at_once() {
    match decide_packet(vec![5; 20], &header(vec![1], vec![]), true, &v4(1, 1)) {
        PacketAction::Accept { scid, odcid } => {
            assert_eq!(scid, vec![5; 20]);
            assert_eq!(odcid, None);
        }
        _ => panic!("not accepted"),
    }
}

#[test]
fn initial_packets_need_a_token_field() {
    let mut hdr = header(vec![1], vec![]);
    assert!(token_present(&hdr));
    hdr.token = None;
    assert!(!token_present(&hdr));
}

#[test]
fn client_comes_back_with_its_token() {
    let seed = b"Jefe".to_vec();
    let first = header(b"what do ya want for nothing?".to_vec(), vec![]);
    let (scid, token) = match handle_packet(&seed, &first, false, &v4(9, 1000)) {
        PacketAction::Retry { scid, token } => (scid, token),
        _ => panic!("no retry"),
    };
    assert_eq!(scid, bytes("5bdcc146bf60754e6a042426089575c75a003f08"));
    let second = header(scid.clone(), token.clone());
    match handle_packet(&seed, &second, false, &v4(9, 2000)) {
        PacketAction::Accept { scid: accepted, odcid } => {
            assert_eq!(accepted, scid);
            assert_eq!(odcid, Some(b"what do ya want for nothing?".to_vec()));
        }
        _ => panic!("not accepted"),
    }
    let elsewhere = handle_packet(&seed, &header(scid, token.clone()), false, &v4(8, 2000));
    assert!(matches!(elsewhere, PacketAction::Drop));
    let short = handle_packet(&seed, &header(vec![1; 19], token), false, &v4(9, 2000));
    assert!(matches!(short, PacketAction::Drop));
}

#[test]
fn random_values_have_their_lengths() {
    let one = random_connection_id().unwrap();
    let other = random_connection_id().unwrap();
    assert_eq!(one.len(), 20);
    assert_ne!(one, other);
    assert_ne!(one, vec![0; 20]);
    assert_eq!(random_seed().unwrap().len(), 32);
}

#[test]
fn random_bytes_are_taken_as_they_come() {
    assert_eq!(take_random(Ok(vec![4, 2])), Ok(vec![4, 2]));
    assert_eq!(take_random(Err(ring::error::Unspecified)), Err(RandomFailure));
}

#[test]
fn listener_answers_and_accepts() {
    let mut listener = ListenLoop::new();
    assert_eq!(listener.request, ListenRequest::Poll);
    assert!(!listener.expects(&ListenReply::Taken(true)));
    listener.advance(ListenReply::Done);
    assert_eq!(listener.request, ListenRequest::RecvFrom);
    let from = v4(9, 1000);
    let datagram = ListenReply::Datagram(Some(Datagram { len: 1200, from }));
    assert!(!listener.expects(&ListenReply::Datagram(Some(Datagram { len: 65508, from }))));
    assert!(listener.expects(&datagram));
    listener.advance(datagram);
    assert_eq!(listener.request, ListenRequest::Examine { len: 1200, from });
    listener.advance(ListenReply::Verdict(Verdict::Answer));
    assert_eq!(listener.request, ListenRequest::Answer { to: from });
    assert!(!listener.expects(&ListenReply::Socket(SocketSend::Failed)));
    listener.advance(ListenReply::Socket(SocketSend::WouldBlock));
    assert_eq!(listener.request, ListenRequest::Poll);
    listener.advance(ListenReply::Done);
    listener.advance(datagram);
    listener.advance(ListenReply::Verdict(Verdict::Answer));
    listener.advance(ListenReply::Socket(SocketSend::Sent));
    assert_eq!(listener.request, ListenRequest::RecvFrom);
    listener.advance(datagram);
    listener.advance(ListenReply::Verdict(Verdict::Drop));
    assert_eq!(listener.request, ListenRequest::RecvFrom);
    listener.advance(datagram);
    listener.advance(ListenReply::Verdict(Verdict::Accept));
    assert_eq!(listener.request, ListenRequest::Accept { len: 1200, from });
    listener.advance(ListenReply::Taken(false));
    assert_eq!(listener.request, ListenRequest::RecvFrom);
    listener.advance(ListenReply::Datagram(None));
    assert_eq!(listener.request, ListenRequest::Poll);
    listener.advance(ListenReply::Done);
    listener.advance(datagram);
    listener.advance(ListenReply::Verdict(Verdict::Accept));
    listener.advance(ListenReply::Taken(true));
    assert_eq!(listener.request, ListenRequest::Return);
    assert!(!listener.expects(&ListenReply::Done));
}

/// A packet of the long form.
fn long_packet(first: u8, version: u32, dcid: &[u8], scid: &[u8], rest: &[u8]) -> Vec<u8> {
    let mut packet = vec![first];
    packet.extend_from_slice(&version.to_be_bytes());
    packet.push(dcid.len() as u8);
    packet.extend_from_slice(dcid);
    packet.push(scid.len() as u8);
    packet.extend_from_slice(scid);
    packet.extend_from_slice(rest);
    packet
}

/// An Initial packet with a token of less than 64 bytes.
fn initial_packet(version: u32, dcid: &[u8], scid: &[u8], token: &[u8]) -> Vec<u8> {
    let mut rest = vec![token.len() as u8];
    rest.extend_from_slice(token);
    rest.extend_from_slice(&[0x40, 0x64, 0, 0, 0, 0]);
    long_packet(0xc3, version, dcid, scid, &rest)
}

#[test]
fn client_is_sent_a_retry_packet_and_comes_back() {
    let seed = b"Jefe".to_vec();
    let first = initial_packet(1, b"what do ya want for", &[1, 2, 3], &[]);
    let action = handle_datagram(&seed, &first, false, &v4(9, 1000));
    assert_eq!(action.verdict(), Verdict::Answer);
    let retry = match action {
        DatagramAction::Retry { packet } => packet,
        _ => panic!("no retry"),
    };
    let scid = derive_connection_id(&seed, &b"what do ya want for".to_vec());
    let token = mint_token(&b"what do ya want for".to_vec(), &v4(9, 1));
    assert_eq!(retry.len(), 23 + 3 + 20 + token.len());
    assert_eq!(retry[..9], [0xf0, 0, 0, 0, 1, 3, 1, 2, 3]);
    assert_eq!(retry[9], 20);
    assert_eq!(retry[10..30], scid[..]);
    assert_eq!(retry[30..30 + token.len()], token[..]);
    let second = initial_packet(1, &scid, &[1, 2, 3], &token);
    let action = handle_datagram(&seed, &second, false, &v4(9, 2000));
    assert_eq!(action.verdict(), Verdict::Accept);
    match action {
        DatagramAction::Accept { scid: accepted, odcid } => {
            assert_eq!(accepted, scid);
            assert_eq!(odcid, Some(b"what do ya want for".to_vec()));
        }
        _ => panic!("not accepted"),
    }
    let elsewhere = handle_datagram(&seed, &second, false, &v4(8, 2000));
    assert_eq!(elsewhere.verdict(), Verdict::Drop);
}

#[test]
fn datagrams_without_retries() {
    let seed = vec![7; 32];
    match handle_datagram(&seed, &initial_packet(1, &[9; 8], &[1], &[]), true, &v4(9, 1)) {
        DatagramAction::Accept { scid, odcid } => {
            assert_eq!(scid, derive_connection_id(&seed, &vec![9; 8]));
            assert_eq!(odcid, None);
        }
        _ => panic!("not accepted"),
    }
}

#[test]
fn datagrams_of_other_versions_are_negotiated() {
    let packet = initial_packet(0x1a1a_1a1a, &[9; 25], &[1, 2], &[]);
    let action = handle_datagram(&vec![7; 32], &packet, false, &v4(9, 1));
    assert_eq!(action.verdict(), Verdict::Answer);
    match action {
        DatagramAction::NegotiateVersion { scid, dcid } => {
            assert_eq!(scid, vec![1, 2]);
            assert_eq!(dcid, vec![9; 25]);
        }
        _ => panic!("not negotiated"),
    }
}

#[test]
fn datagrams_that_start_no_connection_are_dropped() {
    let seed = vec![7; 32];
    let mut packets = vec![
        vec![],
        vec![0xc3, 0, 0],
        initial_packet(1, &[9; 21], &[1], &[]),
        initial_packet(1, &[9; 8], &[1; 21], &[]),
        long_packet(0xe3, 1, &[9; 8], &[1], &[]),
        long_packet(0xd3, 1, &[9; 8], &[1], &[]),
        long_packet(0xf3, 1, &[9; 8], &[1], &[5; 20]),
        long_packet(0xc3, 0, &[9; 8], &[1], &[0, 0, 0, 1]),
        vec![0x43; 40],
    ];
    packets.push(long_packet(0xc3, 1, &[9; 8], &[1], &[10, 1, 2]));
    for packet in packets {
        let action = handle_datagram(&seed, &packet, true, &v4(9, 1));
        assert!(matches!(action, DatagramAction::Drop));
    }
}
