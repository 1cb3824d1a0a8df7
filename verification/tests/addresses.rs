use mcmpquic::addr::{
    drop_address, exceeds_cid_limit, pair_addresses, paths_to, pick_family, pick_first,
    usable_addresses, Ipv4Addr, Ipv6Addr, SocketAddr,
};
use mcmpquic::args::{server_address, ClientArgs, ClientError, CommonArgs};
use mcmpquic::config::{client_settings, server_settings, DgramQueues, PeerVerification};
use mcmpquic::dump::packet_path;
use mcmpquic::multicore_client::{
    can_prepare_addresses, first_core, multicore_prepare_addresses, plan_paths, PathPlan,
};
use mcmpquic::sockets::{can_plan_sockets, create_sockets, plan_sockets, SocketTable};

fn v4(a: u8, b: u8, c: u8, d: u8, port: u16) -> SocketAddr {
    SocketAddr::V4 {
        ip: Ipv4Addr { a, b, c, d },
        port,
    }
}

fn v6(last: u16, port: u16) -> SocketAddr {
    SocketAddr::V6 {
        ip: Ipv6Addr {
            s0: 0x2001,
            s1: 0x0db8,
            s2: 0,
            s3: 0,
            s4: 0,
            s5: 0,
            s6: 0,
            s7: last,
        },
        port,
        flowinfo: 0,
        scope_id: 0,
    }
}

fn client_args(addrs: Vec<SocketAddr>) -> ClientArgs {
    ClientArgs {
        version: 1,
        connect_to: Some("127.0.0.1:4433".to_string()),
        addrs,
        rm_addrs: vec![],
        status: vec![],
        trust_origin_ca_pem: None,
        skip_verification: true,
        session_file: None,
        perform_migration: false,
    }
}

fn common_args(server_addresses: Vec<SocketAddr>) -> CommonArgs {
    CommonArgs {
        server_addresses,
        alpns: vec![],
        idle_timeout: 30000,
        max_data: 10000000,
        max_stream_data: 1000000,
        max_streams_bidi: 100,
        max_streams_uni: 101,
        max_window: 25165824,
        max_stream_window: 16777216,
        max_active_cids: 2,
        enable_active_migration: false,
        multipath: true,
        no_grease: false,
        early_data: false,
        cc_algorithm: "cubic".to_string(),
        disable_hystart: false,
        initial_cwnd_packets: 10,
        dgrams_enabled: false,
        dump_packet_path: None,
        cpu_affinity: false,
        cpu_aff_cores: None,
    }
}

#[test]
fn ip_octets_are_in_network_order() {
    assert_eq!(v4(192, 0, 2, 7, 1).ip_octets(), vec![192, 0, 2, 7]);
    assert_eq!(
        v6(0x1234, 1).ip_octets(),
        vec![0x20, 0x01, 0x0d, 0xb8, 0, 0, 0, 0, 0, 0, 0, 0, 0, 0, 0x12, 0x34]
    );
}

#[test]
fn families_are_told_apart() {
    let four = v4(10, 0, 0, 1, 1);
    let six = v6(1, 1);
    assert!(four.is_ipv4() && !four.is_ipv6());
    assert!(six.is_ipv6() && !six.is_ipv4());
    assert!(!four.same_family(&six));
    assert!(six.same_family(&v6(2, 9)));
    let addrs = vec![four, six, v4(10, 0, 0, 2, 1)];
    assert_eq!(pick_family(&addrs, &v4(1, 1, 1, 1, 1)), vec![four, v4(10, 0, 0, 2, 1)]);
    assert_eq!(pick_family(&addrs, &v6(9, 9)), vec![six]);
}

#[test]
fn wildcard_address_is_of_the_family() {
    assert_eq!(SocketAddr::unspecified_for(&v4(1, 2, 3, 4, 5)), v4(0, 0, 0, 0, 0));
    match SocketAddr::unspecified_for(&v6(1, 5)) {
        SocketAddr::V6 { ip, port, .. } => {
            assert_eq!(ip.s0, 0);
            assert_eq!(ip.s7, 0);
            assert_eq!(port, 0);
        }
        SocketAddr::V4 { .. } => panic!("wrong family"),
    }
}

#[test]
fn every_occurrence_is_dropped() {
    let one = v4(10, 0, 0, 1, 1);
    let two = v4(10, 0, 0, 1, 2);
    assert_eq!(drop_address(&vec![one, two, one], &one), vec![two]);
    assert_eq!(drop_address(&vec![], &one), vec![]);
}

#[test]
fn usable_addresses_start_with_the_local_one() {
    let one = v4(10, 0, 0, 1, 1);
    let two = v4(10, 0, 0, 1, 2);
    let three = v4(10, 0, 0, 1, 3);
    let addrs = usable_addresses(&two, &vec![one, two, three]);
    assert_eq!(addrs, vec![two, one, three]);
    assert!(exceeds_cid_limit(&addrs, 2));
    assert!(!exceeds_cid_limit(&addrs, 3));
}

#[test]
fn addresses_are_paired_by_position() {
    let pairs = pair_addresses(
        &vec![v4(1, 0, 0, 1, 1), v4(1, 0, 0, 2, 2)],
        &vec![v4(2, 0, 0, 1, 1), v4(2, 0, 0, 2, 2), v4(2, 0, 0, 3, 3)],
    );
    assert_eq!(
        pairs,
        vec![
            (v4(1, 0, 0, 1, 1), v4(2, 0, 0, 1, 1)),
            (v4(1, 0, 0, 2, 2), v4(2, 0, 0, 2, 2))
        ]
    );
}

#[test]
fn two_paths_to_two_server_addresses() {
    let connect_to = v4(127, 0, 0, 1, 4433);
    let args = client_args(vec![v4(127, 0, 0, 1, 6788), v4(127, 0, 0, 1, 6789)]);
    let common = common_args(vec![v4(127, 0, 0, 2, 3344)]);
    assert!(can_prepare_addresses(&connect_to, &args, &common));
    let (tuples, local) = multicore_prepare_addresses(&connect_to, &args, &common);
    assert_eq!(local, v4(127, 0, 0, 1, 6788));
    assert_eq!(
        tuples,
        vec![
            (v4(127, 0, 0, 1, 6788), connect_to),
            (v4(127, 0, 0, 1, 6789), v4(127, 0, 0, 2, 3344))
        ]
    );
    assert_eq!(first_core(4), 3);
    assert_eq!(
        plan_paths(&tuples, &local, 4),
        Some(vec![PathPlan {
            local: v4(127, 0, 0, 1, 6789),
            peer: v4(127, 0, 0, 2, 3344),
            core: 2,
        }])
    );
    assert_eq!(plan_paths(&tuples, &local, 1), None);
    assert_eq!(plan_paths(&tuples, &local, 0), None);
}

#[test]
fn addresses_that_do_not_pair_up_are_refused() {
    let connect_to = v4(127, 0, 0, 1, 4433);
    let common = common_args(vec![v4(127, 0, 0, 2, 3344)]);
    let too_few = client_args(vec![v4(127, 0, 0, 1, 6788)]);
    assert!(!can_prepare_addresses(&connect_to, &too_few, &common));
    let none = client_args(vec![]);
    assert!(!can_prepare_addresses(&connect_to, &none, &common));
    let no_peer = client_args(vec![v4(127, 0, 0, 1, 1), v4(127, 0, 0, 1, 2)]);
    let six = common_args(vec![v6(7, 7)]);
    assert!(!can_prepare_addresses(&connect_to, &no_peer, &six));
    assert!(!can_plan_sockets(&connect_to, &no_peer, &six));
}

#[test]
fn system_chooses_the_address_where_none_is_of_the_family() {
    let connect_to = v4(127, 0, 0, 1, 4433);
    let other_family = client_args(vec![v6(1, 1), v6(2, 2)]);
    let common = common_args(vec![v4(127, 0, 0, 2, 3344)]);
    assert!(can_prepare_addresses(&connect_to, &other_family, &common));
    assert_eq!(
        multicore_prepare_addresses(&connect_to, &other_family, &common),
        (vec![], v4(0, 0, 0, 0, 0))
    );
    assert!(!can_plan_sockets(&connect_to, &other_family, &common));
    let one = client_args(vec![v6(1, 1)]);
    let none = common_args(vec![]);
    assert!(can_prepare_addresses(&connect_to, &one, &none));
    assert_eq!(
        multicore_prepare_addresses(&connect_to, &one, &none),
        (vec![], v4(0, 0, 0, 0, 0))
    );
    let four = client_args(vec![v4(127, 0, 0, 1, 1)]);
    let (tuples, local) = multicore_prepare_addresses(&v6(7, 7), &four, &none);
    assert_eq!(tuples, vec![]);
    assert_eq!(local, SocketAddr::unspecified_for(&v6(7, 7)));
}

#[test]
fn address_connected_to_is_not_planned_twice() {
    let connect_to = v4(127, 0, 0, 1, 4433);
    let args = client_args(vec![
        v4(127, 0, 0, 1, 1),
        v4(127, 0, 0, 1, 2),
        v6(3, 3),
    ]);
    let common = common_args(vec![connect_to, v4(127, 0, 0, 2, 3344)]);
    assert!(can_plan_sockets(&connect_to, &args, &common));
    assert_eq!(
        plan_sockets(&connect_to, &args, &common),
        vec![
            (v4(127, 0, 0, 1, 1), connect_to),
            (v4(127, 0, 0, 1, 2), v4(127, 0, 0, 2, 3344))
        ]
    );
}

#[test]
fn sockets_are_found_by_token_and_address() {
    let plan = vec![
        (v4(127, 0, 0, 1, 0), v4(127, 0, 0, 1, 4433)),
        (v4(127, 0, 0, 1, 0), v4(127, 0, 0, 2, 3344)),
    ];
    let bound = vec![v4(127, 0, 0, 1, 5001), v4(127, 0, 0, 1, 5002)];
    let table = create_sockets(&bound, &plan);
    assert_eq!(table.token_of(&bound[0]), Some(0));
    assert_eq!(table.token_of(&bound[1]), Some(1));
    assert_eq!(table.token_of(&plan[0].0), None);
    assert_eq!(table.socket_of(1), Some(1));
    assert_eq!(table.socket_of(2), None);
    assert_eq!(table.peer_of(0), Some(plan[0].1));
    assert_eq!(table.peer_of(5), None);
    assert_eq!(table.peer_from(&bound[0]), Some(plan[0].1));
    assert_eq!(table.peer_from(&bound[1]), Some(plan[1].1));
    assert_eq!(table.peer_from(&v4(9, 9, 9, 9, 9)), None);
    assert_eq!(table.sources(), bound);
    assert_eq!(
        table.paths_from(&vec![bound[1], bound[0]]),
        Some(vec![(bound[1], plan[1].1), (bound[0], plan[0].1)])
    );
    assert_eq!(table.paths_from(&vec![bound[0], plan[0].0]), None);
}

#[test]
fn paths_lead_to_one_peer() {
    let peer = v4(127, 0, 0, 1, 4433);
    let addrs = vec![v4(1, 0, 0, 1, 1), v4(1, 0, 0, 2, 2)];
    assert_eq!(paths_to(&addrs, &peer), vec![(addrs[0], peer), (addrs[1], peer)]);
    assert_eq!(pick_first(&vec![v6(1, 1), addrs[1], addrs[0]], &peer), addrs[1]);
    assert_eq!(pick_first(&vec![v6(1, 1)], &peer), v4(0, 0, 0, 0, 0));
}

#[test]
fn later_socket_takes_the_address_over() {
    let mut table = SocketTable::new();
    let local = v4(127, 0, 0, 1, 5001);
    assert_eq!(table.register(10, local, v4(1, 1, 1, 1, 1)), 0);
    assert_eq!(table.register(11, v4(127, 0, 0, 1, 5002), v4(2, 2, 2, 2, 2)), 1);
    assert_eq!(table.register(12, local, v4(3, 3, 3, 3, 3)), 2);
    assert_eq!(table.token_of(&local), Some(2));
    assert_eq!(table.socket_of(0), Some(10));
    assert_eq!(table.socket_of(2), Some(12));
    assert_eq!(table.peer_from(&local), Some(v4(3, 3, 3, 3, 3)));
    assert_eq!(table.sources().len(), 2);
}

#[test]
fn server_address_is_needed() {
    let mut args = client_args(vec![]);
    match server_address(&args) {
        Ok(text) => assert_eq!(text, "127.0.0.1:4433"),
        Err(_) => panic!("there is an address"),
    }
    args.connect_to = None;
    match server_address(&args) {
        Err(ClientError::Other(message)) => {
            assert_eq!(message, "Can't find the address to connect to")
        }
        _ => panic!("there is no address"),
    }
}

#[test]
fn client_and_server_settings() {
    let mut args = client_args(vec![]);
    let mut common = common_args(vec![]);
    let client = client_settings(&args, &common, true);
    assert_eq!(client.version, Some(1));
    assert_eq!(client.application_protos, &common.alpns);
    assert_eq!(client.cc_algorithm, &common.cc_algorithm);
    assert_eq!(client.peer_verification, PeerVerification::Verify(false));
    assert_eq!(client.max_idle_timeout, 30000);
    assert_eq!(client.max_recv_udp_payload_size, 1350);
    assert_eq!(client.max_send_udp_payload_size, 1350);
    assert_eq!(client.initial_max_data, 10000000);
    assert_eq!(client.initial_max_stream_data_uni, 1000000);
    assert_eq!(client.initial_max_streams_bidi, 100);
    assert_eq!(client.initial_max_streams_uni, 101);
    assert!(client.disable_active_migration);
    assert!(client.multipath && client.log_keys);
    assert_eq!(client.active_connection_id_limit, 2);
    assert_eq!(client.dgram_queues, None);
    assert_eq!(client.initial_congestion_window_packets, None);
    assert_eq!(client.pacing, None);
    args.trust_origin_ca_pem = Some("ca.pem".to_string());
    common.dgrams_enabled = true;
    let client = client_settings(&args, &common, false);
    assert_eq!(client.peer_verification, PeerVerification::TrustFile);
    assert_eq!(client.dgram_queues, Some(DgramQueues { recv: 1000, send: 1000 }));
    let server = server_settings(&common, true, false);
    assert_eq!(server.version, None);
    assert_eq!(server.peer_verification, PeerVerification::Default);
    assert_eq!(server.initial_congestion_window_packets, Some(10));
    assert_eq!(server.pacing, Some(true));
    assert_eq!(server.max_stream_window, client.max_stream_window);
    assert_eq!(server.max_connection_window, 25165824);
}

#[test]
fn dumps_are_numbered_files() {
    assert_eq!(packet_path("/tmp/dump", 0), "/tmp/dump/0.pkt");
    assert_eq!(packet_path("d", 10), "d/10.pkt");
    assert_eq!(packet_path("d", 2147483646), "d/2147483646.pkt");
}
