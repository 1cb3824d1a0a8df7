//! Settings of a QUIC connection.

use crate::args::{ClientArgs, CommonArgs};
use crate::transport::MAX_DATAGRAM_SIZE;
use vstd::prelude::*;

verus! {

/// Length of each of the two datagram queues.
pub const DGRAM_QUEUE_LEN: usize = 1000;

/// How the certificate of the peer is checked.
#[derive(Clone, Copy, Debug, PartialEq, Eq, Structural)]
pub enum PeerVerification {
    /// As the QUIC stack does by default.
    Default,
    /// Against the certificates of the given file.
    TrustFile,
    /// Only if the flag is set.
    Verify(bool),
}

/// Lengths of the datagram queues.
#[derive(Clone, Copy, Debug, PartialEq, Eq, Structural)]
pub struct DgramQueues {
    pub recv: usize,
    pub send: usize,
}

/// The values that a QUIC connection is configured with.
#[derive(Clone, Copy, Debug)]
pub struct ConfigSettings<'a> {
    /// The version that connections start with. The latest one, if none is set.
    pub version: Option<u32>,
    pub peer_verification: PeerVerification,
    /// The application protocols, the preferred one first.
    pub application_protos: &'a Vec<Vec<u8>>,
    pub max_idle_timeout: u64,
    pub max_recv_udp_payload_size: usize,
    pub max_send_udp_payload_size: usize,
    pub initial_max_data: u64,
    pub initial_max_stream_data_bidi_local: u64,
    pub initial_max_stream_data_bidi_remote: u64,
    pub initial_max_stream_data_uni: u64,
    pub initial_max_streams_bidi: u64,
    pub initial_max_streams_uni: u64,
    pub disable_active_migration: bool,
    pub active_connection_id_limit: u64,
    pub multipath: bool,
    pub max_connection_window: u64,
    pub max_stream_window: u64,
    /// Write the keys to the key log.
    pub log_keys: bool,
    /// Turn greasing off.
    pub disable_grease: bool,
    pub early_data: bool,
    /// The name of the congestion control.
    pub cc_algorithm: &'a String,
    /// Turn HyStart++ off.
    pub disable_hystart: bool,
    /// Set where datagrams are enabled.
    pub dgram_queues: Option<DgramQueues>,
    /// Set on the server alone.
    pub initial_congestion_window_packets: Option<usize>,
    /// Set on the server alone.
    pub pacing: Option<bool>,
}

/// The settings that client and server have in common.
pub open spec fn common_settings<'a>(common: &'a CommonArgs, log_keys: bool) -> ConfigSettings<
    'a,
> {
    ConfigSettings {
        version: None,
        peer_verification: PeerVerification::Default,
        application_protos: &common.alpns,
        max_idle_timeout: common.idle_timeout,
        max_recv_udp_payload_size: MAX_DATAGRAM_SIZE,
        max_send_udp_payload_size: MAX_DATAGRAM_SIZE,
        initial_max_data: common.max_data,
        initial_max_stream_data_bidi_local: common.max_stream_data,
        initial_max_stream_data_bidi_remote: common.max_stream_data,
        initial_max_stream_data_uni: common.max_stream_data,
        initial_max_streams_bidi: common.max_streams_bidi,
        initial_max_streams_uni: common.max_streams_uni,
        disable_active_migration: !common.enable_active_migration,
        active_connection_id_limit: common.max_active_cids,
        multipath: common.multipath,
        max_connection_window: common.max_window,
        max_stream_window: common.max_stream_window,
        log_keys,
        disable_grease: common.no_grease,
        early_data: common.early_data,
        cc_algorithm: &common.cc_algorithm,
        disable_hystart: common.disable_hystart,
        dgram_queues: if common.dgrams_enabled {
            Some(DgramQueues { recv: DGRAM_QUEUE_LEN, send: DGRAM_QUEUE_LEN })
        } else {
            None
        },
        initial_congestion_window_packets: None,
        pacing: None,
    }
}

fn shared_settings<'a>(common: &'a CommonArgs, log_keys: bool) -> (r: ConfigSettings<'a>)
    ensures
        r == common_settings(common, log_keys),
{
    ConfigSettings {
        version: None,
        peer_verification: PeerVerification::Default,
        application_protos: &common.alpns,
        max_idle_timeout: common.idle_timeout,
        max_recv_udp_payload_size: MAX_DATAGRAM_SIZE,
        max_send_udp_payload_size: MAX_DATAGRAM_SIZE,
        initial_max_data: common.max_data,
        initial_max_stream_data_bidi_local: common.max_stream_data,
        initial_max_stream_data_bidi_remote: common.max_stream_data,
        initial_max_stream_data_uni: common.max_stream_data,
        initial_max_streams_bidi: common.max_streams_bidi,
        initial_max_streams_uni: common.max_streams_uni,
        disable_active_migration: !common.enable_active_migration,
        active_connection_id_limit: common.max_active_cids,
        multipath: common.multipath,
        max_connection_window: common.max_window,
        max_stream_window: common.max_stream_window,
        log_keys,
        disable_grease: common.no_grease,
        early_data: common.early_data,
        cc_algorithm: &common.cc_algorithm,
        disable_hystart: common.disable_hystart,
        dgram_queues: if common.dgrams_enabled {
            Some(DgramQueues { recv: DGRAM_QUEUE_LEN, send: DGRAM_QUEUE_LEN })
        } else {
            None
        },
        initial_congestion_window_packets: None,
        pacing: None,
    }
}

/// What a client is configured with besides: the version it starts with, and how
/// it checks the certificate of the server.
pub open spec fn client_config<'a>(
    args: &ClientArgs,
    common: &'a CommonArgs,
    log_keys: bool,
) -> ConfigSettings<'a> {
    ConfigSettings {
        version: Some(args.version),
        peer_verification: if args.trust_origin_ca_pem is Some {
            PeerVerification::TrustFile
        } else {
            PeerVerification::Verify(!args.skip_verification)
        },
        ..common_settings(common, log_keys)
    }
}

/// What a server is configured with besides: how fast it may start, and whether
/// it paces.
pub open spec fn server_config<'a>(
    common: &'a CommonArgs,
    pacing: bool,
    log_keys: bool,
) -> ConfigSettings<'a> {
    ConfigSettings {
        initial_congestion_window_packets: Some(common.initial_cwnd_packets as usize),
        pacing: Some(pacing),
        ..common_settings(common, log_keys)
    }
}

/// The settings of a client. `log_keys` tells whether there is a key log.
pub fn client_settings<'a>(args: &ClientArgs, common: &'a CommonArgs, log_keys: bool) -> (r:
    ConfigSettings<'a>)
    ensures
        r == client_config(args, common, log_keys),
{
    let mut settings = shared_settings(common, log_keys);
    settings.version = Some(args.version);
    settings.peer_verification = if args.trust_origin_ca_pem.is_some() {
        PeerVerification::TrustFile
    } else {
        PeerVerification::Verify(!args.skip_verification)
    };
    settings
}

/// The settings of a server. `pacing` tells whether the sockets can pace.
pub fn server_settings<'a>(common: &'a CommonArgs, pacing: bool, log_keys: bool) -> (r:
    ConfigSettings<'a>)
    requires
        common.initial_cwnd_packets <= usize::MAX,
    ensures
        r == server_config(common, pacing, log_keys),
{
    let mut settings = shared_settings(common, log_keys);
    settings.initial_congestion_window_packets = Some(common.initial_cwnd_packets as usize);
    settings.pacing = Some(pacing);
    settings
}

/// A client and a server of the same arguments differ in nothing but the version
/// they start with, how they check certificates, how fast they start and whether
/// they pace.
pub proof fn both_ends_agree(
    args: &ClientArgs,
    common: &CommonArgs,
    pacing: bool,
    log_keys: bool,
)
    ensures
        client_config(args, common, log_keys) == (ConfigSettings {
            version: Some(args.version),
            peer_verification: client_config(args, common, log_keys).peer_verification,
            initial_congestion_window_packets: None,
            pacing: None,
            ..server_config(common, pacing, log_keys)
        }),
{
}

/// The settings are what the arguments say. What they switch off is switched off, and what
/// one argument says of several limits holds of each.
pub proof fn settings_follow_the_arguments(
    args: &ClientArgs,
    common: &CommonArgs,
    pacing: bool,
    log_keys: bool,
)
    requires
        common.initial_cwnd_packets <= usize::MAX,
    ensures
        ({
            let client = client_config(args, common, log_keys);
            let server = server_config(common, pacing, log_keys);
            &&& forall|s: ConfigSettings|
                s == client || s == server ==> {
                    &&& (#[trigger] s.application_protos) == common.alpns
                    &&& s.cc_algorithm == common.cc_algorithm
                    &&& s.max_idle_timeout == common.idle_timeout
                    &&& s.max_recv_udp_payload_size == 1350
                    &&& s.max_send_udp_payload_size == 1350
                    &&& s.initial_max_data == common.max_data
                    &&& s.initial_max_stream_data_bidi_local == common.max_stream_data
                    &&& s.initial_max_stream_data_bidi_remote == common.max_stream_data
                    &&& s.initial_max_stream_data_uni == common.max_stream_data
                    &&& s.initial_max_streams_bidi == common.max_streams_bidi
                    &&& s.initial_max_streams_uni == common.max_streams_uni
                    &&& s.disable_active_migration <==> !common.enable_active_migration
                    &&& s.active_connection_id_limit == common.max_active_cids
                    &&& s.multipath == common.multipath
                    &&& s.max_connection_window == common.max_window
                    &&& s.max_stream_window == common.max_stream_window
                    &&& s.log_keys == log_keys
                    &&& s.disable_grease == common.no_grease
                    &&& s.early_data == common.early_data
                    &&& s.disable_hystart == common.disable_hystart
                    &&& s.dgram_queues is Some <==> common.dgrams_enabled
                    &&& s.dgram_queues matches Some(queues) ==> queues.recv == 1000 && queues.send
                        == 1000
                }
            &&& client.version == Some(args.version)
            &&& server.version is None
            // A client that trusts a file checks against it. Else it checks unless told not to.
            &&& client.peer_verification is TrustFile <==> args.trust_origin_ca_pem is Some
            &&& args.trust_origin_ca_pem is None ==> client.peer_verification
                == PeerVerification::Verify(!args.skip_verification)
            &&& server.peer_verification is Default
            &&& client.initial_congestion_window_packets is None
            &&& client.pacing is None
            &&& server.initial_congestion_window_packets is Some
            &&& server.initial_congestion_window_packets->0 == common.initial_cwnd_packets
            &&& server.pacing == Some(pacing)
        }),
{
}

} // verus!
