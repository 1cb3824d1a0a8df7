//! What the client and the server are told on the command line.

use crate::addr::SocketAddr;
use vstd::prelude::*;

verus! {

/// A path that is to be abandoned once `after_nanos` have gone by.
#[derive(Clone, Copy, Debug, PartialEq, Eq, Structural)]
pub struct PathRemoval {
    pub after_nanos: u128,
    pub addr: SocketAddr,
}

/// A path status that is to be advertised once `after_nanos` have gone by.
#[derive(Clone, Copy, Debug, PartialEq, Eq, Structural)]
pub struct PathStatusChange {
    pub after_nanos: u128,
    pub addr: SocketAddr,
    pub available: bool,
}

/// Arguments of the client.
#[derive(Debug)]
pub struct ClientArgs {
    /// Version of QUIC to start with.
    pub version: u32,
    /// Address of the server, if it is given.
    pub connect_to: Option<String>,
    /// Local addresses, one for each path.
    pub addrs: Vec<SocketAddr>,
    pub rm_addrs: Vec<PathRemoval>,
    pub status: Vec<PathStatusChange>,
    /// File of certificates to trust.
    pub trust_origin_ca_pem: Option<String>,
    pub skip_verification: bool,
    /// File that the session is loaded from and saved to.
    pub session_file: Option<String>,
    pub perform_migration: bool,
}

/// Arguments of both the client and the server.
#[derive(Debug)]
pub struct CommonArgs {
    /// Addresses of the server besides the one that is connected to.
    pub server_addresses: Vec<SocketAddr>,
    pub alpns: Vec<Vec<u8>>,
    pub idle_timeout: u64,
    pub max_data: u64,
    pub max_stream_data: u64,
    pub max_streams_bidi: u64,
    pub max_streams_uni: u64,
    pub max_window: u64,
    pub max_stream_window: u64,
    pub max_active_cids: u64,
    pub enable_active_migration: bool,
    pub multipath: bool,
    pub no_grease: bool,
    pub early_data: bool,
    pub cc_algorithm: String,
    pub disable_hystart: bool,
    pub initial_cwnd_packets: u64,
    pub dgrams_enabled: bool,
    /// Directory that received packets are written to.
    pub dump_packet_path: Option<String>,
    /// Pin the threads of the client to cores.
    pub cpu_affinity: bool,
    /// Cores that the threads of the server are pinned to.
    pub cpu_aff_cores: Option<Vec<usize>>,
}

/// Arguments of the server.
#[derive(Debug)]
pub struct ServerArgs {
    pub listen: String,
    pub cert: String,
    pub key: String,
    pub no_retry: bool,
    pub disable_gso: bool,
    pub disable_pacing: bool,
    /// Bytes to transfer over all paths together.
    pub transfer_size: Option<usize>,
    /// Nanoseconds after which the transfer ends.
    pub transfer_time: Option<u128>,
}

/// Why the client gives up.
#[derive(Debug)]
pub enum ClientError {
    HandshakeFail,
    HttpFail,
    Other(String),
}

/// The text of the server's address. Without one the client gives up.
pub fn server_address(args: &ClientArgs) -> (r: Result<&String, ClientError>)
    ensures
        match args.connect_to {
            Some(text) => r matches Ok(t) && *t == text,
            None => r matches Err(ClientError::Other(message)) && message@
                == "Can't find the address to connect to"@,
        },
{
    match &args.connect_to {
        Some(text) => Ok(text),
        None => Err(ClientError::Other("Can't find the address to connect to".to_owned())),
    }
}

} // verus!
