//! Decision logic of a multicore multipath QUIC client and server.

pub mod addr;
pub mod args;
pub mod client;
pub mod config;
pub mod dump;
pub mod external;
pub mod initiate;
pub mod listener;
pub mod machine;
pub mod multicore_client;
pub mod multicore_client_new;
pub mod multicore_server;
pub mod path_events;
pub mod random;
pub mod schedule;
pub mod send_round;
pub mod sockets;
pub mod transport;
pub mod upkeep;

