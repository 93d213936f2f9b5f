//! A verified core for a small Tor-style client: the binary codec and
//! staleness policy of the directory-server cache, the consensus parser,
//! the bounded retry plan of the refresh loop, the background scheduler's
//! state machine, and the outcome resolution of the channel-establishment
//! race. All I/O (HTTP fetch, the embedded store, files, threads) lives
//! outside this crate and hands plain values in and out.

pub mod channel;
pub mod circuit;
pub mod config;
pub mod ds_load;
pub mod error;
pub mod linkspec;
pub mod logger;
pub mod scheduler;
pub mod ser;
pub mod text;
