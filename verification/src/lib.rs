//! Server side of a reverse tunnel: wire frames, the two-keyed table of control
//! channels, the visitor/data-channel rendezvous pool and the decisions of the
//! handshake, control-channel and accept loops, each with a proved contract.

pub mod channels;
pub mod config;
pub mod control_channel;
pub mod handshake;
pub mod multi_map;
pub mod pool;
pub mod protocol;
pub mod retry;
pub mod server;
