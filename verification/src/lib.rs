//! Decision logic of a QUIC throughput tester with multipath support.
//!
//! The crate holds the parts of the tool that decide: how an inbound datagram
//! is classified, which path is scheduled next, what the test protocol does on
//! each event, how pending datagrams are buffered per socket, and when timers
//! fire. Sockets, the QUIC connection itself and the terminal stay with the
//! caller, which feeds events in and carries the returned actions out.
//!
//! Points in time are readings of one clock of the caller's, as spans since
//! an origin of its choosing.

pub mod time;
pub mod bytes;
pub mod text;
pub mod addr;
pub mod demux;
pub mod path;
pub mod updater;
pub mod retry;
pub mod connid;
pub mod registry;
pub mod admission;
pub mod protocol;
pub mod socket;
pub mod sockets;
pub mod scheduler;
pub mod cli;
pub mod config;
pub mod common;
pub mod client;
pub mod server;
pub mod ui;
