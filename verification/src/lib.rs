//! Remote storage abstraction layer.
//!
//! A client application browses remote file hierarchies served by one of two
//! transports: a raw SFTP filesystem over an authenticated SSH session, or a
//! Git/Git-LFS working tree on a remote host driven entirely through shell
//! commands. This crate holds the verified core of that layer: the shared
//! value types, the MIME mapping, shell quoting, listing-text parsing and
//! sorting, the repository bootstrap state machine, thumbnail geometry, and
//! the connection lifecycle. Network transport itself (TCP, the SSH
//! handshake, command execution) is performed by the embedding application,
//! which feeds the captured results back into the verified functions here.

pub mod commands;
pub mod ec2;
pub mod github;
pub mod listing;
pub mod quote;
pub mod ssh;
pub mod storage;
pub mod text;
pub mod thumbnail;
pub mod utils;
