//! Protocol state machines of an SFTP filesystem bridge: the server's sandboxed
//! session layer and the client's userspace-filesystem adapter.
pub mod path;
pub mod vroot;
pub mod inodes;
pub mod codes;
pub mod handles;
pub mod client;
pub mod audit;
pub mod listing;
pub mod session;
pub mod auth;
pub mod config;
