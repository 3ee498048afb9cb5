//! On-demand, secured access to remote relational databases, optionally
//! tunneled through SSH.  The library holds the orchestration core: named
//! connection descriptors, the cache of active sessions, SSH tunnel
//! bookkeeping with a fixed local port range, and the known-hosts
//! trust-verification algorithm.  All I/O (files, sockets, the SSH and
//! database protocols themselves) stays outside; the functions here decide,
//! given plain values, what those collaborators must do next.

pub mod config;
pub mod connection;
pub mod errors;
pub mod ffi;
pub mod known_hosts;
pub mod meta_commands;
pub mod sql_comments;
pub mod ssh_config;
pub mod text;
pub mod tunnel;
pub mod workspace;
