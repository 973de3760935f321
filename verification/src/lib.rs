//! The core of a controller for a monitoring agent.
//!
//! - [`config`]: the bootstrap configuration and its merge, and the registry
//!   of connections with what adds to it and removes from it.
//! - [`format`]: the configuration file and the registry file as JSON
//!   documents, read and written.
//! - [`json`]: JSON documents, with `serde_json` behind them.
//! - [`dispatch`]: the steps of one run, from the files on disk to the
//!   outcome.
//! - [`daemon`]: the daemon, which ends with the transport that ends first.
//!
//! Nothing here touches a file, a socket or a thread: the caller reads and
//! writes, and hands over what it found.

pub mod config;
pub mod daemon;
pub mod dispatch;
pub mod format;
pub mod json;
mod vecs;
