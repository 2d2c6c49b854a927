//! Decision logic of a local preview server: the live-reload broadcast
//! signal and its subscriber sessions, the server's lifecycle and port
//! search, and the mapping of request paths to embedded assets or to files
//! inside a project directory.
//!
//! Sockets, threads, locks and file reads belong to the embedding program,
//! which asks this library what to do at each step and hands back what
//! happened.

pub mod reload;
pub mod session;
pub mod paths;
pub mod reply;
pub mod assets;
pub mod routing;
pub mod server;
