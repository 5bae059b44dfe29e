//! portmanager: a port forwarder that bootstraps its agent over SSH.
//!
//! This library holds what the program decides and computes: which agent goes to
//! which remote and how, what travels between the agent and its in-namespace
//! helpers, what is discovered and forwarded, when the connection has to move.
//! Running commands, sockets and files are left to the caller, who performs what
//! the library asks for and reports what came of it.

pub mod text;
pub mod number;
pub mod order;
pub mod error;
pub mod command;
pub mod forward;
pub mod dial;
pub mod netns;
pub mod protocol;
pub mod pool;
pub mod deploy;
pub mod bootstrap;
pub mod agent;
pub mod discovery;
pub mod snapshot;
pub mod autoforward;
pub mod netwatch;
pub mod session;
pub mod laws;
