//! The supervisor of agent subprocesses, verified.
//!
//! Each workspace is a project root paired with one long-lived agent
//! subprocess that speaks newline-delimited JSON over its standard streams.
//! This library holds the rules of that arrangement: how messages are
//! framed and classified, how replies find the calls that wait for them,
//! how a session gets from its start to its end, and how workspaces and
//! their git worktrees come and go in the store. Every function has a
//! contract, and Verus proves each body against it. The few functions that
//! call into other crates are the exception: their comments say what is
//! taken on trust of the call.
//!
//! Subprocesses, files and the clock are not in here. The library takes
//! what was read from them as plain values and says what is to be done.

pub mod calendar;
pub mod codec;
pub mod command;
pub mod git;
pub mod handshake;
pub mod ignore;
pub mod json;
pub mod lifecycle;
pub mod listing;
pub mod naming;
pub mod pending;
pub mod reader;
pub mod requests;
pub mod session;
pub mod sessions;
pub mod store;
pub mod text;
pub mod usage;
pub mod workspace;
