//! Verified core of a lightweight process supervisor.
//!
//! A daemon owns a registry of named child processes, exposes a
//! line-oriented control protocol (start, stop, restart, status, tail,
//! send, ...), and periodically health-checks the registered instances.
//! This crate holds the decision logic of that supervisor: the command
//! dispatcher, the per-instance lifecycle state (spawn bookkeeping, the
//! stop-escalation ladder, the bounded log buffer) and the exact response
//! text of every command.  The surrounding process — sockets, pipes,
//! signals, clocks and the on-disk configuration format — is driven by an
//! unverified shell that performs each requested action and hands the
//! observed outcome back to the verified state machine.

pub mod config;
pub mod daemon;
pub mod server;
pub mod text;
pub mod util;
