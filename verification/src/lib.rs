//! A local secret manager core: each account credential lives in one
//! independently encrypted file in a flat directory, named after the account.
//! The library holds the logic worth checking — the entry text format, the
//! password generator, the name resolver, and the per-command state machine —
//! while the process edges (terminal, filesystem, subprocesses) stay outside
//! and drive the state machine through plain values.

pub mod args;
pub mod config;
pub mod entry;
pub mod error;
pub mod gen;
pub mod order;
pub mod resolve;
mod rng;
pub mod store;
pub mod strutil;
