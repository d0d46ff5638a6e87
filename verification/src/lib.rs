//! Verified core of a single-writer, quorum-replicated write-ahead log.
//!
//! Every module holds one part of the log's logic as plain data and total
//! functions with contracts. Storage, clocks and task scheduling stay with the
//! caller: it performs the actions that the functions here decide on and hands
//! the observations back.

pub mod archive;
pub mod args;
pub mod auth;
pub mod bench;
pub mod bursts;
pub mod capacity;
pub mod catalog;
pub mod config;
pub mod directory;
pub mod engine;
pub mod error;
pub mod handle;
pub mod held;
pub mod json;
pub mod laws;
pub mod listing;
pub mod live;
pub mod maintenance;
pub mod pack;
pub mod pending;
pub mod permits;
pub mod pipeline;
pub mod prepare;
pub mod probe;
pub mod queue;
pub mod rapid;
pub mod record;
pub mod redirect;
pub mod requests;
pub mod rotation;
pub mod scan;
pub mod seqno;
pub mod session;
pub mod state;
pub mod status;
pub mod store;
pub mod suite;
pub mod table;
pub mod tasks;
pub mod text;
pub mod time;
pub mod transaction;
pub mod transport;
pub mod tree;
pub mod turn;
pub mod workload;
