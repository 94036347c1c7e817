//! Core logic of a UDP benchmark: the probe packet format, traffic
//! counters, command-line parsing and the decisions taken by the sending,
//! receiving and echoing loops.

pub mod common;
pub mod config;
pub mod echo;
pub mod probe;
pub mod stream_statics;
