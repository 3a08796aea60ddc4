//! Republishes a transit event feed into a message broker, alongside a
//! consistency stream that records an advancing frontier over the data.
//!
//! The library holds the decisions: the retry schedule used while a new
//! topic converges, the checks on broker metadata, the logical clock with
//! the order between a data record and its consistency record, and the
//! parsing of feed lines. Talking to the broker is left to the caller.

pub mod backoff;
pub mod provision;
pub mod sequencer;
pub mod config;
pub mod events;
