//! A verified core of a partitioned, log-structured message broker.
//!
//! Streams group topics, topics group partitions, and every partition is an
//! ordered log of messages with contiguous offsets.  Clients talk to the
//! broker through a length-prefixed binary protocol or a pipe-separated
//! textual form; both codecs live here, together with the permissioner that
//! gates every operation and the dispatcher that routes decoded commands to
//! the engine.

pub mod checksum;
pub mod cli;
pub mod consumer;
pub mod consumer_group;
pub mod dispatcher;
pub mod error;
pub mod get_consumer_offset;
pub mod get_topic;
pub mod identifier;
pub mod partition;
pub mod permissioner;
pub mod stream;
pub mod system;
pub mod text;
pub mod topic;
pub mod wire;
