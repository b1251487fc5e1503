//! A verified codec and dispatcher for a Kafka-compatible binary RPC
//! protocol: wire primitives (big-endian integers, unsigned varints,
//! nullable and compact strings, compact arrays, tagged fields), typed
//! request and response models, a version registry, and the handler that
//! turns a decoded request into an encoded response.

pub mod api;
pub mod codec;
pub mod errors;
pub mod handlers;
pub mod request;
pub mod response;
pub mod topic_partitions;
pub mod types;
pub mod wire;
