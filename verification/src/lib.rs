//! Delta replication between nodes of a distributed entity store.
//!
//! The library is the verified core of the protocol: the delta-record
//! codec, export routing, the import applier with loop prevention, the
//! master synchronization engine's decision logic, and node identity /
//! topology bootstrap.  Durable queues, entity storage and the transport
//! are external collaborators; the library models their state where its
//! guarantees speak about it, and unverified glue drives the real ones.

pub mod applier;
pub mod codec;
pub mod entity;
pub mod kvstore;
pub mod message;
pub mod queue;
pub mod router;
pub mod status;
pub mod sync;
pub mod topology;
