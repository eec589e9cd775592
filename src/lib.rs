//! Message routing between an application, a peer-to-peer transport and an RPC
//! service, keyed by 32-byte group identifiers.

pub mod error;
pub mod group_id;
pub mod registry;
pub mod layer;
pub mod message;
pub mod inbound;
pub mod outbound;
