//! Verified core of a REST gateway that fronts a single stateful
//! instant-messaging automation backend.
//!
//! The backend itself (RPC transport, message capture) is an external
//! collaborator; this crate verifies the gateway logic around it: the uniform
//! response envelope, the attachment retrieval state machine with its
//! attempt-counted timeout, the dynamic row marshaler that turns type-tagged
//! raw column bytes into typed values, room-member filtering, the route
//! table, and content-type inference for streamed files.

pub mod envelope;
pub mod marshal;
pub mod media;
pub mod members;
pub mod pipeline;
pub mod requests;
pub mod routes;
