//! Core of a DNS lookup service: per-client admission control by token
//! bucket, and the mapping of a name resolution outcome into the uniform
//! response envelope. Networking, the resolver and serialization live with
//! the caller; everything here works on plain values.
//!
//! - [`admission`]: the rate limit, the buckets and the controller.
//! - [`bucket_laws`], [`client_laws`]: what is proved of the controller.
//! - [`envelope`], [`handler`]: the response envelope and the answers.
//! - [`lifecycle`]: the life of a request as a state machine.
//! - [`address`]: addresses and the client identity derived from them.

pub mod address;
pub mod admission;
pub mod bucket_laws;
pub mod client_laws;
pub mod envelope;
pub mod handler;
pub mod lifecycle;
