//! Wire codec for a small slice of a log broker's binary protocol: request
//! decoding, response encoding, and decoding of the cluster metadata log.
pub mod wire;
pub mod common;
pub mod requests;
pub mod metadata_log;
pub mod responses;
