//! What a client is configured with.

pub mod options;
