//! What a receiver finds in a message that this codec encoded.

pub mod laws;
pub mod parts;
pub mod request;
pub mod summary;
