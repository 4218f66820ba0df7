//! A STUN implementation.
//!
//! Implements the message codec of
//! [RFC8489: Session Traversal Utilities for NAT (STUN)](https://datatracker.ietf.org/doc/html/rfc8489):
//! the encoder and decoder of messages, the attributes, and the integrity
//! and fingerprint checks over the wire image of a message.

pub mod message;
