//! Versioned message model and bidirectional schema adapter for the
//! "Credential Offer" message of a credential-exchange protocol.
//!
//! The crate holds the current-schema message with its step-wise builder,
//! the attachment codec that carries the offer payload under a base64
//! transfer encoding, the legacy message schema used by older agents, and
//! the adapter that converts between the two schemas in both directions.

pub mod a2a;
pub mod attachment;
pub mod base64;
pub mod credential_offer;
pub mod error;
pub mod json_text;
pub mod legacy;
pub mod preview;
pub mod thread;
