//! A remote-signing agent: it holds a private signing key, receives
//! signing requests over an untrusted relay, asks a human operator for
//! approval, and returns signed results without ever exposing the key.
//!
//! The crate is organized leaf-first: `wire` frames the canonical envelope
//! text, `envelope` defines the request/response unit and proves that
//! decoding undoes encoding, `keys` holds the key custodian over trusted
//! cryptographic primitives, `codec` seals envelopes into signed relay
//! messages and back, `session` parses the connect-URI, and `dispatcher`
//! is the approval-gated state machine that drives one request at a time.

pub mod codec;
pub mod dispatcher;
pub mod envelope;
pub mod keys;
pub mod session;
pub mod wire;
