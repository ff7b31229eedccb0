//! A driver for a low-level TLS record engine.
//!
//! The driver owns the buffer of received, not yet processed ciphertext and
//! the buffer of encoded, not yet sent ciphertext, and decides what has to
//! happen next between a TLS engine and a byte transport. It performs no I/O
//! itself: each decision is handed out as an [`driver::Action`], and the
//! outcome of that action is handed back through the matching method.
pub mod error;
pub mod incoming;
pub mod outgoing;
pub mod driver;
pub mod engine;
pub mod request;
