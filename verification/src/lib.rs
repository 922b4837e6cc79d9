//! Verified core of a smart-card identity reader service.
//!
//! The library covers the card's command/response protocol (status words and
//! response chaining), the legacy-encoding text decoder with its address
//! heuristics, field validation with a security classification, a token-bucket
//! rate limiter, authenticated field encryption, audit-event construction, and
//! the admission / broadcast gating logic.

pub mod apdu;
pub mod audit;
pub mod config;
pub mod crypto;
pub mod decoder;
pub mod encoding;
pub mod gate;
pub mod monitor;
pub mod rate_limiter;
pub mod text;
pub mod validation;
