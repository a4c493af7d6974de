//! A deterministic state-transition core for a signed-transaction ledger.
//!
//! Transactions (user registration and channel messages) carry an Ed25519
//! signature over a canonical byte encoding of their payload. The [`state`]
//! module validates authenticity and business preconditions and applies
//! accepted transactions to the shared state; the [`tx`] module defines the
//! transaction variants and their canonical unsigned encoding.

pub mod laws;
pub mod sig;
pub mod state;
pub mod tx;
