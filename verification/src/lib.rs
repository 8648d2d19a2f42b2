//! A zero-knowledge substring proof core: arithmetization of the statement
//! "a document with a known SHA-256 commitment contains a disclosed
//! substring" into an execution trace over the Goldilocks field, the
//! algebraic constraints that trace must satisfy, and the prove/verify
//! orchestration around an opaque proof envelope.

pub mod backend;
pub mod circuits;
pub mod config;
pub mod error;
pub mod field;
pub mod hash;
pub mod search;
pub mod traits;
pub mod types;
