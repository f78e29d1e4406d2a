//! Encryption and governance for agentic AI traffic: an agent coordinator,
//! the per-agent encryption pipeline, key escrow with threshold recovery,
//! and the audit ledger that every security action writes through.

use vstd::prelude::*;

pub mod agents;
pub mod config;
pub mod doubles;
pub mod error;
pub mod metadata;
pub mod security;
pub mod sequences;
pub mod services;
pub mod string_map;
pub mod text;
pub mod time;
pub mod unique_id;

pub use error::{DreasError, DreasResult};

verus! {

/// The version of the framework.
pub const VERSION: &'static str = "0.1.0";

} // verus!
