//! Layout and emission core for email-derived zero-knowledge proof circuits.
//!
//! A `Blueprint` declares which substrings of an email header or body are
//! revealed, which external numeric inputs are supplied at proof time, and a
//! handful of framework flags.  From that single description this crate
//! derives, deterministically:
//!
//! - the ordered signal layout (packed field-element descriptors and totals)
//!   that the proving circuit and the on-chain decode contract must agree on,
//! - the per-regex naming and packing metadata consumed by the circuit
//!   emitters for each target proving language, and
//! - the minimal cryptographic setup size from a compiler report or from a
//!   deliberately under-provisioned trial setup's diagnostic text.

use vstd::prelude::*;

pub mod blueprint;
pub mod circom;
pub mod config;
pub mod consistency;
pub mod layout;
pub mod noir;
pub mod sizing;
pub mod text;

verus! {

} // verus!
