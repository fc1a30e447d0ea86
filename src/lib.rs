//! Generates interrupt-dispatched function bindings as source text.
use vstd::prelude::*;

pub mod codegen;
pub mod diag;
pub mod hex;
pub mod laws;
pub mod output;
pub mod spec;

verus! {

/// Generated source text.
pub type Code = String;

} // verus!
