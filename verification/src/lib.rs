//! Core of a GPU shader compiler backend.
//!
//! The crate lowers an already-SSA-form source IR (modeled as plain data in
//! [`nir`]) into a target-specific IR ([`ir`]): the pass in [`from_nir`]
//! walks the source control-flow lists and accumulates instructions through
//! the builders in [`builder`]. The encoder in [`sm`] then turns the lowered
//! instructions into a fixed-width instruction-word stream.

use vstd::prelude::*;

pub mod builder;
pub mod encode;
pub mod from_nir;
pub mod ir;
pub mod nir;
pub mod sm;

verus! {

/// Failure kinds surfaced by the compiler core.
///
/// Every fallible entry point reports one of these instead of aborting, so a
/// host can batch-compile many shaders without one failure ending the run.
#[derive(Clone, Copy, Debug, PartialEq, Eq, Structural)]
pub enum Error {
    /// A construct (bit width, instruction kind, multi-function shader,
    /// if/loop body) has no lowering or encoding rule.
    UnsupportedInput,
    /// Internal consistency failure: double value definition,
    /// value-count/bit-width mismatch, or allocator exhaustion.
    InvariantViolation,
    /// The host handed over data that breaks the source-IR contract.
    HostContractViolation,
}

} // verus!
