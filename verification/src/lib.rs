//! Tools to inspect and clean the work directory of a nextflow pipeline.
//!
//! The library holds the decisions: what a log line or a `.command.run` line
//! yields, which work folders a run still uses, which task folders are removed,
//! and the reports. Reading files and walking directories is left to the caller.

use vstd::prelude::*;

pub mod pattern;
pub mod utils;
pub mod task;
pub mod plunger;
pub mod run;
pub mod size;
pub mod cli;

verus! {

/// An input or output failure, as `std` reports it.
#[verifier::external_type_specification]
#[verifier::external_body]
pub struct ExIoError(std::io::Error);

} // verus!
