//! Bulk structural rename of a nested field across every document of a
//! document-store table.
//!
//! The library holds the verified core: the dotted-path validation, the
//! recursive rename over a schema-less document tree, the cursor-based
//! pagination state machine, and the per-document update decisions. The
//! HTTP transport around it only moves plain values in and out.

pub mod args;
pub mod fetch;
pub mod json;
pub mod process;
pub mod rename;
pub mod update;

use vstd::prelude::*;

verus! {

} // verus!
