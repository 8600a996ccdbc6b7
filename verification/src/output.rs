//! Outputs: auxiliary histograms, event diagnostics and the external
//! process frame protocol.

pub mod aux_histo;
pub mod diag;
pub mod ext_process;

use vstd::prelude::*;

verus! {

/// Absorbs all events without action.
#[derive(Debug, Clone, Copy, PartialEq, Eq, Structural)]
pub struct NullOutput {}

impl NullOutput {
    pub fn new() -> (o: NullOutput) {
        NullOutput {}
    }
}

} // verus!
