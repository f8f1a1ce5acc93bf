//! Passes over the intermediate representation.
use vstd::prelude::*;
use crate::ir::{IrProg, IrProgV};
use crate::symbols::SymTab;
use crate::ir_handle::dataflow::spec_dataflow;

pub mod dataflow;

verus! {

/// Runs the passes over `p`: the physical register allocation of `dataflow`.
pub fn op(p: &IrProg, s: &mut SymTab) -> (r: IrProg)
    requires
        spec_dataflow(p@, old(s)@) is Some,
    ensures
        spec_dataflow(p@, old(s)@) == Some((r@, final(s)@)),
{
    dataflow::dataflow(p, s)
}

} // verus!
