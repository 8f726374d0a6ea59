//! Lifted instructions.
use vstd::prelude::*;
use super::address::Address;
use super::op::PcodeOp;

verus! {

/// One decoded instruction: where it is, how many bytes it takes, its assembly text and
/// the p-code it lifts to.
#[derive(Clone, Debug)]
pub struct Instruction {
    pub address: Address,
    pub length: u64,
    pub assembly: String,
    pub ops: Vec<PcodeOp>,
}

impl Instruction {
    /// The printed form of the instruction: its assembly text.
    pub fn to_string(&self) -> (r: String)
        ensures
            r@ == self.assembly@,
    {
        self.assembly.clone()
    }
}

} // verus!
