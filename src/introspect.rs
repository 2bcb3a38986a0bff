//! The instructions of the running transaction, as the runtime exposes them:
//! the index of the instruction being executed and random access to all of them.

use vstd::prelude::*;
use crate::bytes::Pubkey;

verus! {

/// One instruction of the transaction: the program it calls, its accounts in
/// order, and its payload.
#[derive(Debug)]
pub struct IntrospectedInstruction {
    pub program_id: Pubkey,
    pub accounts: Vec<Pubkey>,
    pub data: Vec<u8>,
}

/// The instructions of one transaction and the position of the current one.
#[derive(Debug)]
pub struct Instructions {
    pub instructions: Vec<IntrospectedInstruction>,
    pub current: usize,
}

impl Instructions {
    pub open spec fn len(&self) -> int {
        self.instructions@.len() as int
    }

    pub open spec fn at(&self, i: int) -> IntrospectedInstruction {
        self.instructions@[i]
    }

    /// How many instructions the transaction holds.
    pub fn num_instructions(&self) -> (r: usize)
        ensures
            r == self.len(),
    {
        self.instructions.len()
    }

    /// Position of the instruction being executed.
    pub fn load_current_index(&self) -> (r: usize)
        ensures
            r == self.current,
    {
        self.current
    }

    /// The instruction at absolute position `index`, if there is one.
    pub fn load_instruction_at(&self, index: usize) -> (r: Option<&IntrospectedInstruction>)
        ensures
            r is Some <==> index < self.len(),
            r matches Some(ix) ==> *ix == self.at(index as int),
    {
        if index < self.instructions.len() {
            Some(&self.instructions[index])
        } else {
            None
        }
    }

    /// The instruction `offset` places after the current one (before it, for a
    /// negative offset), if there is one.
    pub fn get_instruction_relative(&self, offset: i64) -> (r: Option<&IntrospectedInstruction>)
        ensures
            r is Some <==> 0 <= self.current + offset < self.len(),
            r matches Some(ix) ==> *ix == self.at(self.current + offset),
    {
        if offset >= 0 {
            let off = offset as u64;
            if (self.current as u64) < self.instructions.len() as u64
                && off < (self.instructions.len() - self.current) as u64 {
                Some(&self.instructions[self.current + off as usize])
            } else {
                None
            }
        } else {
            let back: u64 = if offset == i64::MIN { 0x8000_0000_0000_0000 } else { (-offset) as u64 };
            if back <= self.current as u64 && ((self.current as u64 - back) as usize) < self.instructions.len() {
                Some(&self.instructions[(self.current as u64 - back) as usize])
            } else {
                None
            }
        }
    }
}

} // verus!
