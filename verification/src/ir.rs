//! The intermediate representation: units become control-flow graphs of
//! basic blocks holding single-assignment-style instructions over virtual
//! registers, and map declarations become resolved map records.

pub mod instruction;
pub mod program;
pub mod unit;

use vstd::prelude::*;

pub use instruction::{BinaryOp, Instruction, Opcode, Operand, VarId};
pub use program::{lower_program, LoweredMap, ProgramIr};
pub use unit::{BasicBlock, BlockId, Terminator, UnitIr};

verus! {

/// Why lowering a program failed.
#[derive(Debug, PartialEq)]
pub enum LoweringError {
    UnitLowering(String),
    InvalidOperand,
    UnknownMap(String),
    TypeMismatch,
}

} // verus!
