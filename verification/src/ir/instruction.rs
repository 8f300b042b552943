//! Instructions in single-assignment style: each virtual register is
//! written by exactly one instruction.

use vstd::prelude::*;
use crate::ast::Type;

verus! {

/// A virtual register: allocated monotonically per unit, never reused.
#[derive(Debug, Clone, Copy, PartialEq, Eq, Structural, Hash)]
pub struct VarId(pub u32);

/// One instruction: the register it writes, its opcode, its operands, and
/// the integer kind of its result.
#[derive(Debug)]
pub struct Instruction {
    pub result: VarId,
    pub opcode: Opcode,
    pub operands: Vec<Operand>,
    pub result_type: Type,
}

/// The closed set of opcodes.
#[derive(Debug)]
pub enum Opcode {
    /// Binary arithmetic over two operands.
    Binary { op: BinaryOp },
    /// Arithmetic negation.
    Negate,
    /// Load a context field by byte offset and width.
    LoadCtx { offset: i32, size: u8 },
    /// Load packet data by byte offset and width.
    LoadPacket { offset: i32, size: u8 },
    /// Load through a pointer operand.
    LoadKey,
    /// Store through a pointer operand, with a byte width.
    Store { size: u8 },
    /// Look a key up in the named map; the result register holds a pointer.
    CallMap { map_name: String },
    /// Test a pointer-valued register against null.
    NullCheck,
    /// Call a helper by id (reserved).
    CallHelper { func_id: u32 },
}

/// Binary operators over virtual registers.
#[derive(Debug, Clone, Copy, PartialEq, Eq, Structural)]
pub enum BinaryOp {
    Add,
    Sub,
    Mul,
    Div,
    Mod,
    BitAnd,
    BitOr,
    BitXor,
    LShift,
    RShift,
    Eq,
    Neq,
    Lt,
    Gt,
    Le,
    Ge,
}

/// Conditions a conditional jump can test.
#[derive(Debug, Clone, Copy, PartialEq, Eq, Structural)]
pub enum JumpCondition {
    Equal,
    NotEqual,
    GreaterThan,
    LessThan,
    GreaterEqual,
    LessEqual,
}

/// An instruction operand: a virtual register, an immediate integer, or a
/// raw name reference used transiently before resolution.
#[derive(Debug)]
pub enum Operand {
    Var(VarId),
    Immediate(i64),
    String(String),
}

impl Clone for Operand {
    fn clone(&self) -> (r: Self)
        ensures
            r == *self,
    {
        match self {
            Operand::Var(v) => Operand::Var(*v),
            Operand::Immediate(n) => Operand::Immediate(*n),
            Operand::String(s) => Operand::String(s.clone()),
        }
    }
}

impl Operand {
    /// Whether the operand is a virtual register reference.
    pub fn is_register(&self) -> (r: bool)
        ensures
            r == (self is Var),
    {
        match self {
            Operand::Var(_) => true,
            _ => false,
        }
    }

    /// Whether the operand is an immediate integer.
    pub fn is_immediate(&self) -> (r: bool)
        ensures
            r == (self is Immediate),
    {
        match self {
            Operand::Immediate(_) => true,
            _ => false,
        }
    }
}

} // verus!
