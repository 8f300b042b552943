//! Abstract syntax tree: a program is an ordered list of map declarations
//! followed by an ordered list of units; unit bodies are statements over
//! expressions. Every statement and expression carries the source location
//! of its leftmost token, for diagnostics raised by later stages.

use vstd::prelude::*;
use crate::token::SourceLoc;

verus! {

/// Root of the tree: every map declaration and every unit of one source file.
#[derive(Debug)]
pub struct Program {
    pub maps: Vec<MapDecl>,
    pub units: Vec<Unit>,
}

/// A declared key/value map shared between generated handlers and user space.
#[derive(Debug, Clone)]
pub struct MapDecl {
    pub name: String,
    pub map_type: MapType,
    pub key_type: Type,
    pub value_type: Type,
    pub max_entries: u32,
    pub loc: SourceLoc,
}

/// The fixed set of map categories.
#[derive(Debug, Clone, Copy, PartialEq, Eq, Structural, Hash)]
pub enum MapType {
    Hash,
    Array,
    Ringbuf,
    LruHash,
    ProgArray,
    PerfEventArray,
}

/// The four fixed-width integer kinds of the language.
#[derive(Debug, Clone, Copy, PartialEq, Eq, Structural, Hash)]
pub enum Type {
    U32,
    U64,
    I32,
    I64,
}

/// One source-level declaration compiling to one hookable handler function.
#[derive(Debug)]
pub struct Unit {
    pub name: String,
    pub loc: SourceLoc,
    pub sections: Vec<String>,
    pub license: Option<String>,
    pub body: Vec<Stmt>,
}

/// A statement with the location of its leftmost token.
#[derive(Debug)]
pub struct Stmt {
    pub kind: StmtKind,
    pub loc: SourceLoc,
}

#[derive(Debug)]
pub enum StmtKind {
    Return(Box<Expr>),
    VarDecl(VarDecl),
    HeapVarDecl(HeapVarDecl),
    Assignment(Assignment),
    IfGuard(IfGuard),
}

/// `target = value` or `target += value`.
#[derive(Debug)]
pub struct Assignment {
    pub target: Box<Expr>,
    pub op: AssignmentOp,
    pub value: Box<Expr>,
}

#[derive(Debug, Clone, Copy, PartialEq, Eq, Structural, Hash)]
pub enum AssignmentOp {
    Assign,
    AddAssign,
}

/// `if guard(x) { body }`: the condition is a bare variable reference.
#[derive(Debug)]
pub struct IfGuard {
    pub condition: Expr,
    pub body: Vec<Stmt>,
}

/// An expression with the location of its leftmost token.
#[derive(Debug)]
pub struct Expr {
    pub kind: ExprKind,
    pub loc: SourceLoc,
}

#[derive(Debug)]
pub enum ExprKind {
    Variable(String),
    Number(i64),
    MethodCall(MethodCall),
    Dereference(Box<Expr>),
    Binary(BinaryExpr),
}

/// `left op right` with one of the five arithmetic operators.
#[derive(Debug)]
pub struct BinaryExpr {
    pub op: BinOp,
    pub left: Box<Expr>,
    pub right: Box<Expr>,
}

#[derive(Debug, Clone, Copy, PartialEq, Eq, Structural, Hash)]
pub enum BinOp {
    Add,
    Sub,
    Mul,
    Div,
    Mod,
}

/// `reg x = value;` or `imm x = value;`.
#[derive(Debug)]
pub struct VarDecl {
    pub name: String,
    pub var_type: VarType,
    pub value: Box<Expr>,
}

/// Storage class of a declared variable.
#[derive(Debug, Clone, Copy, PartialEq, Eq, Structural, Hash)]
pub enum VarType {
    Reg,
    Imm,
}

/// A map lookup bound in a `heap` declaration: `map.lookup(key)`.
#[derive(Debug)]
pub struct HeapLookup {
    pub map_name: String,
    pub key_expr: Box<Expr>,
}

/// `receiver.method(arg)`: context-field loads and map lookups.
#[derive(Debug)]
pub struct MethodCall {
    pub receiver: String,
    pub method: String,
    pub arg: Box<Expr>,
}

/// `heap h = map.lookup(key);`.
#[derive(Debug)]
pub struct HeapVarDecl {
    pub name: String,
    pub lookup: HeapLookup,
}

} // verus!
