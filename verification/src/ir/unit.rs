//! Lowering of one unit into a control-flow graph. Statements become
//! instructions over freshly allocated virtual registers; a per-unit
//! symbol table maps names to their current register, and reassignment
//! binds a fresh register, preserving single-assignment form. A guard
//! splits the current block into a branch over three new blocks — true,
//! false and merge, allocated in that order — and lowering continues in
//! the merge block.

use vstd::prelude::*;
use crate::ast::{AssignmentOp, BinOp, Expr, ExprKind, Stmt, StmtKind, Type, Unit, VarType};
use crate::ir::instruction::{BinaryOp, Instruction, Opcode, Operand, VarId};
use crate::ir::LoweringError;
use crate::strutil::str_eq;

verus! {

/// Identifier of a basic block within its unit.
#[derive(Debug, Clone, Copy, PartialEq, Eq, Structural, Hash)]
pub struct BlockId(pub u32);

/// The control transfer ending a basic block.
#[derive(Debug)]
pub enum Terminator {
    Return(Operand),
    Jump(BlockId),
    Branch { condition: Operand, true_block: BlockId, false_block: BlockId },
}

/// A straight-line instruction sequence ending in exactly one terminator.
#[derive(Debug)]
pub struct BasicBlock {
    pub id: BlockId,
    pub instructions: Vec<Instruction>,
    pub terminator: Terminator,
}

/// The lowered form of one unit: its metadata, its blocks, and the next
/// virtual register number to be allocated.
#[derive(Debug)]
pub struct UnitIr {
    pub name: String,
    pub sections: Vec<String>,
    pub license: String,
    pub blocks: Vec<BasicBlock>,
    pub next_var_id: u32,
}

/// A context method that loads a field or packet datum.
pub open spec fn is_load_method(m: Seq<char>) -> bool {
    ||| m == "load_u8"@ ||| m == "load_u16"@ ||| m == "load_u32"@ ||| m == "load_u64"@
    ||| m == "load_i8"@ ||| m == "load_i16"@ ||| m == "load_i32"@ ||| m == "load_i64"@
}

/// Whether an expression lowers without error when exactly the names in
/// `env` are bound.
pub open spec fn expr_ok(e: Expr, env: Set<Seq<char>>) -> bool
    decreases e,
{
    match e.kind {
        ExprKind::Variable(n) => env.contains(n@),
        ExprKind::Number(_) => true,
        ExprKind::MethodCall(mc) => {
            if mc.receiver@ == "ctx"@ {
                expr_ok(*mc.arg, env) && (*mc.arg).kind is Number && is_load_method(mc.method@)
            } else {
                mc.method@ == "lookup"@ && expr_ok(*mc.arg, env)
            }
        },
        ExprKind::Dereference(inner) => expr_ok(*inner, env),
        ExprKind::Binary(b) => expr_ok(*b.left, env) && expr_ok(*b.right, env),
    }
}

/// The number of nodes of an expression, which bounds the number of
/// virtual registers its lowering allocates.
pub open spec fn expr_size(e: Expr) -> nat
    decreases e,
{
    match e.kind {
        ExprKind::Variable(_) => 1,
        ExprKind::Number(_) => 1,
        ExprKind::MethodCall(mc) => 1 + expr_size(*mc.arg),
        ExprKind::Dereference(inner) => 1 + expr_size(*inner),
        ExprKind::Binary(b) => 1 + expr_size(*b.left) + expr_size(*b.right),
    }
}

/// The variable name a statement assigns to, when its target is a bare
/// variable reference.
pub open spec fn assign_target_var(s: Stmt) -> Option<Seq<char>> {
    match s.kind {
        StmtKind::Assignment(a) => match (*a.target).kind {
            ExprKind::Variable(v) => Some(v@),
            _ => None,
        },
        _ => None,
    }
}

/// Whether a statement lowers without error when exactly the names in
/// `env` are bound at its start.
pub open spec fn stmt_ok(s: Stmt, env: Set<Seq<char>>) -> bool
    decreases s,
{
    match s.kind {
        StmtKind::Return(e) => expr_ok(*e, env),
        StmtKind::VarDecl(vd) => expr_ok(*vd.value, env),
        StmtKind::HeapVarDecl(h) => expr_ok(*h.lookup.key_expr, env),
        StmtKind::Assignment(a) => expr_ok(*a.value, env) && match (*a.target).kind {
            ExprKind::Dereference(p) => expr_ok(*p, env),
            ExprKind::Variable(v) => env.contains(v@),
            _ => false,
        },
        StmtKind::IfGuard(g) => (match g.condition.kind {
            ExprKind::Variable(n) => env.contains(n@),
            _ => false,
        }) && stmts_ok(g.body@, env),
    }
}

/// Whether a statement sequence lowers without error, threading each
/// statement's bindings into the next.
pub open spec fn stmts_ok(ss: Seq<Stmt>, env: Set<Seq<char>>) -> bool
    decreases ss,
{
    if ss.len() == 0 {
        true
    } else {
        stmt_ok(ss[0], env) && stmts_ok(ss.drop_first(), env_after_stmt(ss[0], env))
    }
}

/// The bound names after lowering a statement. Bindings made inside a
/// guard body stay bound afterwards: declaration order, not scope, is
/// what lowering tracks.
pub open spec fn env_after_stmt(s: Stmt, env: Set<Seq<char>>) -> Set<Seq<char>>
    decreases s,
{
    match s.kind {
        StmtKind::VarDecl(vd) => env.insert(vd.name@),
        StmtKind::HeapVarDecl(h) => env.insert(h.name@),
        StmtKind::IfGuard(g) => env_after_stmts(g.body@, env),
        _ => env,
    }
}

/// The bound names after lowering a statement sequence.
pub open spec fn env_after_stmts(ss: Seq<Stmt>, env: Set<Seq<char>>) -> Set<Seq<char>>
    decreases ss,
{
    if ss.len() == 0 {
        env
    } else {
        env_after_stmts(ss.drop_first(), env_after_stmt(ss[0], env))
    }
}

/// The number of guard statements in a statement's subtree.
pub open spec fn guard_count_stmt(s: Stmt) -> nat
    decreases s,
{
    match s.kind {
        StmtKind::IfGuard(g) => 1 + guard_count_stmts(g.body@),
        _ => 0,
    }
}

/// The number of guard statements in a statement sequence's subtrees.
pub open spec fn guard_count_stmts(ss: Seq<Stmt>) -> nat
    decreases ss,
{
    if ss.len() == 0 {
        0
    } else {
        guard_count_stmt(ss[0]) + guard_count_stmts(ss.drop_first())
    }
}

/// The number of nodes of a statement.
pub open spec fn stmt_size(s: Stmt) -> nat
    decreases s,
{
    match s.kind {
        StmtKind::Return(e) => 1 + expr_size(*e),
        StmtKind::VarDecl(vd) => 1 + expr_size(*vd.value),
        StmtKind::HeapVarDecl(h) => 1 + expr_size(*h.lookup.key_expr),
        StmtKind::Assignment(a) => 1 + expr_size(*a.target) + expr_size(*a.value),
        StmtKind::IfGuard(g) => 1 + expr_size(g.condition) + stmts_size(g.body@),
    }
}

/// The number of nodes of a statement sequence.
pub open spec fn stmts_size(ss: Seq<Stmt>) -> nat
    decreases ss,
{
    if ss.len() == 0 {
        0
    } else {
        stmt_size(ss[0]) + stmts_size(ss.drop_first())
    }
}

/// The number of instructions lowering an expression appends.
pub open spec fn expr_instr_count(e: Expr) -> nat
    decreases e,
{
    match e.kind {
        ExprKind::Variable(_) => 0,
        ExprKind::Number(_) => 0,
        ExprKind::MethodCall(mc) => 1 + expr_instr_count(*mc.arg),
        ExprKind::Dereference(inner) => 1 + expr_instr_count(*inner),
        ExprKind::Binary(b) => 1 + expr_instr_count(*b.left) + expr_instr_count(*b.right),
    }
}

/// The literal value of a number expression.
pub open spec fn number_of(e: Expr) -> i64 {
    match e.kind {
        ExprKind::Number(n) => n,
        _ => 0,
    }
}

/// The width a context load method reads, tested in the order the
/// scanner tries the method names.
pub open spec fn ctx_load_size(m: Seq<char>) -> u8 {
    if m == "load_u8"@ {
        1
    } else if m == "load_u16"@ {
        2
    } else if m == "load_u32"@ {
        4
    } else if m == "load_u64"@ {
        8
    } else if m == "load_i8"@ {
        1
    } else if m == "load_i16"@ {
        2
    } else if m == "load_i32"@ {
        4
    } else {
        8
    }
}

/// The result kind a context load method produces.
pub open spec fn ctx_load_type(m: Seq<char>) -> Type {
    if m == "load_u8"@ || m == "load_u16"@ || m == "load_u32"@ {
        Type::U32
    } else if m == "load_u64"@ {
        Type::U64
    } else if m == "load_i8"@ || m == "load_i16"@ || m == "load_i32"@ {
        Type::I32
    } else {
        Type::I64
    }
}

/// The opcode a context load lowers to: a nonnegative offset addresses
/// packet data, a negative one a context field — a deliberate sign-based
/// dispatch of the language.
pub open spec fn ctx_load_opcode(m: Seq<char>, n: i64) -> Opcode {
    if n as i32 >= 0 {
        Opcode::LoadPacket { offset: n as i32, size: ctx_load_size(m) }
    } else {
        Opcode::LoadCtx { offset: n as i32, size: ctx_load_size(m) }
    }
}

/// The instruction-set operator of a source-level binary operator.
pub open spec fn binop_spec(op: BinOp) -> BinaryOp {
    match op {
        BinOp::Add => BinaryOp::Add,
        BinOp::Sub => BinaryOp::Sub,
        BinOp::Mul => BinaryOp::Mul,
        BinOp::Div => BinaryOp::Div,
        BinOp::Mod => BinaryOp::Mod,
    }
}

/// The symbol table of one unit under lowering: each declared name with
/// the virtual register currently bound to it; later entries shadow
/// earlier ones.
pub struct LowerCtx {
    vars: Vec<(String, VarId)>,
}

impl View for LowerCtx {
    type V = Seq<(String, VarId)>;

    closed spec fn view(&self) -> Seq<(String, VarId)> {
        self.vars@
    }
}

/// The register bound to a name: the latest binding wins.
pub open spec fn lookup_var(vars: Seq<(String, VarId)>, n: Seq<char>) -> Option<VarId>
    decreases vars.len(),
{
    if vars.len() == 0 {
        None
    } else if vars.last().0@ == n {
        Some(vars.last().1)
    } else {
        lookup_var(vars.drop_last(), n)
    }
}

/// The set of names the symbol table binds.
pub open spec fn bound_names(vars: Seq<(String, VarId)>) -> Set<Seq<char>> {
    Set::new(|n: Seq<char>| exists|i: int| 0 <= i < vars.len() && (#[trigger] vars[i]).0@ == n)
}

/// A name has a binding exactly when it is among the bound names.
pub proof fn lemma_lookup_bound(vars: Seq<(String, VarId)>, n: Seq<char>)
    ensures
        lookup_var(vars, n) is Some <==> bound_names(vars).contains(n),
    decreases vars.len(),
{
    if vars.len() == 0 {
        assert(!bound_names(vars).contains(n));
    } else if vars.last().0@ == n {
        assert((vars[vars.len() - 1]).0@ == n);
        assert(bound_names(vars).contains(n));
    } else {
        lemma_lookup_bound(vars.drop_last(), n);
        if bound_names(vars).contains(n) {
            let i = choose|i: int| 0 <= i < vars.len() && (#[trigger] vars[i]).0@ == n;
            assert(i < vars.len() - 1);
            assert((vars.drop_last()[i]).0@ == n);
            assert(bound_names(vars.drop_last()).contains(n));
        }
        if bound_names(vars.drop_last()).contains(n) {
            let i = choose|i: int|
                0 <= i < vars.drop_last().len() && (#[trigger] vars.drop_last()[i]).0@ == n;
            assert((vars[i]).0@ == n);
            assert(bound_names(vars).contains(n));
        }
    }
}

/// A binding handed out by lookup occurs in the table.
proof fn lemma_lookup_in(vars: Seq<(String, VarId)>, n: Seq<char>)
    requires
        lookup_var(vars, n) is Some,
    ensures
        exists|i: int|
            0 <= i < vars.len() && (#[trigger] vars[i]).1 == lookup_var(vars, n)->0,
    decreases vars.len(),
{
    if vars.last().0@ == n {
        assert((vars[vars.len() - 1]).1 == lookup_var(vars, n)->0);
    } else {
        lemma_lookup_in(vars.drop_last(), n);
        let i = choose|i: int|
            0 <= i < vars.drop_last().len() && (#[trigger] vars.drop_last()[i]).1 == lookup_var(
                vars.drop_last(),
                n,
            )->0;
        assert((vars[i]).1 == lookup_var(vars, n)->0);
    }
}

/// Pushing a binding adds exactly its name to the bound names.
proof fn lemma_bound_push(vars: Seq<(String, VarId)>, p: (String, VarId))
    ensures
        bound_names(vars.push(p)) == bound_names(vars).insert(p.0@),
{
    let l = bound_names(vars.push(p));
    let r = bound_names(vars).insert(p.0@);
    assert forall|n: Seq<char>| l.contains(n) implies r.contains(n) by {
        let i = choose|i: int| 0 <= i < vars.push(p).len() && (#[trigger] vars.push(p)[i]).0@ == n;
        if i < vars.len() {
            assert((vars[i]).0@ == n);
        }
    };
    assert forall|n: Seq<char>| r.contains(n) implies l.contains(n) by {
        if n == p.0@ {
            assert((vars.push(p)[vars.len() as int]).0@ == n);
        } else {
            let i = choose|i: int| 0 <= i < vars.len() && (#[trigger] vars[i]).0@ == n;
            assert((vars.push(p)[i]).0@ == n);
        }
    };
    assert(l =~= r);
}

/// Every register the symbol table binds was allocated before `next`.
pub open spec fn ctx_wf(vars: Seq<(String, VarId)>, next: u32) -> bool {
    forall|i: int| 0 <= i < vars.len() ==> ((#[trigger] vars[i]).1).0 < next
}

/// The registers a block's instructions write, in order.
pub open spec fn block_results(b: BasicBlock) -> Seq<u32> {
    b.instructions@.map(|i: int, ins: Instruction| ins.result.0)
}

/// The registers written anywhere in a block list, in order.
pub open spec fn all_results(bs: Seq<BasicBlock>) -> Seq<u32>
    decreases bs.len(),
{
    if bs.len() == 0 {
        Seq::empty()
    } else {
        all_results(bs.drop_last()) + block_results(bs.last())
    }
}

/// The registers written in the finished blocks and the block under
/// construction.
pub open spec fn state_results(bs: Seq<BasicBlock>, cur: BasicBlock) -> Seq<u32> {
    all_results(bs) + block_results(cur)
}

/// Single-assignment form: every written register is below the allocation
/// counter, and no two instructions write the same register.
pub open spec fn results_ok(rs: Seq<u32>, next: u32) -> bool {
    &&& forall|i: int| 0 <= i < rs.len() ==> (#[trigger] rs[i]) < next
    &&& forall|i: int, j: int| 0 <= i < j < rs.len() ==> rs[i] != rs[j]
}

proof fn lemma_all_results_push(bs: Seq<BasicBlock>, b: BasicBlock)
    ensures
        all_results(bs.push(b)) == all_results(bs) + block_results(b),
{
    assert(bs.push(b).drop_last() =~= bs);
    assert(bs.push(b).last() == b);
}

/// A sequence is its own full subrange.
pub broadcast proof fn lemma_subrange_full<T>(s: Seq<T>)
    ensures
        #[trigger] s.subrange(0, s.len() as int) == s,
{
    assert(s.subrange(0, s.len() as int) =~= s);
}

/// Prefix extension is transitive.
pub proof fn lemma_prefix_trans<T>(a: Seq<T>, b: Seq<T>, c: Seq<T>)
    requires
        a.len() <= b.len() <= c.len(),
        b.subrange(0, a.len() as int) == a,
        c.subrange(0, b.len() as int) == b,
    ensures
        c.subrange(0, a.len() as int) == a,
{
    assert(c.subrange(0, a.len() as int) =~= a) by {
        assert forall|t: int| 0 <= t < a.len() implies c.subrange(0, a.len() as int)[t]
            == a[t] by {
            assert(c.subrange(0, b.len() as int)[t] == c[t]);
            assert(b.subrange(0, a.len() as int)[t] == b[t]);
        };
    }
}

/// The ids of a block list, in order.
pub open spec fn block_ids(bs: Seq<BasicBlock>) -> Seq<u32> {
    bs.map(|i: int, b: BasicBlock| b.id.0)
}

/// The ids of the finished blocks and the block under construction.
pub open spec fn state_block_ids(bs: Seq<BasicBlock>, cur: BasicBlock) -> Seq<u32> {
    block_ids(bs).push(cur.id.0)
}

/// The block ids a terminator transfers control to.
pub open spec fn jump_targets(t: Terminator) -> Seq<u32> {
    match t {
        Terminator::Return(_) => Seq::empty(),
        Terminator::Jump(b) => seq![b.0],
        Terminator::Branch { true_block, false_block, .. } => seq![true_block.0, false_block.0],
    }
}

/// Every terminator in the state names only ids below the id counter.
pub open spec fn targets_ok(bs: Seq<BasicBlock>, cur: BasicBlock, n: u32) -> bool {
    &&& forall|i: int, j: int|
        0 <= i < bs.len() && 0 <= j < jump_targets(bs[i].terminator).len()
            ==> #[trigger] jump_targets(bs[i].terminator)[j] < n
    &&& forall|j: int|
        0 <= j < jump_targets(cur.terminator).len() ==> #[trigger] jump_targets(
            cur.terminator,
        )[j] < n
}

/// `new_s` extends `old_s` by ids drawn from the range `[lo, hi)`.
pub open spec fn extends(old_s: Seq<u32>, new_s: Seq<u32>, lo: int, hi: int) -> bool {
    &&& old_s.len() <= new_s.len()
    &&& new_s.subrange(0, old_s.len() as int) == old_s
    &&& forall|t: int| old_s.len() <= t < new_s.len() ==> lo <= #[trigger] new_s[t] < hi
}

proof fn lemma_extends_trans(
    a: Seq<u32>,
    b: Seq<u32>,
    c: Seq<u32>,
    lo1: int,
    hi1: int,
    lo2: int,
    hi2: int,
    lo: int,
    hi: int,
)
    requires
        extends(a, b, lo1, hi1),
        extends(b, c, lo2, hi2),
        lo <= lo1,
        hi1 <= hi,
        lo <= lo2,
        hi2 <= hi,
    ensures
        extends(a, c, lo, hi),
{
    assert(c.subrange(0, a.len() as int) =~= a) by {
        assert forall|t: int| 0 <= t < a.len() implies c.subrange(0, a.len() as int)[t]
            == a[t] by {
            assert(c.subrange(0, b.len() as int)[t] == c[t]);
            assert(b.subrange(0, a.len() as int)[t] == b[t]);
        };
    }
    assert forall|t: int| a.len() <= t < c.len() implies lo <= #[trigger] c[t] < hi by {
        if t < b.len() {
            assert(c.subrange(0, b.len() as int)[t] == c[t]);
            assert(c[t] == b[t]);
        }
    };
}

proof fn lemma_extends_push(a: Seq<u32>, x: u32, lo: int, hi: int)
    requires
        lo <= x < hi,
    ensures
        extends(a, a.push(x), lo, hi),
{
    assert(a.push(x).subrange(0, a.len() as int) =~= a);
}

proof fn lemma_push_fresh(rs: Seq<u32>, x: u32, n: u32)
    requires
        results_ok(rs, n),
        forall|t: int| 0 <= t < rs.len() ==> #[trigger] rs[t] != x,
        x < n,
    ensures
        results_ok(rs.push(x), n),
{
    let rs2 = rs.push(x);
    assert forall|i: int, j: int| 0 <= i < j < rs2.len() implies rs2[i] != rs2[j] by {
        if j < rs.len() {
        } else {
            assert(rs2[j] == x);
            assert(rs2[i] == rs[i]);
        }
    };
}

proof fn lemma_block_ids_push(bs: Seq<BasicBlock>, b: BasicBlock)
    ensures
        block_ids(bs.push(b)) == block_ids(bs).push(b.id.0),
{
    assert(block_ids(bs.push(b)) =~= block_ids(bs).push(b.id.0));
}

/// A duplicate-free sequence of `n` ids below `n` holds every id below `n`.
proof fn lemma_ids_cover(rs: Seq<u32>, n: u32)
    requires
        results_ok(rs, n),
        rs.len() == n,
    ensures
        forall|t: u32| t < n ==> rs.contains(t),
{
    broadcast use vstd::seq_lib::seq_to_set_is_finite;

    let rsi = rs.map(|i: int, x: u32| x as int);
    assert(rsi.no_duplicates()) by {
        assert forall|i: int, j: int|
            0 <= i < rsi.len() && 0 <= j < rsi.len() && i != j implies rsi[i] != rsi[j] by {
            if i < j {
                assert(rs[i] != rs[j]);
            } else {
                assert(rs[j] != rs[i]);
            }
        };
    }
    rsi.unique_seq_to_set();
    assert(rsi.to_set() <= vstd::set_lib::set_int_range(0, n as int)) by {
        assert forall|x: int| rsi.to_set().contains(x) implies vstd::set_lib::set_int_range(
            0,
            n as int,
        ).contains(x) by {
            assert(rsi.contains(x));
            let i = choose|i: int| 0 <= i < rsi.len() && rsi[i] == x;
            assert(rs[i] < n);
        };
    }
    vstd::set_lib::lemma_int_range(0, n as int);
    vstd::set_lib::lemma_subset_equality(
        rsi.to_set(),
        vstd::set_lib::set_int_range(0, n as int),
    );
    assert forall|t: u32| t < n implies rs.contains(t) by {
        assert(vstd::set_lib::set_int_range(0, n as int).contains(t as int));
        assert(rsi.to_set().contains(t as int));
        assert(rsi.contains(t as int));
        let i = choose|i: int| 0 <= i < rsi.len() && rsi[i] == t as int;
        assert(rs[i] == t);
    };
}

impl LowerCtx {
    /// A fresh, empty symbol table.
    pub fn new() -> (r: Self)
        ensures
            r@ == Seq::<(String, VarId)>::empty(),
    {
        LowerCtx { vars: Vec::new() }
    }

    /// The register currently bound to a name.
    #[verifier::loop_isolation(false)]
    pub fn lookup(&self, n: &str) -> (r: Option<VarId>)
        ensures
            r == lookup_var(self@, n@),
    {
        proof {
            assert(self.vars@.take(self.vars@.len() as int) =~= self.vars@);
        }
        let mut i: usize = self.vars.len();
        while i > 0
            invariant
                i <= self.vars@.len(),
                lookup_var(self.vars@, n@) == lookup_var(self.vars@.take(i as int), n@),
            decreases i,
        {
            let j = i - 1;
            if str_eq(self.vars[j].0.as_str(), n) {
                proof {
                    assert(self.vars@.take(i as int).last() == self.vars@[j as int]);
                }
                return Some(self.vars[j].1);
            }
            proof {
                assert(self.vars@.take(i as int).last() == self.vars@[j as int]);
                assert(self.vars@.take(i as int).drop_last() =~= self.vars@.take(j as int));
            }
            i = j;
        }
        proof {
            assert(self.vars@.take(0) =~= Seq::<(String, VarId)>::empty());
        }
        None
    }

    fn bind(&mut self, name: String, id: VarId)
        ensures
            final(self).vars@ == old(self).vars@.push((name, id)),
    {
        self.vars.push((name, id));
    }
}

/// Allocates a fresh virtual register and appends the instruction that
/// writes it to the block under construction, keeping single-assignment
/// form. Fails only when the register space is exhausted.
fn emit_instr(
    ir: &mut UnitIr,
    block: &mut BasicBlock,
    opcode: Opcode,
    operands: Vec<Operand>,
    result_type: Type,
) -> (r: Result<VarId, LoweringError>)
    requires
        results_ok(state_results(old(ir).blocks@, *old(block)), old(ir).next_var_id),
    ensures
        final(ir).blocks@ == old(ir).blocks@,
        final(ir).name == old(ir).name,
        final(ir).sections == old(ir).sections,
        final(ir).license == old(ir).license,
        final(block).id == old(block).id,
        final(block).terminator == old(block).terminator,
        r is Ok <==> old(ir).next_var_id < u32::MAX,
        r matches Ok(id) ==> {
            &&& id.0 == old(ir).next_var_id
            &&& final(ir).next_var_id == old(ir).next_var_id + 1
            &&& final(block).instructions@ == old(block).instructions@.push(
                Instruction { result: id, opcode, operands, result_type },
            )
            &&& results_ok(
                state_results(final(ir).blocks@, *final(block)),
                final(ir).next_var_id,
            )
        },
        r is Err ==> final(ir).next_var_id == old(ir).next_var_id
            && *final(block) == *old(block),
        r matches Err(e) ==> e is UnitLowering,
{
    if ir.next_var_id == u32::MAX {
        return Err(LoweringError::UnitLowering(
            "virtual register space exhausted".to_owned(),
        ));
    }
    let id = VarId(ir.next_var_id);
    ir.next_var_id = ir.next_var_id + 1;
    let ins = Instruction { result: id, opcode, operands, result_type };
    block.instructions.push(ins);
    proof {
        let old_state = state_results(old(ir).blocks@, *old(block));
        let new_state = state_results(ir.blocks@, *block);
        assert(block_results(*block) =~= block_results(*old(block)).push(id.0));
        assert(new_state =~= old_state.push(id.0));
        assert forall|i: int, j: int| 0 <= i < j < new_state.len() implies new_state[i]
            != new_state[j] by {
            if j < old_state.len() {
            } else {
                assert(new_state[j] == id.0);
                assert(new_state[i] < id.0);
            }
        };
    }
    Ok(id)
}

/// The opcode for a source-level binary operator.
fn binop_opcode(op: BinOp) -> (r: BinaryOp)
    ensures
        r == binop_spec(op),
{
    match op {
        BinOp::Add => BinaryOp::Add,
        BinOp::Sub => BinaryOp::Sub,
        BinOp::Mul => BinaryOp::Mul,
        BinOp::Div => BinaryOp::Div,
        BinOp::Mod => BinaryOp::Mod,
    }
}

/// The width and result kind of a context load method, when recognised.
fn ctx_method_info(m: &str) -> (r: Option<(u8, Type)>)
    ensures
        r is Some <==> is_load_method(m@),
        r matches Some(p) ==> p.0 == ctx_load_size(m@) && p.1 == ctx_load_type(m@),
{
    if str_eq(m, "load_u8") {
        Some((1, Type::U32))
    } else if str_eq(m, "load_u16") {
        Some((2, Type::U32))
    } else if str_eq(m, "load_u32") {
        Some((4, Type::U32))
    } else if str_eq(m, "load_u64") {
        Some((8, Type::U64))
    } else if str_eq(m, "load_i8") {
        Some((1, Type::I32))
    } else if str_eq(m, "load_i16") {
        Some((2, Type::I32))
    } else if str_eq(m, "load_i32") {
        Some((4, Type::I32))
    } else if str_eq(m, "load_i64") {
        Some((8, Type::I64))
    } else {
        None
    }
}

fn name_error(prefix: &str, name: &str) -> (r: LoweringError)
    ensures
        r is UnitLowering,
{
    let mut m = String::new();
    m.append(prefix);
    m.append(name);
    LoweringError::UnitLowering(m)
}

/// Lowers one expression into instructions appended to `block`, returning
/// the operand that holds its value.
#[verifier::loop_isolation(false)]
fn lower_expr(expr: &Expr, ctx: &LowerCtx, ir: &mut UnitIr, block: &mut BasicBlock) -> (r:
    Result<Operand, LoweringError>)
    requires
        results_ok(state_results(old(ir).blocks@, *old(block)), old(ir).next_var_id),
        ctx_wf(ctx@, old(ir).next_var_id),
    ensures
        results_ok(state_results(final(ir).blocks@, *final(block)), final(ir).next_var_id),
        ctx_wf(ctx@, final(ir).next_var_id),
        old(ir).next_var_id <= final(ir).next_var_id,
        final(ir).next_var_id <= old(ir).next_var_id + expr_size(*expr),
        final(ir).blocks@ == old(ir).blocks@,
        final(ir).name == old(ir).name,
        final(ir).sections == old(ir).sections,
        final(ir).license == old(ir).license,
        final(block).id == old(block).id,
        final(block).terminator == old(block).terminator,
        r matches Ok(op) ==> !(op is String)
            && (op matches Operand::Var(v) ==> v.0 < final(ir).next_var_id),
        r matches Ok(op) ==> ((op is Immediate) == ((*expr).kind is Number)),
        r matches Ok(op) ==> (op matches Operand::Immediate(v) ==> v == number_of(*expr)),
        r matches Err(e) ==> e is UnitLowering,
        ((*expr).kind is Variable || (*expr).kind is Number) ==> *final(block) == *old(block)
            && final(ir).next_var_id == old(ir).next_var_id,
        r is Ok ==> ({
            let instrs = final(block).instructions@;
            let oldn = old(block).instructions@.len();
            match (*expr).kind {
                ExprKind::Variable(nm) => {
                    &&& instrs =~= old(block).instructions@
                    &&& r == Ok::<Operand, LoweringError>(Operand::Var(
                        lookup_var(ctx@, nm@)->0,
                    ))
                },
                ExprKind::Number(n) => {
                    &&& instrs =~= old(block).instructions@
                    &&& r == Ok::<Operand, LoweringError>(Operand::Immediate(n))
                },
                ExprKind::MethodCall(mc) => {
                    &&& instrs.len() == oldn + expr_instr_count(*expr)
                    &&& instrs.len() >= 1
                    &&& instrs.last().result.0 + 1 == final(ir).next_var_id
                    &&& r == Ok::<Operand, LoweringError>(Operand::Var(instrs.last().result))
                    &&& (if mc.receiver@ == "ctx"@ {
                        &&& instrs.last().opcode == ctx_load_opcode(
                            mc.method@,
                            number_of(*mc.arg),
                        )
                        &&& instrs.last().result_type == ctx_load_type(mc.method@)
                        &&& instrs.last().operands@ == Seq::<Operand>::empty()
                    } else {
                        &&& instrs.last().opcode == (Opcode::CallMap { map_name: mc.receiver })
                        &&& instrs.last().result_type == Type::U64
                        &&& instrs.last().operands@.len() == 1
                    })
                },
                ExprKind::Dereference(_) => {
                    &&& instrs.len() == oldn + expr_instr_count(*expr)
                    &&& instrs.len() >= 1
                    &&& instrs.last().opcode is LoadKey
                    &&& instrs.last().result_type == Type::U64
                    &&& instrs.last().operands@.len() == 1
                    &&& r == Ok::<Operand, LoweringError>(Operand::Var(instrs.last().result))
                },
                ExprKind::Binary(b) => {
                    &&& instrs.len() == oldn + expr_instr_count(*expr)
                    &&& instrs.len() >= 1
                    &&& instrs.last().opcode == (Opcode::Binary { op: binop_spec(b.op) })
                    &&& instrs.last().result_type == Type::U64
                    &&& instrs.last().operands@.len() == 2
                    &&& r == Ok::<Operand, LoweringError>(Operand::Var(instrs.last().result))
                },
            }
        }),
        r is Ok ==> expr_ok(*expr, bound_names(ctx@)),
        expr_ok(*expr, bound_names(ctx@)) && old(ir).next_var_id + expr_size(*expr)
            <= u32::MAX ==> r is Ok,
    decreases *expr,
{
    match &expr.kind {
        ExprKind::Variable(name) => {
            proof {
                lemma_lookup_bound(ctx.vars@, name@);
            }
            match ctx.lookup(name.as_str()) {
                Some(v) => {
                    proof {
                        lemma_lookup_in(ctx.vars@, name@);
                    }
                    Ok(Operand::Var(v))
                },
                None => Err(name_error("Undefined variable: ", name.as_str())),
            }
        },
        ExprKind::Number(n) => Ok(Operand::Immediate(*n)),
        ExprKind::MethodCall(call) => {
            if str_eq(call.receiver.as_str(), "ctx") {
                let offset_op = lower_expr(&call.arg, ctx, ir, block)?;
                let offset: i32 = match offset_op {
                    Operand::Immediate(n) => #[verifier::truncate] (n as i32),
                    _ => {
                        return Err(LoweringError::UnitLowering(
                            "Context load offset must be immediate".to_owned(),
                        ));
                    },
                };
                let m = call.method.as_str();
                let (size, result_type) = match ctx_method_info(m) {
                    Some(p) => p,
                    None => {
                        return Err(name_error("Unknown context method: ", m));
                    },
                };
                // Nonnegative offsets address packet data; negative ones
                // address context fields.
                let opcode = if offset >= 0 {
                    Opcode::LoadPacket { offset, size }
                } else {
                    Opcode::LoadCtx { offset, size }
                };
                proof {
                    assert((*call.arg).kind is Number);
                    assert(expr_instr_count(*call.arg) == 0);
                    assert(opcode == ctx_load_opcode(call.method@, number_of(*call.arg)));
                }
                let id = emit_instr(ir, block, opcode, Vec::new(), result_type)?;
                Ok(Operand::Var(id))
            } else if str_eq(call.method.as_str(), "lookup") {
                let key = lower_expr(&call.arg, ctx, ir, block)?;
                let id = emit_instr(
                    ir,
                    block,
                    Opcode::CallMap { map_name: call.receiver.clone() },
                    vec![key],
                    Type::U64,
                )?;
                Ok(Operand::Var(id))
            } else {
                let mut m = String::new();
                m.append("Unknown method: ");
                m.append(call.receiver.as_str());
                m.append(".");
                m.append(call.method.as_str());
                Err(LoweringError::UnitLowering(m))
            }
        },
        ExprKind::Dereference(ptr_expr) => {
            let ptr = lower_expr(ptr_expr, ctx, ir, block)?;
            let id = emit_instr(ir, block, Opcode::LoadKey, vec![ptr], Type::U64)?;
            Ok(Operand::Var(id))
        },
        ExprKind::Binary(b) => {
            let l = lower_expr(&b.left, ctx, ir, block)?;
            let r = lower_expr(&b.right, ctx, ir, block)?;
            let id = emit_instr(
                ir,
                block,
                Opcode::Binary { op: binop_opcode(b.op) },
                vec![l, r],
                Type::U64,
            )?;
            Ok(Operand::Var(id))
        },
    }
}

/// Appending a statement to a sequence extends the bound names by that
/// statement's own bindings.
proof fn lemma_env_after_snoc(ss: Seq<Stmt>, x: Stmt, env: Set<Seq<char>>)
    ensures
        env_after_stmts(ss.push(x), env) == env_after_stmt(x, env_after_stmts(ss, env)),
    decreases ss.len(),
{
    if ss.len() == 0 {
        reveal_with_fuel(env_after_stmts, 2);
        assert(ss.push(x)[0] == x);
        assert(ss.push(x).drop_first() =~= Seq::<Stmt>::empty());
    } else {
        assert(ss.push(x)[0] == ss[0]);
        assert(ss.push(x).drop_first() =~= ss.drop_first().push(x));
        lemma_env_after_snoc(ss.drop_first(), x, env_after_stmt(ss[0], env));
    }
}

/// Appending a statement adds its own guard count.
proof fn lemma_guard_count_snoc(ss: Seq<Stmt>, x: Stmt)
    ensures
        guard_count_stmts(ss.push(x)) == guard_count_stmts(ss) + guard_count_stmt(x),
    decreases ss.len(),
{
    if ss.len() == 0 {
        reveal_with_fuel(guard_count_stmts, 2);
        assert(ss.push(x)[0] == x);
        assert(ss.push(x).drop_first() =~= Seq::<Stmt>::empty());
    } else {
        assert(ss.push(x)[0] == ss[0]);
        assert(ss.push(x).drop_first() =~= ss.drop_first().push(x));
        lemma_guard_count_snoc(ss.drop_first(), x);
    }
}

/// Appending a statement to a well-lowering sequence requires the new
/// statement to lower in the environment the sequence leaves behind.
proof fn lemma_stmts_ok_snoc(ss: Seq<Stmt>, x: Stmt, env: Set<Seq<char>>)
    ensures
        stmts_ok(ss.push(x), env) == (stmts_ok(ss, env) && stmt_ok(
            x,
            env_after_stmts(ss, env),
        )),
    decreases ss.len(),
{
    if ss.len() == 0 {
        reveal_with_fuel(stmts_ok, 2);
        reveal_with_fuel(env_after_stmts, 2);
        assert(ss.push(x)[0] == x);
        assert(ss.push(x).drop_first() =~= Seq::<Stmt>::empty());
    } else {
        assert(ss.push(x)[0] == ss[0]);
        assert(ss.push(x).drop_first() =~= ss.drop_first().push(x));
        lemma_stmts_ok_snoc(ss.drop_first(), x, env_after_stmt(ss[0], env));
    }
}

/// A sequence's size splits at any index.
proof fn lemma_stmts_size_split(ss: Seq<Stmt>, k: int)
    requires
        0 <= k <= ss.len(),
    ensures
        stmts_size(ss) == stmts_size(ss.take(k)) + stmts_size(ss.skip(k)),
    decreases k,
{
    if k == 0 {
        assert(ss.take(0) =~= Seq::<Stmt>::empty());
        assert(ss.skip(0) =~= ss);
    } else {
        lemma_stmts_size_split(ss, k - 1);
        assert(ss.take(k) =~= ss.take(k - 1).push(ss[k - 1]));
        lemma_stmts_size_snoc(ss.take(k - 1), ss[k - 1]);
        assert(ss.skip(k - 1)[0] == ss[k - 1]);
        assert(ss.skip(k - 1).drop_first() =~= ss.skip(k));
    }
}

proof fn lemma_stmts_size_snoc(ss: Seq<Stmt>, x: Stmt)
    ensures
        stmts_size(ss.push(x)) == stmts_size(ss) + stmt_size(x),
    decreases ss.len(),
{
    if ss.len() == 0 {
        reveal_with_fuel(stmts_size, 2);
        assert(ss.push(x)[0] == x);
        assert(ss.push(x).drop_first() =~= Seq::<Stmt>::empty());
    } else {
        assert(ss.push(x)[0] == ss[0]);
        assert(ss.push(x).drop_first() =~= ss.drop_first().push(x));
        lemma_stmts_size_snoc(ss.drop_first(), x);
    }
}

/// A subtree holds no more guards than nodes.
proof fn lemma_guard_le_size(s: Stmt)
    ensures
        guard_count_stmt(s) <= stmt_size(s),
    decreases s,
{
    match s.kind {
        StmtKind::IfGuard(g) => {
            lemma_guards_le_size(g.body@);
        },
        _ => {},
    }
}

proof fn lemma_guards_le_size(ss: Seq<Stmt>)
    ensures
        guard_count_stmts(ss) <= stmts_size(ss),
    decreases ss,
{
    if ss.len() > 0 {
        lemma_guard_le_size(ss[0]);
        lemma_guards_le_size(ss.drop_first());
    }
}

/// Lowers one statement into the block under construction. Declarations
/// bind fresh registers; reassignment rebinds its name to a new register;
/// a guard splits the control flow into three new blocks and leaves the
/// merge block current.
#[verifier::loop_isolation(false)]
#[verifier::rlimit(100)]
#[verifier::spinoff_prover]
pub fn lower_statement(
    stmt: &Stmt,
    ctx: &mut LowerCtx,
    ir: &mut UnitIr,
    block: &mut BasicBlock,
    next_block: &mut u32,
) -> (r: Result<(), LoweringError>)
    requires
        results_ok(state_results(old(ir).blocks@, *old(block)), old(ir).next_var_id),
        ctx_wf(old(ctx)@, old(ir).next_var_id),
        results_ok(state_block_ids(old(ir).blocks@, *old(block)), *old(next_block)),
        targets_ok(old(ir).blocks@, *old(block), *old(next_block)),
    ensures
        results_ok(state_results(final(ir).blocks@, *final(block)), final(ir).next_var_id),
        ctx_wf(final(ctx)@, final(ir).next_var_id),
        results_ok(
            state_block_ids(final(ir).blocks@, *final(block)),
            *final(next_block),
        ),
        targets_ok(final(ir).blocks@, *final(block), *final(next_block)),
        old(ir).next_var_id <= final(ir).next_var_id,
        final(ir).next_var_id <= old(ir).next_var_id + 3 * stmt_size(*stmt),
        *old(next_block) <= *final(next_block),
        *final(next_block) <= *old(next_block) + 3 * stmt_size(*stmt),
        old(ir).blocks@.len() <= final(ir).blocks@.len(),
        final(ir).blocks@.len() <= old(ir).blocks@.len() + 3 * stmt_size(*stmt),
        final(ir).name == old(ir).name,
        final(ir).sections == old(ir).sections,
        final(ir).license == old(ir).license,
        final(ir).blocks@.subrange(0, old(ir).blocks@.len() as int) == old(ir).blocks@,
        r matches Err(e) ==> e is UnitLowering,
        extends(
            state_block_ids(old(ir).blocks@, *old(block)),
            state_block_ids(final(ir).blocks@, *final(block)),
            *old(next_block) as int,
            *final(next_block) as int,
        ),
        r is Ok ==> state_block_ids(final(ir).blocks@, *final(block)).len()
            == state_block_ids(old(ir).blocks@, *old(block)).len() + (*final(next_block)
            - *old(next_block)),
        r is Ok ==> {
            &&& stmt_ok(*stmt, bound_names(old(ctx)@))
            &&& bound_names(final(ctx)@) == env_after_stmt(*stmt, bound_names(old(ctx)@))
            &&& final(ir).blocks@.len() == old(ir).blocks@.len() + 3 * guard_count_stmt(*stmt)
        },
        stmt_ok(*stmt, bound_names(old(ctx)@)) && old(ir).next_var_id + 3 * stmt_size(
            *stmt,
        ) <= u32::MAX && *old(next_block) + 3 * stmt_size(*stmt) <= u32::MAX ==> r is Ok,
        r is Ok && stmt.kind is IfGuard ==> final(block).id.0 == *old(next_block) + 2
            && final(block).instructions@.len() == 0,
        r is Ok && stmt.kind is IfGuard ==> ({
            // The pre-guard block is retained: it keeps its id and its
            // instructions, gains the null check, and its terminator
            // becomes a branch on the null check's register, targeting
            // the guard's true and false blocks.
            let pre = final(ir).blocks@[old(ir).blocks@.len() as int];
            &&& final(ir).blocks@.len() > old(ir).blocks@.len()
            &&& pre.id == old(block).id
            &&& pre.instructions@.len() == old(block).instructions@.len() + 1
            &&& pre.instructions@.subrange(0, old(block).instructions@.len() as int) == old(
                block,
            ).instructions@
            &&& pre.instructions@.last().opcode is NullCheck
            &&& pre.terminator == (Terminator::Branch {
                condition: Operand::Var(pre.instructions@.last().result),
                true_block: BlockId(*old(next_block)),
                false_block: BlockId((*old(next_block) + 1) as u32),
            })
        }),
        r is Ok && assign_target_var(*stmt) is Some ==> ({
            let n = assign_target_var(*stmt)->0;
            &&& lookup_var(final(ctx)@, n) is Some
            &&& lookup_var(final(ctx)@, n) != lookup_var(old(ctx)@, n)
        }),
        r is Ok ==> ({
            let instrs = final(block).instructions@;
            let oldn = old(block).instructions@.len();
            match stmt.kind {
                StmtKind::Return(e) => {
                    &&& instrs.len() == oldn + expr_instr_count(*e)
                    &&& ((*e).kind matches ExprKind::Number(n) ==> final(block).terminator == (
                    Terminator::Return(Operand::Immediate(n))))
                    &&& ((*e).kind matches ExprKind::Variable(v) ==> final(block).terminator
                        == (Terminator::Return(Operand::Var(
                        lookup_var(old(ctx)@, v@)->0,
                    ))))
                    &&& (!((*e).kind is Number) && !((*e).kind is Variable)
                        ==> final(block).terminator == (Terminator::Return(Operand::Var(
                        instrs.last().result,
                    ))))
                },
                StmtKind::VarDecl(vd) => {
                    &&& instrs.len() == oldn + expr_instr_count(*vd.value) + 1
                    &&& instrs.last().opcode == (Opcode::Binary { op: BinaryOp::Add })
                    &&& instrs.last().result_type == Type::U64
                    &&& instrs.last().operands@.len() == 2
                    &&& instrs.last().operands@[1] == Operand::Immediate(0)
                    &&& ((*vd.value).kind matches ExprKind::Number(n)
                        ==> instrs.last().operands@[0] == Operand::Immediate(n))
                    &&& ((*vd.value).kind matches ExprKind::Variable(v)
                        ==> instrs.last().operands@[0] == Operand::Var(
                        lookup_var(old(ctx)@, v@)->0,
                    ))
                    &&& (!((*vd.value).kind is Number) && !((*vd.value).kind is Variable)
                        ==> instrs.last().operands@[0] == Operand::Var(
                        instrs[instrs.len() - 2].result,
                    ))
                    &&& lookup_var(final(ctx)@, vd.name@) == Some(instrs.last().result)
                },
                StmtKind::HeapVarDecl(h) => {
                    &&& instrs.len() == oldn + expr_instr_count(*h.lookup.key_expr) + 1
                    &&& instrs.last().opcode == (Opcode::CallMap {
                        map_name: h.lookup.map_name,
                    })
                    &&& instrs.last().result_type == Type::U64
                    &&& instrs.last().operands@.len() == 1
                    &&& ((*h.lookup.key_expr).kind matches ExprKind::Number(n)
                        ==> instrs.last().operands@[0] == Operand::Immediate(n))
                    &&& ((*h.lookup.key_expr).kind matches ExprKind::Variable(v)
                        ==> instrs.last().operands@[0] == Operand::Var(
                        lookup_var(old(ctx)@, v@)->0,
                    ))
                    &&& (!((*h.lookup.key_expr).kind is Number)
                        && !((*h.lookup.key_expr).kind is Variable)
                        ==> instrs.last().operands@[0] == Operand::Var(
                        instrs[instrs.len() - 2].result,
                    ))
                    &&& lookup_var(final(ctx)@, h.name@) == Some(instrs.last().result)
                },
                StmtKind::Assignment(a) => match (*a.target).kind {
                    ExprKind::Dereference(p) => {
                        if a.op is AddAssign {
                            &&& instrs.len() == oldn + expr_instr_count(*a.value)
                                + expr_instr_count(*p) + 3
                            &&& instrs[instrs.len() - 3].opcode is LoadKey
                            &&& instrs[instrs.len() - 3].operands@.len() == 1
                            &&& ((*p).kind matches ExprKind::Variable(v)
                                ==> instrs[instrs.len() - 3].operands@[0] == Operand::Var(
                                lookup_var(old(ctx)@, v@)->0,
                            ) && instrs.last().operands@[0] == Operand::Var(
                                lookup_var(old(ctx)@, v@)->0,
                            ))
                            &&& instrs[instrs.len() - 2].opcode == (Opcode::Binary {
                                op: BinaryOp::Add,
                            })
                            &&& instrs[instrs.len() - 2].operands@.len() == 2
                            &&& instrs[instrs.len() - 2].operands@[0] == Operand::Var(
                                instrs[instrs.len() - 3].result,
                            )
                            &&& instrs.last().opcode == (Opcode::Store { size: 8 })
                            &&& instrs.last().operands@.len() == 2
                            &&& instrs.last().operands@[1] == Operand::Var(
                                instrs[instrs.len() - 2].result,
                            )
                        } else {
                            &&& instrs.len() == oldn + expr_instr_count(*a.value)
                                + expr_instr_count(*p) + 1
                            &&& instrs.last().opcode == (Opcode::Store { size: 8 })
                            &&& instrs.last().operands@.len() == 2
                            &&& ((*p).kind matches ExprKind::Variable(v)
                                ==> instrs.last().operands@[0] == Operand::Var(
                                lookup_var(old(ctx)@, v@)->0,
                            ))
                            &&& ((*a.value).kind matches ExprKind::Number(n)
                                ==> instrs.last().operands@[1] == Operand::Immediate(n))
                            &&& ((*a.value).kind matches ExprKind::Variable(v)
                                ==> instrs.last().operands@[1] == Operand::Var(
                                lookup_var(old(ctx)@, v@)->0,
                            ))
                        }
                    },
                    ExprKind::Variable(_) => {
                        &&& instrs.len() == oldn + expr_instr_count(*a.value) + 1
                        &&& instrs.last().opcode == (Opcode::Binary { op: BinaryOp::Add })
                        &&& lookup_var(final(ctx)@, assign_target_var(*stmt)->0) == Some(
                            instrs.last().result,
                        )
                    },
                    _ => false,
                },
                StmtKind::IfGuard(_) => true,
            }
        }),
    decreases *stmt,
{
    broadcast use lemma_subrange_full;

    match &stmt.kind {
        StmtKind::VarDecl(var_decl) => {
            let value = lower_expr(&var_decl.value, ctx, ir, block)?;
            let id = emit_instr(
                ir,
                block,
                Opcode::Binary { op: BinaryOp::Add },
                vec![value, Operand::Immediate(0)],
                Type::U64,
            )?;
            proof {
                lemma_bound_push(ctx.vars@, (var_decl.name, id));
            }
            ctx.bind(var_decl.name.clone(), id);
            Ok(())
        },
        StmtKind::Return(expr) => {
            let ret_value = lower_expr(expr, ctx, ir, block)?;
            block.terminator = Terminator::Return(ret_value);
            Ok(())
        },
        StmtKind::HeapVarDecl(heap_decl) => {
            let key = lower_expr(&heap_decl.lookup.key_expr, ctx, ir, block)?;
            let id = emit_instr(
                ir,
                block,
                Opcode::CallMap { map_name: heap_decl.lookup.map_name.clone() },
                vec![key],
                Type::U64,
            )?;
            proof {
                lemma_bound_push(ctx.vars@, (heap_decl.name, id));
            }
            ctx.bind(heap_decl.name.clone(), id);
            Ok(())
        },
        StmtKind::Assignment(assign) => {
            let value = lower_expr(&assign.value, ctx, ir, block)?;
            match &assign.target.kind {
                ExprKind::Dereference(ptr_expr) => {
                    let ptr = lower_expr(ptr_expr, ctx, ir, block)?;
                    let final_value = if matches!(assign.op, AssignmentOp::AddAssign) {
                        // Load the current value, add the new one, store the sum.
                        let load_id = emit_instr(
                            ir,
                            block,
                            Opcode::LoadKey,
                            vec![ptr.clone()],
                            Type::U64,
                        )?;
                        let add_id = emit_instr(
                            ir,
                            block,
                            Opcode::Binary { op: BinaryOp::Add },
                            vec![Operand::Var(load_id), value],
                            Type::U64,
                        )?;
                        Operand::Var(add_id)
                    } else {
                        value
                    };
                    let _store_id = emit_instr(
                        ir,
                        block,
                        Opcode::Store { size: 8 },
                        vec![ptr, final_value],
                        Type::U64,
                    )?;
                    Ok(())
                },
                ExprKind::Variable(var_name) => {
                    proof {
                        lemma_lookup_bound(ctx.vars@, var_name@);
                    }
                    let old_id = match ctx.lookup(var_name.as_str()) {
                        Some(v) => v,
                        None => {
                            return Err(name_error("Undefined variable: ", var_name.as_str()));
                        },
                    };
                    proof {
                        lemma_lookup_in(ctx.vars@, var_name@);
                    }
                    let new_id = if matches!(assign.op, AssignmentOp::AddAssign) {
                        emit_instr(
                            ir,
                            block,
                            Opcode::Binary { op: BinaryOp::Add },
                            vec![Operand::Var(old_id), value],
                            Type::U64,
                        )?
                    } else {
                        emit_instr(
                            ir,
                            block,
                            Opcode::Binary { op: BinaryOp::Add },
                            vec![value, Operand::Immediate(0)],
                            Type::U64,
                        )?
                    };
                    proof {
                        lemma_bound_push(ctx.vars@, (*var_name, new_id));
                    }
                    ctx.bind(var_name.clone(), new_id);
                    proof {
                        assert(lookup_var(ctx.vars@, var_name@) == Some(new_id));
                        assert(bound_names(ctx.vars@) =~= bound_names(old(ctx).vars@));
                    }
                    Ok(())
                },
                _ => Err(LoweringError::UnitLowering("Invalid assignment target".to_owned())),
            }
        },
        StmtKind::IfGuard(if_guard) => {
            let ghost env0 = bound_names(old(ctx).vars@);
            let guard_id = match &if_guard.condition.kind {
                ExprKind::Variable(name) => {
                    proof {
                        lemma_lookup_bound(ctx.vars@, name@);
                    }
                    match ctx.lookup(name.as_str()) {
                        Some(v) => {
                            proof {
                                lemma_lookup_in(ctx.vars@, name@);
                            }
                            v
                        },
                        None => {
                            return Err(name_error(
                                "Undefined variable in guard: ",
                                name.as_str(),
                            ));
                        },
                    }
                },
                _ => {
                    return Err(LoweringError::UnitLowering(
                        "Guard must be a variable".to_owned(),
                    ));
                },
            };

            let nc_id = emit_instr(
                ir,
                block,
                Opcode::NullCheck,
                vec![Operand::Var(guard_id)],
                Type::U64,
            )?;

            if *next_block > 0xFFFF_FFFCu32 {
                return Err(LoweringError::UnitLowering("block id space exhausted".to_owned()));
            }
            let nb0 = *next_block;
            let true_id = BlockId(nb0);
            let false_id = BlockId(nb0 + 1);
            let merge_id = BlockId(nb0 + 2);
            *next_block = nb0 + 3;

            block.terminator = Terminator::Branch {
                condition: Operand::Var(nc_id),
                true_block: true_id,
                false_block: false_id,
            };
            // The branch-terminated block joins the finished blocks; the
            // true block becomes current.
            let mut pre = BasicBlock {
                id: true_id,
                instructions: Vec::new(),
                terminator: Terminator::Jump(merge_id),
            };
            core::mem::swap(block, &mut pre);
            let ghost b1 = ir.blocks@.len() + 1;
            let ghost n1 = ir.next_var_id;
            let ghost ids0 = state_block_ids(old(ir).blocks@, *old(block));
            ir.blocks.push(pre);
            let ghost bp = ir.blocks@;
            let ghost sb = state_block_ids(ir.blocks@, *block);
            proof {
                assert(bp.subrange(0, old(ir).blocks@.len() as int) =~= old(ir).blocks@);
                lemma_all_results_push(old(ir).blocks@, ir.blocks@.last());
                assert(state_results(ir.blocks@, *block) =~= state_results(
                    old(ir).blocks@,
                    ir.blocks@.last(),
                ));
                lemma_block_ids_push(old(ir).blocks@, ir.blocks@.last());
                assert(sb =~= ids0.push(true_id.0));
                lemma_extends_push(ids0, true_id.0, nb0 as int, nb0 as int + 3);
                assert(sb.subrange(0, sb.len() as int) =~= sb);
            }

            let ghost body = if_guard.body@;
            proof {
                assert(body.take(0) =~= Seq::<Stmt>::empty());
                assert(body.skip(0) =~= body);
            }
            let mut k: usize = 0;
            while k < if_guard.body.len()
                invariant
                    k <= body.len(),
                    results_ok(state_results(ir.blocks@, *block), ir.next_var_id),
                    ctx_wf(ctx.vars@, ir.next_var_id),
                    results_ok(state_block_ids(ir.blocks@, *block), *next_block),
                    targets_ok(ir.blocks@, *block, *next_block),
                    n1 <= ir.next_var_id,
                    ir.next_var_id <= n1 + 3 * stmts_size(body.take(k as int)),
                    nb0 + 3 <= *next_block,
                    *next_block <= nb0 + 3 + 3 * stmts_size(body.take(k as int)),
                    b1 <= ir.blocks@.len(),
                    ir.blocks@.len() <= b1 + 3 * stmts_size(body.take(k as int)),
                    ir.blocks@.len() == b1 + 3 * guard_count_stmts(body.take(k as int)),
                    bp.len() <= ir.blocks@.len(),
                    ir.blocks@.subrange(0, bp.len() as int) == bp,
                    extends(sb, state_block_ids(ir.blocks@, *block), nb0 as int + 3, *next_block as int),
                    state_block_ids(ir.blocks@, *block).len() == sb.len() + (*next_block - (
                    nb0 + 3)),
                    bound_names(ctx.vars@) == env_after_stmts(body.take(k as int), env0),
                    stmts_ok(body.take(k as int), env0),
                    stmts_ok(body, env0) ==> stmts_ok(
                        body.skip(k as int),
                        bound_names(ctx.vars@),
                    ),
                    ir.name == old(ir).name,
                    ir.sections == old(ir).sections,
                    ir.license == old(ir).license,
                decreases body.len() - k,
            {
                proof {
                    if stmts_ok(body, env0) {
                        assert(body.skip(k as int)[0] == body[k as int]);
                        assert(stmt_ok(body[k as int], bound_names(ctx.vars@)));
                    }
                    lemma_stmts_size_split(body, k as int);
                    lemma_stmts_size_snoc(body.take(k as int), body[k as int]);
                    assert(body.take(k as int).push(body[k as int]) =~= body.take(k as int + 1));
                }
                let ghost ids_before = state_block_ids(ir.blocks@, *block);
                let ghost nb_before = *next_block;
                let ghost blocks_before_stmt = ir.blocks@;
                match lower_statement(&if_guard.body[k], ctx, ir, block, next_block) {
                    Ok(()) => {},
                    Err(e) => {
                        proof {
                            if stmts_ok(body, env0) && old(ir).next_var_id + 3 * stmt_size(*stmt)
                                <= u32::MAX && *old(next_block) + 3 * stmt_size(*stmt)
                                <= u32::MAX {
                                assert(false);
                            }
                            lemma_extends_trans(
                                sb,
                                ids_before,
                                state_block_ids(ir.blocks@, *block),
                                nb0 as int + 3,
                                nb_before as int,
                                nb_before as int,
                                *next_block as int,
                                nb0 as int + 3,
                                *next_block as int,
                            );
                            lemma_extends_trans(
                                ids0,
                                sb,
                                state_block_ids(ir.blocks@, *block),
                                nb0 as int,
                                nb0 as int + 3,
                                nb0 as int + 3,
                                *next_block as int,
                                nb0 as int,
                                *next_block as int,
                            );
                            lemma_prefix_trans(bp, blocks_before_stmt, ir.blocks@);
                            lemma_prefix_trans(old(ir).blocks@, bp, ir.blocks@);
                        }
                        return Err(e);
                    },
                }
                proof {
                    lemma_extends_trans(
                        sb,
                        ids_before,
                        state_block_ids(ir.blocks@, *block),
                        nb0 as int + 3,
                        nb_before as int,
                        nb_before as int,
                        *next_block as int,
                        nb0 as int + 3,
                        *next_block as int,
                    );
                }
                proof {
                    lemma_env_after_snoc(body.take(k as int), body[k as int], env0);
                    lemma_guard_count_snoc(body.take(k as int), body[k as int]);
                    lemma_stmts_ok_snoc(body.take(k as int), body[k as int], env0);
                    assert(body.skip(k as int).drop_first() =~= body.skip(k as int + 1));
                }
                k += 1;
            }

            // Close the true chain and the empty false block; the merge
            // block becomes current.
            let ghost mid_blocks = ir.blocks@;
            let ghost mid_ids = state_block_ids(ir.blocks@, *block);
            let ghost nb_end = *next_block;
            let mut done = BasicBlock {
                id: merge_id,
                instructions: Vec::new(),
                terminator: Terminator::Return(Operand::Immediate(0)),
            };
            core::mem::swap(block, &mut done);
            let ghost dn = done;
            let ghost mid_state = state_results(mid_blocks, dn);
            proof {
                lemma_all_results_push(mid_blocks, dn);
                lemma_block_ids_push(mid_blocks, dn);
            }
            ir.blocks.push(done);
            let falseb = BasicBlock {
                id: false_id,
                instructions: Vec::new(),
                terminator: Terminator::Jump(merge_id),
            };
            let ghost fb = falseb;
            proof {
                lemma_all_results_push(mid_blocks.push(dn), fb);
                lemma_block_ids_push(mid_blocks.push(dn), fb);
            }
            ir.blocks.push(falseb);
            proof {
                assert(ir.blocks@ == mid_blocks.push(dn).push(fb));
                assert(mid_blocks.push(dn).subrange(0, mid_blocks.len() as int) =~= mid_blocks);
                assert(ir.blocks@.subrange(0, mid_blocks.push(dn).len() as int)
                    =~= mid_blocks.push(dn));
                lemma_prefix_trans(mid_blocks, mid_blocks.push(dn), ir.blocks@);
                lemma_prefix_trans(bp, mid_blocks, ir.blocks@);
                lemma_prefix_trans(old(ir).blocks@, bp, ir.blocks@);
                assert(ir.blocks@.subrange(0, bp.len() as int)[old(ir).blocks@.len() as int]
                    == ir.blocks@[old(ir).blocks@.len() as int]);
                assert(ir.blocks@[old(ir).blocks@.len() as int] == bp[old(ir).blocks@.len()
                    as int]);
                assert(block_results(*block) =~= Seq::<u32>::empty());
                assert(block_results(fb) =~= Seq::<u32>::empty());
                assert(state_results(ir.blocks@, *block) =~= mid_state);
                assert(body.take(body.len() as int) =~= body);
                assert(body.skip(body.len() as int) =~= Seq::<Stmt>::empty());
                // The two closing blocks carry the ids reserved at the split,
                // which nothing in between could reuse.
                let fin = state_block_ids(ir.blocks@, *block);
                let fin1 = mid_ids.push(false_id.0);
                assert(fin =~= fin1.push(merge_id.0));
                assert forall|t: int| 0 <= t < mid_ids.len() implies #[trigger] mid_ids[t] != nb0
                    + 1 && mid_ids[t] != nb0 + 2 by {
                    if t < sb.len() {
                        assert(mid_ids.subrange(0, sb.len() as int)[t] == mid_ids[t]);
                        assert(mid_ids[t] == sb[t]);
                        if t < ids0.len() {
                            assert(sb[t] == ids0[t]);
                            assert(ids0[t] < nb0);
                        } else {
                            assert(sb[t] == true_id.0);
                        }
                    } else {
                        assert(nb0 + 3 <= mid_ids[t]);
                    }
                };
                lemma_push_fresh(mid_ids, false_id.0, nb_end);
                assert forall|t: int| 0 <= t < fin1.len() implies #[trigger] fin1[t] != nb0
                    + 2 by {
                    if t < mid_ids.len() {
                        assert(fin1[t] == mid_ids[t]);
                    } else {
                        assert(fin1[t] == nb0 + 1);
                    }
                };
                lemma_push_fresh(fin1, merge_id.0, nb_end);
                assert(results_ok(fin, nb_end));
                lemma_extends_trans(ids0, sb, mid_ids, nb0 as int, nb0 as int + 3,
                    nb0 as int + 3, nb_end as int, nb0 as int, nb_end as int);
                lemma_extends_push(mid_ids, false_id.0, nb0 as int, nb_end as int);
                lemma_extends_trans(ids0, mid_ids, fin1, nb0 as int, nb_end as int, nb0 as int,
                    nb_end as int, nb0 as int, nb_end as int);
                lemma_extends_push(fin1, merge_id.0, nb0 as int, nb_end as int);
                lemma_extends_trans(ids0, fin1, fin, nb0 as int, nb_end as int, nb0 as int,
                    nb_end as int, nb0 as int, nb_end as int);
            }
            Ok(())
        },
    }
}

fn clone_strings(v: &Vec<String>) -> (r: Vec<String>)
    ensures
        r@ == v@,
{
    let mut r: Vec<String> = Vec::new();
    let mut i: usize = 0;
    while i < v.len()
        invariant
            i <= v@.len(),
            r@.len() == i,
            forall|j: int| 0 <= j < i ==> r@[j] == v@[j],
        decreases v@.len() - i,
    {
        r.push(v[i].clone());
        i += 1;
    }
    proof {
        assert(r@ =~= v@);
    }
    r
}

impl UnitIr {
    /// Lowers one unit into its control-flow graph. The license defaults
    /// to `GPL` when the unit declares none. On success the block list
    /// holds one block per guard triple plus the entry chain, and every
    /// virtual register is written by exactly one instruction.
    #[verifier::loop_isolation(false)]
    pub fn lower(unit: &Unit) -> (r: Result<UnitIr, LoweringError>)
        ensures
            r matches Ok(ir) ==> {
                &&& ir.name@ == unit.name@
                &&& ir.sections@ == unit.sections@
                &&& ir.license@ == (if unit.license is Some {
                    (unit.license->0)@
                } else {
                    "GPL"@
                })
                &&& ir.blocks@.len() == 1 + 3 * guard_count_stmts(unit.body@)
                &&& results_ok(all_results(ir.blocks@), ir.next_var_id)
                &&& block_ids(ir.blocks@).no_duplicates()
                &&& forall|i: int, j: int|
                    0 <= i < ir.blocks@.len() && 0 <= j < jump_targets(
                        ir.blocks@[i].terminator,
                    ).len() ==> block_ids(ir.blocks@).contains(
                        #[trigger] jump_targets(ir.blocks@[i].terminator)[j],
                    )
            },
            r is Ok ==> stmts_ok(unit.body@, Set::empty()),
            stmts_ok(unit.body@, Set::empty()) && 3 * stmts_size(unit.body@) + 1 <= u32::MAX
                ==> r is Ok,
            r matches Err(e) ==> e is UnitLowering,
    {
        broadcast use lemma_subrange_full;

        let license = match &unit.license {
            Some(l) => l.clone(),
            None => "GPL".to_owned(),
        };
        let mut ir = UnitIr {
            name: unit.name.clone(),
            sections: clone_strings(&unit.sections),
            license,
            blocks: Vec::new(),
            next_var_id: 0,
        };
        let mut ctx = LowerCtx { vars: Vec::new() };
        let mut current = BasicBlock {
            id: BlockId(0),
            instructions: Vec::new(),
            terminator: Terminator::Return(Operand::Immediate(0)),
        };
        let mut next_block: u32 = 1;
        proof {
            assert(bound_names(ctx.vars@) =~= Set::<Seq<char>>::empty());
            assert(block_results(current) =~= Seq::<u32>::empty());
            assert(state_results(ir.blocks@, current) =~= Seq::<u32>::empty());
            assert(state_block_ids(ir.blocks@, current) =~= seq![0u32]);
        }

        let ghost body = unit.body@;
        proof {
            assert(body.take(0) =~= Seq::<Stmt>::empty());
            assert(body.skip(0) =~= body);
        }
        let mut k: usize = 0;
        while k < unit.body.len()
            invariant
                k <= body.len(),
                results_ok(state_results(ir.blocks@, current), ir.next_var_id),
                ctx_wf(ctx.vars@, ir.next_var_id),
                results_ok(state_block_ids(ir.blocks@, current), next_block),
                targets_ok(ir.blocks@, current, next_block),
                ir.next_var_id <= 3 * stmts_size(body.take(k as int)),
                1 <= next_block,
                next_block <= 1 + 3 * stmts_size(body.take(k as int)),
                state_block_ids(ir.blocks@, current).len() == next_block,
                ir.blocks@.len() <= 3 * stmts_size(body.take(k as int)),
                ir.blocks@.len() == 3 * guard_count_stmts(body.take(k as int)),
                bound_names(ctx.vars@) == env_after_stmts(body.take(k as int), Set::empty()),
                stmts_ok(body.take(k as int), Set::empty()),
                stmts_ok(body, Set::empty()) ==> stmts_ok(
                    body.skip(k as int),
                    bound_names(ctx.vars@),
                ),
                ir.name@ == unit.name@,
                ir.sections@ == unit.sections@,
                ir.license@ == (if unit.license is Some {
                    (unit.license->0)@
                } else {
                    "GPL"@
                }),
            decreases body.len() - k,
        {
            proof {
                if stmts_ok(body, Set::empty()) {
                    assert(body.skip(k as int)[0] == body[k as int]);
                    assert(stmt_ok(body[k as int], bound_names(ctx.vars@)));
                }
                lemma_stmts_size_split(body, k as int);
                lemma_stmts_size_snoc(body.take(k as int), body[k as int]);
                assert(body.take(k as int).push(body[k as int]) =~= body.take(k as int + 1));
            }
            match lower_statement(&unit.body[k], &mut ctx, &mut ir, &mut current, &mut next_block)
            {
                Ok(()) => {},
                Err(e) => {
                    proof {
                        if stmts_ok(body, Set::empty()) && 3 * stmts_size(body) + 1
                            <= u32::MAX {
                            assert(false);
                        }
                    }
                    return Err(e);
                },
            }
            proof {
                lemma_env_after_snoc(body.take(k as int), body[k as int], Set::empty());
                lemma_guard_count_snoc(body.take(k as int), body[k as int]);
                lemma_stmts_ok_snoc(body.take(k as int), body[k as int], Set::empty());
                assert(body.skip(k as int).drop_first() =~= body.skip(k as int + 1));
            }
            k += 1;
        }

        let ghost last_ids = state_block_ids(ir.blocks@, current);
        proof {
            lemma_all_results_push(ir.blocks@, current);
            lemma_block_ids_push(ir.blocks@, current);
            if stmts_ok(body, Set::empty()) {
                assert(body.take(body.len() as int) =~= body);
            }
        }
        ir.blocks.push(current);
        proof {
            // The final id list is the state list: every allocated id is
            // present exactly once, so the duplicate-free list of length
            // `next_block` covers every id a terminator can name.
            let ids = block_ids(ir.blocks@);
            assert(ids =~= last_ids);
            assert(ids.no_duplicates());
            lemma_ids_cover(ids, next_block);
            assert forall|i: int, j: int|
                0 <= i < ir.blocks@.len() && 0 <= j < jump_targets(
                    ir.blocks@[i].terminator,
                ).len() implies ids.contains(
                #[trigger] jump_targets(ir.blocks@[i].terminator)[j],
            ) by {
                if i < ir.blocks@.len() - 1 {
                    assert(jump_targets(ir.blocks@[i].terminator)[j] < next_block);
                } else {
                    assert(ir.blocks@[i] == current);
                    assert(jump_targets(current.terminator)[j] < next_block);
                }
            };
        }
        Ok(ir)
    }
}

} // verus!
