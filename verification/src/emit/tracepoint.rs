//! The tracepoint emitter: the one backend that lowers full IR to text.
//! It works in explicit passes — classify pointer-valued registers, then
//! declare every register exactly once at first sight, then walk the
//! instructions — because a register's pointerness is a property of its
//! defining instruction and is computed once. Null-check/store pairs are
//! rebuilt into one conditional block of the generated text: each null
//! check opens a conditional that the next store instruction closes.

use vstd::prelude::*;
use crate::emit::{ctype_text, emit_license, license_text, append_ctype};
use crate::ir::instruction::{BinaryOp, Instruction, Opcode, Operand};
use crate::ir::unit::{BasicBlock, UnitIr};
use crate::strutil::{append_i64, append_u64, dec_str, int_str};

verus! {

/// Every instruction of a unit, block by block, in order.
pub open spec fn unit_instrs(bs: Seq<BasicBlock>) -> Seq<Instruction>
    decreases bs.len(),
{
    if bs.len() == 0 {
        Seq::empty()
    } else {
        unit_instrs(bs.drop_last()) + bs.last().instructions@
    }
}

/// The instructions of the blocks from index `b` on.
pub open spec fn tail_instrs(bs: Seq<BasicBlock>, b: int) -> Seq<Instruction>
    decreases bs.len() - b,
{
    if b < 0 || b >= bs.len() {
        Seq::empty()
    } else {
        bs[b].instructions@ + tail_instrs(bs, b + 1)
    }
}

proof fn lemma_unit_tail(bs: Seq<BasicBlock>, b: int)
    requires
        0 <= b <= bs.len(),
    ensures
        unit_instrs(bs) == unit_instrs(bs.take(b)) + tail_instrs(bs, b),
    decreases bs.len() - b,
{
    if b == bs.len() {
        assert(bs.take(b) =~= bs);
        assert(unit_instrs(bs) =~= unit_instrs(bs.take(b)) + tail_instrs(bs, b));
    } else {
        lemma_unit_tail(bs, b + 1);
        assert(bs.take(b + 1).drop_last() =~= bs.take(b));
        assert(bs.take(b + 1).last() == bs[b]);
        assert(unit_instrs(bs.take(b + 1)) == unit_instrs(bs.take(b)) + bs[b].instructions@);
        assert(unit_instrs(bs.take(b)) + tail_instrs(bs, b) =~= unit_instrs(bs.take(b + 1))
            + tail_instrs(bs, b + 1));
    }
}

/// Whether a register holds a pointer: it is written by a map lookup.
pub open spec fn is_ptr_result(instrs: Seq<Instruction>, id: u32) -> bool {
    exists|i: int|
        0 <= i < instrs.len() && (#[trigger] instrs[i]).opcode is CallMap && instrs[i].result.0
            == id
}

proof fn lemma_ptr_head(instrs: Seq<Instruction>)
    requires
        instrs.len() > 0,
    ensures
        forall|id: u32|
            #[trigger] is_ptr_result(instrs, id) <==> ((instrs[0].opcode is CallMap
                && instrs[0].result.0 == id) || is_ptr_result(instrs.drop_first(), id)),
{
    assert forall|id: u32|
        #[trigger] is_ptr_result(instrs, id) <==> ((instrs[0].opcode is CallMap
            && instrs[0].result.0 == id) || is_ptr_result(instrs.drop_first(), id)) by {
        if is_ptr_result(instrs, id) {
            let k = choose|k: int|
                0 <= k < instrs.len() && (#[trigger] instrs[k]).opcode is CallMap
                    && instrs[k].result.0 == id;
            if k > 0 {
                assert(instrs.drop_first()[k - 1] == instrs[k]);
                assert(is_ptr_result(instrs.drop_first(), id));
            }
        }
        if is_ptr_result(instrs.drop_first(), id) {
            let k = choose|k: int|
                0 <= k < instrs.drop_first().len() && (#[trigger] instrs.drop_first()[
                    k
                ]).opcode is CallMap && instrs.drop_first()[k].result.0 == id;
            assert(instrs[k + 1] == instrs.drop_first()[k]);
            assert(is_ptr_result(instrs, id));
        }
        if instrs[0].opcode is CallMap && instrs[0].result.0 == id {
            assert(is_ptr_result(instrs, id));
        }
    };
}

/// The text of one operand: a register name, a decimal immediate, or a
/// raw name.
pub open spec fn operand_text(op: Operand) -> Seq<char> {
    match op {
        Operand::Var(v) => "v"@ + dec_str(v.0 as int),
        Operand::Immediate(n) => int_str(n as int),
        Operand::String(s) => s@,
    }
}

fn append_operand(out: &mut String, op: &Operand)
    ensures
        final(out)@ == old(out)@ + operand_text(*op),
{
    match op {
        Operand::Var(v) => {
            out.append("v");
            append_u64(out, v.0 as u64);
            proof {
                assert(out@ =~= old(out)@ + operand_text(*op));
            }
        },
        Operand::Immediate(n) => {
            append_i64(out, *n);
        },
        Operand::String(s) => {
            out.append(s.as_str());
        },
    }
}

/// The symbol of a binary operator.
pub open spec fn binop_text(op: BinaryOp) -> Seq<char> {
    match op {
        BinaryOp::Add => "+"@,
        BinaryOp::Sub => "-"@,
        BinaryOp::Mul => "*"@,
        BinaryOp::Div => "/"@,
        BinaryOp::Mod => "%"@,
        BinaryOp::BitAnd => "&"@,
        BinaryOp::BitOr => "|"@,
        BinaryOp::BitXor => "^"@,
        BinaryOp::LShift => "<<"@,
        BinaryOp::RShift => ">>"@,
        BinaryOp::Eq => "=="@,
        BinaryOp::Neq => "!="@,
        BinaryOp::Lt => "<"@,
        BinaryOp::Gt => ">"@,
        BinaryOp::Le => "<="@,
        BinaryOp::Ge => ">="@,
    }
}

fn append_binop(out: &mut String, op: BinaryOp)
    ensures
        final(out)@ == old(out)@ + binop_text(op),
{
    match op {
        BinaryOp::Add => out.append("+"),
        BinaryOp::Sub => out.append("-"),
        BinaryOp::Mul => out.append("*"),
        BinaryOp::Div => out.append("/"),
        BinaryOp::Mod => out.append("%"),
        BinaryOp::BitAnd => out.append("&"),
        BinaryOp::BitOr => out.append("|"),
        BinaryOp::BitXor => out.append("^"),
        BinaryOp::LShift => out.append("<<"),
        BinaryOp::RShift => out.append(">>"),
        BinaryOp::Eq => out.append("=="),
        BinaryOp::Neq => out.append("!="),
        BinaryOp::Lt => out.append("<"),
        BinaryOp::Gt => out.append(">"),
        BinaryOp::Le => out.append("<="),
        BinaryOp::Ge => out.append(">="),
    }
}

/// The declaration line for one register at its first sight.
pub open spec fn decl_line(ins: Instruction, is_ptr: bool) -> Seq<char> {
    "    "@ + ctype_text(ins.result_type) + (if is_ptr {
        " *v"@
    } else {
        " v"@
    }) + dec_str(ins.result.0 as int) + " = 0;\n"@
}

/// The declaration lines for the instructions in `rest`, skipping
/// registers already declared in `seen`; pointerness is judged against
/// the whole unit.
pub open spec fn decls_text(all: Seq<Instruction>, rest: Seq<Instruction>, seen: Set<u32>) -> Seq<
    char,
>
    decreases rest.len(),
{
    if rest.len() == 0 {
        Seq::empty()
    } else {
        let ins = rest[0];
        if seen.contains(ins.result.0) {
            decls_text(all, rest.drop_first(), seen)
        } else {
            decl_line(ins, is_ptr_result(all, ins.result.0)) + decls_text(
                all,
                rest.drop_first(),
                seen.insert(ins.result.0),
            )
        }
    }
}

/// The statement text of one instruction, given whether a null check's
/// conditional block is open.
pub open spec fn instr_text(ins: Instruction, in_if: bool) -> Seq<char> {
    match ins.opcode {
        Opcode::Binary { op } => if ins.operands@.len() >= 2 {
            "    v"@ + dec_str(ins.result.0 as int) + " = "@ + operand_text(ins.operands@[0])
                + " "@ + binop_text(op) + " "@ + operand_text(ins.operands@[1]) + ";\n"@
        } else {
            Seq::empty()
        },
        Opcode::LoadKey => if ins.operands@.len() >= 1 {
            "    v"@ + dec_str(ins.result.0 as int) + " = "@ + operand_text(ins.operands@[0])
                + ";\n"@
        } else {
            Seq::empty()
        },
        Opcode::CallMap { map_name } => if ins.operands@.len() >= 1 {
            "    v"@ + dec_str(ins.result.0 as int) + " = bpf_map_lookup_elem(&"@ + map_name@
                + ", &"@ + operand_text(ins.operands@[0]) + ");\n"@
        } else {
            Seq::empty()
        },
        Opcode::NullCheck => if ins.operands@.len() >= 1 {
            "    if ("@ + operand_text(ins.operands@[0]) + ") {\n"@
        } else {
            Seq::empty()
        },
        Opcode::Store { .. } => (if ins.operands@.len() >= 2 {
            "        *"@ + operand_text(ins.operands@[0]) + " = "@ + operand_text(
                ins.operands@[1],
            ) + ";\n"@
        } else {
            Seq::empty()
        }) + (if in_if {
            "    }\n"@
        } else {
            Seq::empty()
        }),
        _ => Seq::empty(),
    }
}

/// Whether a conditional block is open after the instruction.
pub open spec fn in_if_after(ins: Instruction, in_if: bool) -> bool {
    match ins.opcode {
        Opcode::NullCheck => if ins.operands@.len() >= 1 {
            true
        } else {
            in_if
        },
        Opcode::Store { .. } => false,
        _ => in_if,
    }
}

/// The body text for the instructions in `rest`.
pub open spec fn body_text(rest: Seq<Instruction>, in_if: bool) -> Seq<char>
    decreases rest.len(),
{
    if rest.len() == 0 {
        Seq::empty()
    } else {
        instr_text(rest[0], in_if) + body_text(rest.drop_first(), in_if_after(rest[0], in_if))
    }
}

/// The whole text of one tracepoint handler.
pub open spec fn tracepoint_text(u: UnitIr, sec: Seq<char>) -> Seq<char> {
    license_text(u.license@) + "SEC(\""@ + sec + "\")\nint "@ + u.name@
        + "(void *ctx) {\n    (void)ctx;\n"@ + decls_text(
        unit_instrs(u.blocks@),
        unit_instrs(u.blocks@),
        Set::empty(),
    ) + body_text(unit_instrs(u.blocks@), false) + "    return 0;\n}\n"@
}

fn in_list(v: &Vec<u32>, id: u32) -> (r: bool)
    ensures
        r == v@.contains(id),
{
    let mut i: usize = 0;
    while i < v.len()
        invariant
            i <= v@.len(),
            forall|j: int| 0 <= j < i ==> v@[j] != id,
        decreases v@.len() - i,
    {
        if v[i] == id {
            assert(v@.contains(id));
            return true;
        }
        i += 1;
    }
    proof {
        if v@.contains(id) {
            let j = choose|j: int| 0 <= j < v@.len() && v@[j] == id;
            assert(false);
        }
    }
    false
}

/// Collects the registers written by map lookups anywhere in the unit.
#[verifier::loop_isolation(false)]
fn collect_ptr_vars(blocks: &Vec<BasicBlock>) -> (r: Vec<u32>)
    ensures
        forall|id: u32| r@.contains(id) <==> is_ptr_result(unit_instrs(blocks@), id),
{
    let ghost all = unit_instrs(blocks@);
    let mut ptrs: Vec<u32> = Vec::new();
    let ghost mut rest = all;
    proof {
        lemma_unit_tail(blocks@, 0);
        assert(blocks@.take(0) =~= Seq::<BasicBlock>::empty());
        assert(all =~= tail_instrs(blocks@, 0));
    }
    let mut b: usize = 0;
    while b < blocks.len()
        invariant
            b <= blocks@.len(),
            rest == tail_instrs(blocks@, b as int),
            forall|id: u32|
                is_ptr_result(all, id) <==> (ptrs@.contains(id) || is_ptr_result(rest, id)),
        decreases blocks@.len() - b,
    {
        let blk = &blocks[b];
        let ghost blkrest = blk.instructions@;
        proof {
            assert(rest =~= blkrest + tail_instrs(blocks@, b as int + 1));
        }
        let mut i: usize = 0;
        while i < blk.instructions.len()
            invariant
                i <= blk.instructions@.len(),
                blk == blocks@[b as int],
                b < blocks@.len(),
                rest == blk.instructions@.skip(i as int) + tail_instrs(blocks@, b as int + 1),
                forall|id: u32|
                    is_ptr_result(all, id) <==> (ptrs@.contains(id) || is_ptr_result(rest, id)),
            decreases blk.instructions@.len() - i,
        {
            let ins = &blk.instructions[i];
            proof {
                assert(rest[0] == blk.instructions@[i as int]);
                lemma_ptr_head(rest);
            }
            let is_lookup = match &ins.opcode {
                Opcode::CallMap { .. } => true,
                _ => false,
            };
            if is_lookup {
                let id = ins.result.0;
                if !in_list(&ptrs, id) {
                    let ghost old_ptrs = ptrs@;
                    ptrs.push(id);
                    proof {
                        assert forall|x: u32| ptrs@.contains(x) <==> (old_ptrs.contains(x) || x
                            == id) by {
                            if ptrs@.contains(x) {
                                let j = choose|j: int| 0 <= j < ptrs@.len() && ptrs@[j] == x;
                                if j < old_ptrs.len() {
                                    assert(old_ptrs[j] == x);
                                }
                            }
                            if old_ptrs.contains(x) {
                                let j = choose|j: int|
                                    0 <= j < old_ptrs.len() && old_ptrs[j] == x;
                                assert(ptrs@[j] == x);
                            }
                            if x == id {
                                assert(ptrs@[ptrs@.len() - 1] == x);
                            }
                        };
                    }
                }
            }
            proof {
                rest = rest.drop_first();
                assert(rest =~= blk.instructions@.skip(i as int + 1) + tail_instrs(
                    blocks@,
                    b as int + 1,
                ));
            }
            i += 1;
        }
        proof {
            assert(blk.instructions@.skip(i as int) =~= Seq::<Instruction>::empty());
            assert(rest =~= tail_instrs(blocks@, b as int + 1));
        }
        b += 1;
    }
    proof {
        assert(rest =~= Seq::<Instruction>::empty());
    }
    ptrs
}

/// Declares every register of the unit exactly once, at first sight,
/// marking pointer-valued registers.
#[verifier::loop_isolation(false)]
#[verifier::rlimit(100)]
#[verifier::spinoff_prover]
fn emit_decls(out: &mut String, blocks: &Vec<BasicBlock>, pointer_vars: &Vec<u32>)
    requires
        forall|id: u32|
            pointer_vars@.contains(id) <==> is_ptr_result(unit_instrs(blocks@), id),
    ensures
        final(out)@ == old(out)@ + decls_text(
            unit_instrs(blocks@),
            unit_instrs(blocks@),
            Set::empty(),
        ),
{
    let ghost all = unit_instrs(blocks@);
    let mut seen: Vec<u32> = Vec::new();
    let ghost mut seen_track: Set<u32> = Set::empty();
    let ghost mut rest = all;
    proof {
        lemma_unit_tail(blocks@, 0);
        assert(blocks@.take(0) =~= Seq::<BasicBlock>::empty());
        assert(all =~= tail_instrs(blocks@, 0));
    }
    let mut b: usize = 0;
    while b < blocks.len()
        invariant
            b <= blocks@.len(),
            rest == tail_instrs(blocks@, b as int),
            forall|id: u32| seen@.contains(id) <==> seen_track.contains(id),
            old(out)@ + decls_text(all, all, Set::empty()) == out@ + decls_text(
                all,
                rest,
                seen_track,
            ),
        decreases blocks@.len() - b,
    {
        let blk = &blocks[b];
        proof {
            assert(rest =~= blk.instructions@ + tail_instrs(blocks@, b as int + 1));
        }
        let mut i: usize = 0;
        while i < blk.instructions.len()
            invariant
                i <= blk.instructions@.len(),
                blk == blocks@[b as int],
                b < blocks@.len(),
                rest == blk.instructions@.skip(i as int) + tail_instrs(blocks@, b as int + 1),
                forall|id: u32| seen@.contains(id) <==> seen_track.contains(id),
                old(out)@ + decls_text(all, all, Set::empty()) == out@ + decls_text(
                    all,
                    rest,
                    seen_track,
                ),
            decreases blk.instructions@.len() - i,
        {
            let ins = &blk.instructions[i];
            let id = ins.result.0;
            proof {
                assert(rest[0] == blk.instructions@[i as int]);
            }
            if !in_list(&seen, id) {
                let ghost old_seen = seen@;
                seen.push(id);
                let is_ptr = in_list(&pointer_vars, id);
                out.append("    ");
                append_ctype(out, ins.result_type);
                if is_ptr {
                    out.append(" *v");
                } else {
                    out.append(" v");
                }
                append_u64(out, id as u64);
                out.append(" = 0;\n");
                proof {
                    assert forall|x: u32| seen@.contains(x) <==> (old_seen.contains(x) || x
                        == id) by {
                        if seen@.contains(x) {
                            let j = choose|j: int| 0 <= j < seen@.len() && seen@[j] == x;
                            if j < old_seen.len() {
                                assert(old_seen[j] == x);
                            }
                        }
                        if old_seen.contains(x) {
                            let j = choose|j: int| 0 <= j < old_seen.len() && old_seen[j] == x;
                            assert(seen@[j] == x);
                        }
                        if x == id {
                            assert(seen@[seen@.len() - 1] == x);
                        }
                    };
                    seen_track = seen_track.insert(id);
                    rest = rest.drop_first();
                    assert(rest =~= blk.instructions@.skip(i as int + 1) + tail_instrs(
                        blocks@,
                        b as int + 1,
                    ));
                    assert(old(out)@ + decls_text(all, all, Set::empty()) =~= out@
                        + decls_text(all, rest, seen_track));
                }
            } else {
                proof {
                    rest = rest.drop_first();
                    assert(rest =~= blk.instructions@.skip(i as int + 1) + tail_instrs(
                        blocks@,
                        b as int + 1,
                    ));
                }
            }
            i += 1;
        }
        proof {
            assert(blk.instructions@.skip(i as int) =~= Seq::<Instruction>::empty());
            assert(rest =~= tail_instrs(blocks@, b as int + 1));
        }
        b += 1;
    }
    proof {
        assert(rest =~= Seq::<Instruction>::empty());
        assert(out@ =~= old(out)@ + decls_text(all, all, Set::empty()));
    }
}

/// Walks the unit's instructions in order, rebuilding structured
/// conditionals from null-check/store pairs.
#[verifier::loop_isolation(false)]
#[verifier::rlimit(100)]
#[verifier::spinoff_prover]
fn emit_body(out: &mut String, blocks: &Vec<BasicBlock>)
    ensures
        final(out)@ == old(out)@ + body_text(unit_instrs(blocks@), false),
{
    let ghost all = unit_instrs(blocks@);
    let mut in_if_block = false;
    let ghost mut wrest = all;
    proof {
        lemma_unit_tail(blocks@, 0);
        assert(blocks@.take(0) =~= Seq::<BasicBlock>::empty());
        assert(all =~= tail_instrs(blocks@, 0));
    }
    let mut wb: usize = 0;
    while wb < blocks.len()
        invariant
            wb <= blocks@.len(),
            wrest == tail_instrs(blocks@, wb as int),
            old(out)@ + body_text(all, false) == out@ + body_text(wrest, in_if_block),
        decreases blocks@.len() - wb,
    {
        let blk = &blocks[wb];
        proof {
            assert(wrest =~= blk.instructions@ + tail_instrs(blocks@, wb as int + 1));
        }
        let mut i: usize = 0;
        while i < blk.instructions.len()
            invariant
                i <= blk.instructions@.len(),
                blk == blocks@[wb as int],
                wb < blocks@.len(),
                wrest == blk.instructions@.skip(i as int) + tail_instrs(
                    blocks@,
                    wb as int + 1,
                ),
                old(out)@ + body_text(all, false) == out@ + body_text(wrest, in_if_block),
            decreases blk.instructions@.len() - i,
        {
            let ins = &blk.instructions[i];
            proof {
                assert(wrest[0] == blk.instructions@[i as int]);
            }
            let ghost before = out@;
            let ghost if0 = in_if_block;
            match &ins.opcode {
                Opcode::Binary { op } => {
                    if ins.operands.len() >= 2 {
                        out.append("    v");
                        append_u64(out, ins.result.0 as u64);
                        out.append(" = ");
                        append_operand(out, &ins.operands[0]);
                        out.append(" ");
                        append_binop(out, *op);
                        out.append(" ");
                        append_operand(out, &ins.operands[1]);
                        out.append(";\n");
                    }
                },
                Opcode::LoadKey => {
                    if ins.operands.len() >= 1 {
                        out.append("    v");
                        append_u64(out, ins.result.0 as u64);
                        out.append(" = ");
                        append_operand(out, &ins.operands[0]);
                        out.append(";\n");
                    }
                },
                Opcode::CallMap { map_name } => {
                    if ins.operands.len() >= 1 {
                        out.append("    v");
                        append_u64(out, ins.result.0 as u64);
                        out.append(" = bpf_map_lookup_elem(&");
                        out.append(map_name.as_str());
                        out.append(", &");
                        append_operand(out, &ins.operands[0]);
                        out.append(");\n");
                    }
                },
                Opcode::NullCheck => {
                    if ins.operands.len() >= 1 {
                        out.append("    if (");
                        append_operand(out, &ins.operands[0]);
                        out.append(") {\n");
                        in_if_block = true;
                    }
                },
                Opcode::Store { .. } => {
                    if ins.operands.len() >= 2 {
                        out.append("        *");
                        append_operand(out, &ins.operands[0]);
                        out.append(" = ");
                        append_operand(out, &ins.operands[1]);
                        out.append(";\n");
                    }
                    if in_if_block {
                        out.append("    }\n");
                        in_if_block = false;
                    }
                },
                _ => {},
            }
            proof {
                assert(out@ =~= before + instr_text(wrest[0], if0));
                assert(in_if_block == in_if_after(wrest[0], if0));
                wrest = wrest.drop_first();
                assert(wrest =~= blk.instructions@.skip(i as int + 1) + tail_instrs(
                    blocks@,
                    wb as int + 1,
                ));
            }
            i += 1;
        }
        proof {
            assert(blk.instructions@.skip(i as int) =~= Seq::<Instruction>::empty());
            assert(wrest =~= tail_instrs(blocks@, wb as int + 1));
        }
        wb += 1;
    }
    proof {
        assert(wrest =~= Seq::<Instruction>::empty());
        assert(out@ =~= old(out)@ + body_text(all, false));
    }
}

/// Emits one tracepoint handler, lowering the unit's IR to statements.
pub fn emit_tracepoint(out: &mut String, unit: &UnitIr, sec: &str)
    ensures
        final(out)@ == old(out)@ + tracepoint_text(*unit, sec@),
{
    emit_license(out, unit.license.as_str());
    out.append("SEC(\"");
    out.append(sec);
    out.append("\")\nint ");
    out.append(unit.name.as_str());
    out.append("(void *ctx) {\n    (void)ctx;\n");

    let pointer_vars = collect_ptr_vars(&unit.blocks);
    emit_decls(out, &unit.blocks, &pointer_vars);
    emit_body(out, &unit.blocks);

    out.append("    return 0;\n}\n");
    proof {
        assert(out@ =~= old(out)@ + tracepoint_text(*unit, sec@));
    }
}

} // verus!
