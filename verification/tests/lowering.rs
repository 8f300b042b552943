//! Lowering to the intermediate representation: block splitting for
//! guards, fresh-register rebinding for reassignment, compound-assignment
//! sequences for pointer targets, and the error cases.

use solnix::ast::{Assignment, AssignmentOp, Expr, ExprKind, IfGuard, Stmt, StmtKind, Type, Unit,
    VarDecl, VarType};
use solnix::ir::instruction::VarId;
use solnix::ir::unit::{BasicBlock, BlockId, LowerCtx, lower_statement};
use solnix::token::SourceLoc;
use solnix::ir::instruction::{BinaryOp, Opcode, Operand};
use solnix::ir::program::lower_program;
use solnix::ir::unit::{Terminator, UnitIr};
use solnix::parser::parse;

fn lower_unit(src: &str) -> UnitIr {
    let prog = parse(src).expect("parse failed");
    UnitIr::lower(&prog.units[0]).expect("lowering failed")
}

#[test]
fn straight_line_unit_lowers_to_one_block() {
    let ir = lower_unit("unit u { section: \"xdp\"; license: \"GPL\"; reg x = 1; return x; }");
    assert_eq!(ir.name, "u");
    assert_eq!(ir.license, "GPL");
    assert_eq!(ir.blocks.len(), 1);
    assert!(matches!(
        &ir.blocks[0].terminator,
        Terminator::Return(Operand::Var(_))
    ));
}

#[test]
fn missing_license_defaults_to_gpl() {
    let ir = lower_unit("unit u { section: \"xdp\"; return 0; }");
    assert_eq!(ir.license, "GPL");
}

#[test]
fn guard_adds_exactly_three_blocks_and_continues_in_merge() {
    let ir = lower_unit(
        "unit u { reg x = 1; if guard(x) { x += 1; } return x; }",
    );
    // One guard: the entry chain plus the guard's three blocks.
    assert_eq!(ir.blocks.len(), 4);
    // The block carrying the branch ends in a two-way branch.
    assert!(matches!(&ir.blocks[0].terminator, Terminator::Branch { .. }));
    // The null check is the last instruction before the branch.
    let last = ir.blocks[0].instructions.last().unwrap();
    assert!(matches!(&last.opcode, Opcode::NullCheck));
}

#[test]
fn nested_guards_add_three_blocks_each() {
    let ir = lower_unit(
        "unit u { reg x = 1; reg y = 2; if guard(x) { if guard(y) { y += 1; } } return x; }",
    );
    assert_eq!(ir.blocks.len(), 7);
}

#[test]
fn reassignment_binds_a_fresh_register() {
    let ir = lower_unit("unit u { reg x = 1; x += 2; return x; }");
    let instrs = &ir.blocks[0].instructions;
    // Declaration materialises x, the compound assignment adds onto it.
    let decl = &instrs[0];
    let add = &instrs[1];
    assert!(matches!(add.opcode, Opcode::Binary { op: BinaryOp::Add }));
    assert!(matches!(&add.operands[0], Operand::Var(v) if *v == decl.result));
    assert_ne!(add.result, decl.result, "rebinding must allocate a fresh register");
    // The returned operand is the fresh register, not the original.
    assert!(matches!(&ir.blocks[0].terminator, Terminator::Return(Operand::Var(v)) if *v == add.result));
}

#[test]
fn plain_reassignment_also_rebinds() {
    let ir = lower_unit("unit u { reg x = 1; x = 2; return x; }");
    let instrs = &ir.blocks[0].instructions;
    assert_ne!(instrs[1].result, instrs[0].result);
}

#[test]
fn registers_are_written_exactly_once() {
    let ir = lower_unit(
        "unit u { reg x = 1; x += 2; if guard(x) { x += 3; } heap h = m.lookup(x); *h += 1; return x; }",
    );
    let mut written = Vec::new();
    for b in &ir.blocks {
        for ins in &b.instructions {
            assert!(
                !written.contains(&ins.result),
                "register {:?} written twice",
                ins.result
            );
            written.push(ins.result);
        }
    }
}

#[test]
fn pointer_increment_lowers_to_load_add_store() {
    let ir = lower_unit("unit u { heap h = m.lookup(1); *h += 5; return 0; }");
    let instrs = &ir.blocks[0].instructions;
    let kinds: Vec<&str> = instrs
        .iter()
        .map(|i| match &i.opcode {
            Opcode::CallMap { .. } => "lookup",
            Opcode::LoadKey => "load",
            Opcode::Binary { .. } => "binary",
            Opcode::Store { .. } => "store",
            _ => "other",
        })
        .collect();
    assert_eq!(kinds, vec!["lookup", "load", "binary", "store"]);
    // The store is eight bytes wide and targets the pointer register.
    match &instrs[3].opcode {
        Opcode::Store { size } => assert_eq!(*size, 8),
        other => panic!("unexpected opcode: {:?}", other),
    }
}

#[test]
fn context_loads_dispatch_on_offset_sign() {
    let ir = lower_unit(
        "unit u { reg a = ctx.load_u32(26); reg b = ctx.load_u64(-8); return a; }",
    );
    let instrs = &ir.blocks[0].instructions;
    match &instrs[0].opcode {
        Opcode::LoadPacket { offset, size } => {
            assert_eq!(*offset, 26);
            assert_eq!(*size, 4);
        }
        other => panic!("unexpected opcode: {:?}", other),
    }
    assert_eq!(instrs[0].result_type, Type::U32);
    match &instrs[2].opcode {
        Opcode::LoadCtx { offset, size } => {
            assert_eq!(*offset, -8);
            assert_eq!(*size, 8);
        }
        other => panic!("unexpected opcode: {:?}", other),
    }
    assert_eq!(instrs[2].result_type, Type::U64);
}

#[test]
fn map_lookup_expression_records_the_map_name() {
    let ir = lower_unit("unit u { reg v = counters.lookup(7); return v; }");
    match &ir.blocks[0].instructions[0].opcode {
        Opcode::CallMap { map_name } => assert_eq!(map_name, "counters"),
        other => panic!("unexpected opcode: {:?}", other),
    }
}

#[test]
fn undefined_variable_is_a_lowering_error() {
    let prog = parse("unit u { return nope; }").unwrap();
    assert!(UnitIr::lower(&prog.units[0]).is_err());
}

#[test]
fn undefined_guard_variable_is_a_lowering_error() {
    let prog = parse("unit u { if guard(ghostvar) { return 1; } return 0; }").unwrap();
    assert!(UnitIr::lower(&prog.units[0]).is_err());
}

#[test]
fn non_immediate_context_offset_is_a_lowering_error() {
    let prog = parse("unit u { reg a = 1; reg b = ctx.load_u32(a); return b; }").unwrap();
    assert!(UnitIr::lower(&prog.units[0]).is_err());
}

#[test]
fn unknown_context_method_is_a_lowering_error() {
    let prog = parse("unit u { reg a = ctx.load_u128(0); return a; }").unwrap();
    assert!(UnitIr::lower(&prog.units[0]).is_err());
}

#[test]
fn unknown_method_is_a_lowering_error() {
    let prog = parse("unit u { reg a = m.fetchx(0); return a; }").unwrap();
    assert!(UnitIr::lower(&prog.units[0]).is_err());
}

#[test]
fn bindings_cross_guard_scopes() {
    // A name declared inside a guard body stays bound afterwards.
    let ir = lower_unit(
        "unit u { reg x = 1; if guard(x) { reg y = 2; } return y; }",
    );
    assert_eq!(ir.blocks.len(), 4);
}

#[test]
fn program_lowering_resolves_maps_first() {
    let prog = parse(
        "map a { type: .hash; key: u32; value: u64; max: 9; }\n\
         map b { type: .ringbuf; key: u32; value: u64; max: 4096; }\n\
         unit u { section: \"xdp\"; license: \"GPL\"; return 0; }",
    )
    .unwrap();
    let pir = lower_program(&prog).unwrap();
    assert_eq!(pir.maps.len(), 2);
    assert_eq!(pir.maps[0].name, "a");
    assert_eq!(pir.maps[0].fd, -1);
    assert_eq!(pir.maps[1].max_entries, 4096);
    assert_eq!(pir.units.len(), 1);
}

#[test]
fn non_variable_guard_condition_is_defended_against() {
    // The parser only accepts bare variables as guard conditions; lowering
    // still rejects any other shape on a hand-built tree.
    let loc = SourceLoc::new(1, 1, 0);
    let unit = Unit {
        name: "u".to_string(),
        loc,
        sections: vec!["xdp".to_string()],
        license: Some("GPL".to_string()),
        body: vec![Stmt {
            kind: StmtKind::IfGuard(IfGuard {
                condition: Expr { kind: ExprKind::Number(1), loc },
                body: Vec::new(),
            }),
            loc,
        }],
    };
    assert!(UnitIr::lower(&unit).is_err());
}

#[test]
fn block_ids_are_unique_and_targets_resolve() {
    let ir = lower_unit(
        "unit u { reg x = 1; if guard(x) { x += 1; if guard(x) { x += 2; } } return x; }",
    );
    let mut ids = Vec::new();
    for b in &ir.blocks {
        assert!(!ids.contains(&b.id), "block id {:?} duplicated", b.id);
        ids.push(b.id);
    }
    for b in &ir.blocks {
        let targets: Vec<_> = match &b.terminator {
            Terminator::Return(_) => Vec::new(),
            Terminator::Jump(t) => vec![*t],
            Terminator::Branch { true_block, false_block, .. } => {
                vec![*true_block, *false_block]
            }
        };
        for t in targets {
            assert!(ids.contains(&t), "terminator names absent block {:?}", t);
        }
    }
}

#[test]
fn statement_lowering_rebinds_through_the_symbol_table() {
    let loc = SourceLoc::new(1, 1, 0);
    let mut ctx = LowerCtx::new();
    let mut ir = solnix::ir::unit::UnitIr {
        name: "u".to_string(),
        sections: vec!["xdp".to_string()],
        license: "GPL".to_string(),
        blocks: Vec::new(),
        next_var_id: 0,
    };
    let mut block = BasicBlock {
        id: BlockId(0),
        instructions: Vec::new(),
        terminator: Terminator::Return(Operand::Immediate(0)),
    };
    let mut next_block: u32 = 1;

    let decl = Stmt {
        kind: StmtKind::VarDecl(VarDecl {
            name: "x".to_string(),
            var_type: VarType::Reg,
            value: Box::new(Expr { kind: ExprKind::Number(1), loc }),
        }),
        loc,
    };
    lower_statement(&decl, &mut ctx, &mut ir, &mut block, &mut next_block)
        .expect("declaration failed");
    let first: VarId = ctx.lookup("x").expect("x unbound after declaration");

    let bump = Stmt {
        kind: StmtKind::Assignment(Assignment {
            target: Box::new(Expr { kind: ExprKind::Variable("x".to_string()), loc }),
            op: AssignmentOp::AddAssign,
            value: Box::new(Expr { kind: ExprKind::Number(2), loc }),
        }),
        loc,
    };
    lower_statement(&bump, &mut ctx, &mut ir, &mut block, &mut next_block)
        .expect("compound assignment failed");
    let second = ctx.lookup("x").expect("x unbound after reassignment");
    assert_ne!(first, second, "reassignment must bind a fresh register");
}
