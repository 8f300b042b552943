//! The compilation pipeline: parse, validate, lower, emit, in that order
//! and fail-fast. `compile_program` carries the staging law for the three
//! verified back stages — which stage's error is returned on which
//! programs, and when the emitted text is owed; `compile_source` puts the
//! parser in front and rejects empty input before the lexer ever runs.

use vstd::prelude::*;
use crate::ast::Program;
use crate::diagnostics::DiagnosticReporter;
use crate::emit::program::{dispatchable_section, emit_program, first_section,
    lemma_units_text_dispatch};
use crate::ir::program::lower_program;
use crate::ir::unit::{stmts_ok, stmts_size};
use crate::ir::LoweringError;
use crate::parser::{parse, ParseError};
use crate::sema::{check_program, prog_result, prog_diags, SemanticError};

verus! {

/// Why a compilation failed: which stage rejected the program, with the
/// stage's own error.
#[derive(Debug)]
pub enum CompileError {
    EmptyInput,
    Parse(ParseError),
    Semantic(SemanticError),
    Lowering(LoweringError),
    Emit(String),
}

/// Every unit body of the program is lowerable: every statement refers
/// only to names already bound.
pub open spec fn units_lower_ok(p: Program) -> bool {
    forall|k: int|
        0 <= k < p.units@.len() ==> stmts_ok((#[trigger] p.units@[k]).body@, Set::empty())
}

/// Every unit body fits the machine's register and block id budget.
pub open spec fn units_within_budget(p: Program) -> bool {
    forall|k: int|
        0 <= k < p.units@.len() ==> 3 * stmts_size((#[trigger] p.units@[k]).body@) + 1
            <= u32::MAX
}

/// Every unit's first section is in the emitter dispatch table.
pub open spec fn units_dispatchable(p: Program) -> bool {
    forall|k: int|
        0 <= k < p.units@.len() ==> dispatchable_section(
            first_section((#[trigger] p.units@[k]).sections@),
        )
}

/// Runs the verified back half of the pipeline on a parsed program:
/// semantic validation first, then lowering, then emission — fail-fast,
/// with each stage's error reported as that stage's and no other's.
pub fn compile_program(program: &Program, diagnostics: &mut DiagnosticReporter) -> (r: Result<
    String,
    CompileError,
>)
    ensures
        final(diagnostics)@ == old(diagnostics)@ + prog_diags(*program),
        prog_result(*program) matches Some(e) ==> r == Err::<String, CompileError>(
            CompileError::Semantic(e),
        ),
        prog_result(*program) is None && !units_lower_ok(*program) ==> (r matches Err(e)
            && e is Lowering),
        prog_result(*program) is None && units_lower_ok(*program) && units_within_budget(
            *program,
        ) && units_dispatchable(*program) ==> r is Ok,
        prog_result(*program) is None && units_lower_ok(*program) && units_within_budget(
            *program,
        ) && !units_dispatchable(*program) ==> (r matches Err(e) && e is Emit),
        r is Ok ==> prog_result(*program) is None && units_lower_ok(*program)
            && units_dispatchable(*program),
        r matches Err(e) ==> (e is Semantic || e is Lowering || e is Emit),
{
    match check_program(program, diagnostics) {
        Ok(()) => {},
        Err(e) => {
            return Err(CompileError::Semantic(e));
        },
    }

    let program_ir = match lower_program(program) {
        Ok(p) => p,
        Err(e) => {
            return Err(CompileError::Lowering(e));
        },
    };

    proof {
        lemma_units_text_dispatch(program_ir.units@, 0);
        assert forall|k: int|
            0 <= k < program_ir.units@.len() implies crate::emit::program::sec0(
            #[trigger] program_ir.units@[k],
        ) == first_section(program.units@[k].sections@) by {
            assert(program_ir.units@[k].sections@ == program.units@[k].sections@);
        };
        if units_dispatchable(*program) {
            assert forall|k: int|
                0 <= k < program_ir.units@.len() implies dispatchable_section(
                crate::emit::program::sec0(#[trigger] program_ir.units@[k]),
            ) by {
                assert(dispatchable_section(first_section(program.units@[k].sections@)));
            };
        }
        if forall|k: int|
            0 <= k < program_ir.units@.len() ==> dispatchable_section(
                crate::emit::program::sec0(#[trigger] program_ir.units@[k]),
            ) {
            assert forall|k: int|
                0 <= k < program.units@.len() implies dispatchable_section(
                first_section((#[trigger] program.units@[k]).sections@),
            ) by {
                assert(dispatchable_section(crate::emit::program::sec0(
                    program_ir.units@[k],
                )));
            };
        }
    }
    match emit_program(&program_ir) {
        Ok(text) => Ok(text),
        Err(e) => Err(CompileError::Emit(e)),
    }
}

/// Compiles source text to target text. Empty input fails immediately
/// with the empty-input error, before the lexer runs; no other input is
/// reported as empty. The parsed program then goes through
/// `compile_program`, whose contract fixes the order of the remaining
/// stages.
pub fn compile_source(src: &str) -> (r: Result<String, CompileError>)
    ensures
        src@.len() == 0 <==> (r matches Err(e) && e is EmptyInput),
{
    if src.unicode_len() == 0 {
        return Err(CompileError::EmptyInput);
    }

    let program = match parse(src) {
        Ok(p) => p,
        Err(e) => {
            return Err(CompileError::Parse(e));
        },
    };

    let mut diagnostics = DiagnosticReporter::new();
    compile_program(&program, &mut diagnostics)
}

} // verus!
