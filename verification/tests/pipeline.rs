//! The whole pipeline end to end: the round-trip scenario, the empty
//! input, validation running before lowering, and the session helpers.

use solnix::compiler::{compile_source, CompileError};
use solnix::diagnostics::{CompileDiagnostic, ErrorCategory};
use solnix::emit::maps::append_sanitized_ident;
use solnix::sema::unit::UnitValidationError;
use solnix::sema::SemanticError;
use solnix::source_manager::{FileId, SourceManager, Span};
use solnix::strutil::trim_quote_chars;

#[test]
fn round_trip_hash_map_and_xdp_unit() {
    let src = "map connection_counter { type: .hash; key: u32; value: u64; max: 1024; }\n\
               unit filter_packets {\n\
                 section: \"xdp\";\n\
                 license: \"GPL\";\n\
                 reg k = ctx.load_u32(26);\n\
                 heap count = connection_counter.lookup(k);\n\
                 if guard(count) { *count += 1; }\n\
                 return 1;\n\
               }";
    let text = compile_source(src).expect("compilation failed");
    // The map struct with its capacity.
    assert!(text.contains("__uint(max_entries, 1024);"));
    assert!(text.contains("} connection_counter SEC(\".maps\");"));
    // A handler named after the unit.
    assert!(text.contains("int filter_packets(struct xdp_md *ctx)"));
    // A bounds check before the offset read.
    assert!(text.contains("if (data + 26 + 4 > data_end) return XDP_PASS;"));
    // A store sequence for the increment.
    assert!(text.contains("__sync_fetch_and_add(count_ptr, 1);"));
    // The license marker the loader requires.
    assert!(text.contains("char LICENSE[] SEC(\"license\") = \"GPL\";"));
}

#[test]
fn empty_source_fails_before_the_lexer() {
    let e = compile_source("").unwrap_err();
    assert!(matches!(e, CompileError::EmptyInput));
}

#[test]
fn nonempty_source_never_reports_empty_input() {
    let e = compile_source("garbage !!").unwrap_err();
    assert!(!matches!(e, CompileError::EmptyInput));
}

#[test]
fn unrecognized_section_is_rejected_by_validation_not_lowering() {
    // The body would also fail lowering (an unbound name), but semantic
    // validation runs first and must be the error reported.
    let src = "unit u { section: \"frobnicate\"; license: \"GPL\"; return ghost_name; }";
    let e = compile_source(src).unwrap_err();
    match e {
        CompileError::Semantic(SemanticError::UnitError(k)) => {
            assert_eq!(k, UnitValidationError::InvalidSection);
        }
        other => panic!("expected a semantic error, got {:?}", other),
    }
}

#[test]
fn parse_errors_carry_offsets() {
    let e = compile_source("map { }").unwrap_err();
    match e {
        CompileError::Parse(p) => {
            assert_eq!(p.offset, 4);
            assert!(p.message.starts_with("Expected identifier"));
        }
        other => panic!("expected a parse error, got {:?}", other),
    }
}

#[test]
fn lowering_errors_surface_after_validation() {
    let src = "unit u { section: \"xdp\"; license: \"GPL\"; return missing; }";
    let e = compile_source(src).unwrap_err();
    assert!(matches!(e, CompileError::Lowering(_)));
}

#[test]
fn emission_errors_surface_last() {
    let src = "unit u { section: \"sockops\"; license: \"GPL\"; return 0; }";
    let e = compile_source(src).unwrap_err();
    match e {
        CompileError::Emit(m) => assert_eq!(m, "Unsupported section: sockops"),
        other => panic!("expected an emission error, got {:?}", other),
    }
}

#[test]
fn quote_trimming_strips_both_ends() {
    assert_eq!(trim_quote_chars("\"GPL\""), "GPL");
    assert_eq!(trim_quote_chars("\"\"x\"\""), "x");
    assert_eq!(trim_quote_chars("plain"), "plain");
    assert_eq!(trim_quote_chars("\"\""), "");
}

#[test]
fn sanitized_identifiers_replace_invalid_characters() {
    let mut s = String::new();
    append_sanitized_ident(&mut s, "my-map.v2");
    assert_eq!(s, "my_map_v2");
    let mut s = String::new();
    append_sanitized_ident(&mut s, "9lives");
    assert_eq!(s, "_9lives");
    let mut s = String::new();
    append_sanitized_ident(&mut s, "");
    assert_eq!(s, "_map");
}

#[test]
fn source_manager_hands_out_sequential_ids() {
    let mut sm = SourceManager::new();
    let a = sm.add_file("a.snx".to_string(), "map".to_string());
    let b = sm.add_file("b.snx".to_string(), "unit".to_string());
    assert_eq!(a, FileId(0));
    assert_eq!(b, FileId(1));
    assert_eq!(sm.get(a).unwrap().content, "map");
    assert_eq!(sm.get(b).unwrap().name, "b.snx");
    assert!(sm.get(FileId(2)).is_none());
}

#[test]
fn compile_diagnostics_keep_their_fields() {
    let d = CompileDiagnostic::new(
        "main.snx".to_string(),
        Span { file: FileId(0), start: 3, end: 9 },
        "bad construct".to_string(),
        "here".to_string(),
        ErrorCategory::Parse,
        "E001".to_string(),
    );
    assert_eq!(d.span.start, 3);
    assert_eq!(d.category, ErrorCategory::Parse);
    assert_eq!(d.code, "E001");
}

#[test]
fn compile_program_runs_stages_in_order_and_records_diagnostics() {
    let prog = solnix::parser::parse(
        "unit u { section: \"xdp\"; license: \"MIT\"; return 0; }",
    )
    .unwrap();
    let mut d = solnix::diagnostics::DiagnosticReporter::new();
    let text = solnix::compiler::compile_program(&prog, &mut d).expect("should compile");
    assert!(text.contains("int u(struct xdp_md *ctx)"));
    // The uncommon license warning was recorded on the way through.
    assert_eq!(d.diagnostics().len(), 1);
}
