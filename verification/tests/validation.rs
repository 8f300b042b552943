//! Semantic validation: map name uniqueness and capacity, unit checks,
//! the hook-section grammar, and the determinism of the diagnostics.

use solnix::ast::{Program, Unit};
use solnix::diagnostics::{DiagnosticReporter, Severity};
use solnix::parser::parse;
use solnix::sema::check_program;
use solnix::sema::map::MapValidationError;
use solnix::sema::section::SectionValidator;
use solnix::sema::unit::UnitValidationError;
use solnix::sema::SemanticError;
use solnix::token::SourceLoc;

#[test]
fn valid_map_passes_validation() {
    let prog = parse("map m { type: .hash; key: u32; value: u64; max: 1024; }").unwrap();
    let mut d = DiagnosticReporter::new();
    assert!(check_program(&prog, &mut d).is_ok());
    assert!(d.diagnostics().is_empty());
}

#[test]
fn zero_capacity_map_fails_validation_not_parsing() {
    let prog = parse("map m { type: .hash; key: u32; value: u64; max: 0; }").unwrap();
    let mut d = DiagnosticReporter::new();
    let e = check_program(&prog, &mut d).unwrap_err();
    assert!(matches!(
        e,
        SemanticError::MapError(MapValidationError::InvalidMaxEntries)
    ));
    assert_eq!(d.diagnostics().len(), 1);
    assert_eq!(
        d.diagnostics()[0].message,
        "Map 'max_entries' must be greater than zero"
    );
}

#[test]
fn duplicate_map_name_reports_second_location() {
    let src = "map twin { type: .hash; key: u32; value: u64; max: 1; }\n\
               map twin { type: .array; key: u32; value: u64; max: 2; }";
    let prog = parse(src).unwrap();
    let second_loc = prog.maps[1].loc;
    let mut d = DiagnosticReporter::new();
    let e = check_program(&prog, &mut d).unwrap_err();
    match e {
        SemanticError::MapError(MapValidationError::DuplicateMapName(n)) => {
            assert_eq!(n, "twin");
        }
        other => panic!("unexpected error: {:?}", other),
    }
    assert_eq!(d.diagnostics().len(), 1);
    assert_eq!(d.diagnostics()[0].loc, second_loc);
    assert_eq!(d.diagnostics()[0].severity, Severity::Error);
    assert_eq!(d.diagnostics()[0].message, "Duplicate map name: 'twin'");
}

#[test]
fn unit_without_sections_fails() {
    let prog = parse("unit u { license: \"GPL\"; return 0; }").unwrap();
    let mut d = DiagnosticReporter::new();
    let e = check_program(&prog, &mut d).unwrap_err();
    assert!(matches!(
        e,
        SemanticError::UnitError(UnitValidationError::NoSections)
    ));
}

#[test]
fn unit_with_unrecognized_section_fails() {
    let prog = parse("unit u { section: \"frobnicate\"; license: \"GPL\"; return 0; }").unwrap();
    let mut d = DiagnosticReporter::new();
    let e = check_program(&prog, &mut d).unwrap_err();
    assert!(matches!(
        e,
        SemanticError::UnitError(UnitValidationError::InvalidSection)
    ));
    assert_eq!(
        d.diagnostics()[0].message,
        "Invalid section name: 'frobnicate'"
    );
}

#[test]
fn unit_without_license_fails() {
    let prog = parse("unit u { section: \"xdp\"; return 0; }").unwrap();
    let mut d = DiagnosticReporter::new();
    let e = check_program(&prog, &mut d).unwrap_err();
    assert!(matches!(
        e,
        SemanticError::UnitError(UnitValidationError::MissingLicense)
    ));
    assert_eq!(
        d.diagnostics()[0].message,
        "License is required for eBPF programs"
    );
}

#[test]
fn unit_with_empty_body_fails() {
    let prog = parse("unit u { section: \"xdp\"; license: \"GPL\"; }").unwrap();
    let mut d = DiagnosticReporter::new();
    let e = check_program(&prog, &mut d).unwrap_err();
    assert!(matches!(
        e,
        SemanticError::UnitError(UnitValidationError::NoReturnOrInstructions)
    ));
}

#[test]
fn unknown_license_warns_but_passes() {
    let prog = parse("unit u { section: \"xdp\"; license: \"MIT\"; return 0; }").unwrap();
    let mut d = DiagnosticReporter::new();
    assert!(check_program(&prog, &mut d).is_ok());
    assert_eq!(d.diagnostics().len(), 1);
    assert_eq!(d.diagnostics()[0].severity, Severity::Warning);
    assert_eq!(
        d.diagnostics()[0].message,
        "Unknown license: 'MIT'. Recommended: GPL"
    );
}

#[test]
fn known_licenses_do_not_warn() {
    for lic in ["GPL", "Dual BSD/GPL", "GPL v2", "GPL-2.0"] {
        let src = format!(
            "unit u {{ section: \"xdp\"; license: \"{}\"; return 0; }}",
            lic
        );
        let prog = parse(&src).unwrap();
        let mut d = DiagnosticReporter::new();
        assert!(check_program(&prog, &mut d).is_ok());
        assert!(d.diagnostics().is_empty(), "license {:?} warned", lic);
    }
}

#[test]
fn validating_twice_yields_identical_diagnostics() {
    let src = "map twin { type: .hash; key: u32; value: u64; max: 1; }\n\
               unit u { section: \"xdp\"; license: \"WTFPL\"; return 0; }";
    let prog = parse(src).unwrap();
    let mut d1 = DiagnosticReporter::new();
    let mut d2 = DiagnosticReporter::new();
    let r1 = check_program(&prog, &mut d1);
    let r2 = check_program(&prog, &mut d2);
    assert_eq!(r1.is_ok(), r2.is_ok());
    assert_eq!(d1.diagnostics(), d2.diagnostics());
}

#[test]
fn static_sections_are_recognized() {
    for s in [
        "xdp", "xdp/ingress", "xdp/egress", "tc", "classifier", "action", "tcx/ingress",
        "tcx/egress", "tracepoint", "raw_tracepoint", "tp_btf", "cgroup_skb", "sockops",
        "sk_msg", "maps", "license", "version", "perf_event",
    ] {
        assert!(SectionValidator::is_valid(s), "section {:?} rejected", s);
    }
}

#[test]
fn parametrized_sections_are_recognized() {
    assert!(SectionValidator::is_valid("tracepoint/syscalls/sys_enter_open"));
    assert!(SectionValidator::is_valid("tp/sched/sched_switch"));
    assert!(SectionValidator::is_valid("raw_tracepoint/sys_enter"));
    assert!(SectionValidator::is_valid("raw_tp/sys_exit"));
    assert!(SectionValidator::is_valid("tp_btf/task_newtask"));
    assert!(SectionValidator::is_valid("kprobe/do_sys_open"));
    assert!(SectionValidator::is_valid("kretprobe/tcp_connect"));
    assert!(SectionValidator::is_valid("uprobe/malloc"));
    assert!(SectionValidator::is_valid("uretprobe/free"));
    assert!(SectionValidator::is_valid("tc/ingress"));
    assert!(SectionValidator::is_valid("tc/custom-chain.v2"));
    assert!(SectionValidator::is_valid("classifier/mychain"));
    assert!(SectionValidator::is_valid("action/drop_all"));
}

#[test]
fn malformed_sections_are_rejected() {
    assert!(!SectionValidator::is_valid("frobnicate"));
    assert!(!SectionValidator::is_valid("tracepoint/onlyone"));
    assert!(!SectionValidator::is_valid("tracepoint/a/b/c"));
    assert!(!SectionValidator::is_valid("tracepoint//x"));
    assert!(!SectionValidator::is_valid("kprobe/"));
    assert!(!SectionValidator::is_valid("kprobe/9starts_with_digit"));
    assert!(!SectionValidator::is_valid("tc/"));
    assert!(!SectionValidator::is_valid("tc/bad space"));
    assert!(!SectionValidator::is_valid(""));
}

#[test]
fn valid_formats_lists_the_families() {
    let text = SectionValidator::valid_formats();
    assert!(text.starts_with("Valid eBPF section formats:"));
    assert!(text.contains("xdp"));
    assert!(text.contains("kprobe/<func>"));
}

#[test]
fn empty_unit_name_fails_when_built_directly() {
    // The grammar cannot produce an empty name, so the guard is exercised
    // on a hand-built unit.
    let unit = Unit {
        name: String::new(),
        loc: SourceLoc::new(1, 1, 0),
        sections: vec!["xdp".to_string()],
        license: Some("GPL".to_string()),
        body: Vec::new(),
    };
    let prog = Program { maps: Vec::new(), units: vec![unit] };
    let mut d = DiagnosticReporter::new();
    let e = check_program(&prog, &mut d).unwrap_err();
    assert!(matches!(
        e,
        SemanticError::UnitError(UnitValidationError::EmptyUnitName)
    ));
    assert_eq!(d.diagnostics()[0].message, "Unit name cannot be empty");
}
