//! Validation of one unit declaration: a nonempty name, at least one
//! recognised hook section, a license (with a non-fatal warning for an
//! uncommon license string), and a nonempty body.

use vstd::prelude::*;
use crate::ast::Unit;
use crate::diagnostics::{DiagView, DiagnosticReporter, Severity};
use crate::sema::section::{is_valid_section, SectionValidator};
use crate::strutil::str_eq;

verus! {

/// Why a unit declaration was rejected.
#[derive(Debug, Clone, Copy, PartialEq, Eq, Structural)]
pub enum UnitValidationError {
    EmptyUnitName,
    NoSections,
    InvalidSection,
    MissingLicense,
    NoReturnOrInstructions,
}

/// One of the commonly accepted license strings.
pub open spec fn known_license(l: Seq<char>) -> bool {
    l == "GPL"@ || l == "Dual BSD/GPL"@ || l == "GPL v2"@ || l == "GPL-2.0"@
}

/// The index of the first unrecognised section string at or after `i`.
pub open spec fn first_bad_section_from(sections: Seq<String>, i: int) -> Option<int>
    decreases sections.len() - i,
{
    if i < 0 || i >= sections.len() {
        None
    } else if !is_valid_section(sections[i]@) {
        Some(i)
    } else {
        first_bad_section_from(sections, i + 1)
    }
}

/// The outcome of checking one unit declaration.
pub open spec fn unit_error(u: Unit) -> Option<UnitValidationError> {
    if u.name@.len() == 0 {
        Some(UnitValidationError::EmptyUnitName)
    } else if u.sections@.len() == 0 {
        Some(UnitValidationError::NoSections)
    } else if first_bad_section_from(u.sections@, 0) is Some {
        Some(UnitValidationError::InvalidSection)
    } else if u.license is None {
        Some(UnitValidationError::MissingLicense)
    } else if u.body@.len() == 0 {
        Some(UnitValidationError::NoReturnOrInstructions)
    } else {
        None
    }
}

/// The message recorded for an unrecognised section string.
pub open spec fn invalid_section_message(s: Seq<char>) -> Seq<char> {
    "Invalid section name: '"@ + s + "'"@
}

/// The message recorded for an uncommon license string.
pub open spec fn unknown_license_message(l: Seq<char>) -> Seq<char> {
    "Unknown license: '"@ + l + "'. Recommended: GPL"@
}

/// The diagnostics recorded while checking one unit, in order: at most
/// one error, preceded by a license warning when the unit got as far as
/// the license check.
pub open spec fn unit_diags(u: Unit) -> Seq<DiagView> {
    if u.name@.len() == 0 {
        seq![
            DiagView {
                severity: Severity::Error,
                message: "Unit name cannot be empty"@,
                loc: u.loc,
            },
        ]
    } else if u.sections@.len() == 0 {
        seq![
            DiagView {
                severity: Severity::Error,
                message: "Unit must have at least one section"@,
                loc: u.loc,
            },
        ]
    } else if first_bad_section_from(u.sections@, 0) is Some {
        seq![
            DiagView {
                severity: Severity::Error,
                message: invalid_section_message(
                    u.sections@[first_bad_section_from(u.sections@, 0)->0]@,
                ),
                loc: u.loc,
            },
        ]
    } else if u.license is None {
        seq![
            DiagView {
                severity: Severity::Error,
                message: "License is required for eBPF programs"@,
                loc: u.loc,
            },
        ]
    } else {
        let warn_part: Seq<DiagView> = if !known_license(u.license->0@) {
            seq![
                DiagView {
                    severity: Severity::Warning,
                    message: unknown_license_message(u.license->0@),
                    loc: u.loc,
                },
            ]
        } else {
            Seq::empty()
        };
        let body_part: Seq<DiagView> = if u.body@.len() == 0 {
            seq![
                DiagView {
                    severity: Severity::Error,
                    message: "Unit must have at least one return statement or instruction"@,
                    loc: u.loc,
                },
            ]
        } else {
            Seq::empty()
        };
        warn_part + body_part
    }
}

/// Checks one unit declaration, recording exactly `unit_diags` and
/// returning the outcome `unit_error` describes.
#[verifier::loop_isolation(false)]
pub fn check_unit(unit: &Unit, diagnostics: &mut DiagnosticReporter) -> (r: Result<
    (),
    UnitValidationError,
>)
    ensures
        final(diagnostics)@ == old(diagnostics)@ + unit_diags(*unit),
        r is Ok <==> unit_error(*unit) is None,
        r matches Err(e) ==> unit_error(*unit) == Some(e),
{
    let ghost sections = unit.sections@;

    if unit.name.as_str().is_empty() {
        let mut msg = String::new();
        msg.append("Unit name cannot be empty");
        proof {
            assert(msg@ =~= "Unit name cannot be empty"@);
            assert(old(diagnostics)@.push(unit_diags(*unit)[0]) =~= old(diagnostics)@
                + unit_diags(*unit));
        }
        diagnostics.report_error(msg, unit.loc);
        return Err(UnitValidationError::EmptyUnitName);
    }

    if unit.sections.len() == 0 {
        let mut msg = String::new();
        msg.append("Unit must have at least one section");
        proof {
            assert(msg@ =~= "Unit must have at least one section"@);
            assert(old(diagnostics)@.push(unit_diags(*unit)[0]) =~= old(diagnostics)@
                + unit_diags(*unit));
        }
        diagnostics.report_error(msg, unit.loc);
        return Err(UnitValidationError::NoSections);
    }

    let mut i: usize = 0;
    while i < unit.sections.len()
        invariant
            i <= sections.len(),
            first_bad_section_from(sections, 0) == first_bad_section_from(sections, i as int),
            diagnostics@ == old(diagnostics)@,
        decreases sections.len() - i,
    {
        if !SectionValidator::is_valid(unit.sections[i].as_str()) {
            let mut msg = String::new();
            msg.append("Invalid section name: '");
            msg.append(unit.sections[i].as_str());
            msg.append("'");
            proof {
                assert(first_bad_section_from(sections, i as int) == Some(i as int));
                assert(msg@ =~= invalid_section_message(sections[i as int]@));
                assert(old(diagnostics)@.push(unit_diags(*unit)[0]) =~= old(diagnostics)@
                    + unit_diags(*unit));
            }
            diagnostics.report_error(msg, unit.loc);
            return Err(UnitValidationError::InvalidSection);
        }
        i += 1;
    }
    proof {
        assert(first_bad_section_from(sections, sections.len() as int) is None);
    }

    let license = match &unit.license {
        Some(l) => l,
        None => {
            let mut msg = String::new();
            msg.append("License is required for eBPF programs");
            proof {
                assert(msg@ =~= "License is required for eBPF programs"@);
                assert(old(diagnostics)@.push(unit_diags(*unit)[0]) =~= old(diagnostics)@
                    + unit_diags(*unit));
            }
            diagnostics.report_error(msg, unit.loc);
            return Err(UnitValidationError::MissingLicense);
        }
    };

    let lic = license.as_str();
    let ghost warned = !known_license(license@);
    if !(str_eq(lic, "GPL") || str_eq(lic, "Dual BSD/GPL") || str_eq(lic, "GPL v2")
        || str_eq(lic, "GPL-2.0")) {
        let mut msg = String::new();
        msg.append("Unknown license: '");
        msg.append(lic);
        msg.append("'. Recommended: GPL");
        proof {
            assert(msg@ =~= unknown_license_message(license@));
        }
        diagnostics.report_warning(msg, unit.loc);
    }

    if unit.body.len() == 0 {
        let mut msg = String::new();
        msg.append("Unit must have at least one return statement or instruction");
        proof {
            assert(msg@ =~= "Unit must have at least one return statement or instruction"@);
            if warned {
                assert(diagnostics@.push(unit_diags(*unit)[1]) =~= old(diagnostics)@
                    + unit_diags(*unit));
            } else {
                assert(diagnostics@.push(unit_diags(*unit)[0]) =~= old(diagnostics)@
                    + unit_diags(*unit));
            }
        }
        diagnostics.report_error(msg, unit.loc);
        return Err(UnitValidationError::NoReturnOrInstructions);
    }

    proof {
        assert(diagnostics@ =~= old(diagnostics)@ + unit_diags(*unit));
    }
    Ok(())
}

} // verus!
