//! Semantic validation: map declarations and unit declarations are checked
//! before lowering is attempted. Validation is fail-fast — the first error
//! is returned — and every failure is also reported to the diagnostics
//! collector, in the order validation visits declarations.

pub mod map;
pub mod section;
pub mod unit;

use vstd::prelude::*;
use crate::ast::{MapDecl, Program, Unit};
use crate::diagnostics::{DiagView, DiagnosticReporter, Severity};
use crate::sema::map::{
    check_map, dup_map_message, map_names_seen, max_entries_message, MapValidationError,
};
use crate::sema::unit::{check_unit, unit_diags, unit_error, UnitValidationError};

verus! {

/// A semantic validation failure: either a map check or a unit check.
#[derive(Debug, PartialEq)]
pub enum SemanticError {
    MapError(MapValidationError),
    UnitError(UnitValidationError),
}

/// The names of the first `i` map declarations, in declaration order:
/// the set of names already taken when the `i`-th map is checked.
pub open spec fn seen_after(maps: Seq<MapDecl>, i: int) -> Seq<String>
    decreases i,
{
    if i <= 0 {
        Seq::empty()
    } else {
        seen_after(maps, i - 1).push(maps[i - 1].name)
    }
}

/// The outcome of checking the `i`-th map declaration against the names
/// taken before it: a duplicate name, a zero capacity, or no error.
pub open spec fn map_error_at(maps: Seq<MapDecl>, i: int) -> Option<MapValidationError> {
    if map_names_seen(seen_after(maps, i), maps[i].name@) {
        Some(MapValidationError::DuplicateMapName(maps[i].name))
    } else if maps[i].max_entries == 0 {
        Some(MapValidationError::InvalidMaxEntries)
    } else {
        None
    }
}

/// The index of the first failing map declaration at or after `i`.
pub open spec fn first_bad_map_from(maps: Seq<MapDecl>, i: int) -> Option<int>
    decreases maps.len() - i,
{
    if i < 0 || i >= maps.len() {
        None
    } else if map_error_at(maps, i) is Some {
        Some(i)
    } else {
        first_bad_map_from(maps, i + 1)
    }
}

/// The diagnostic recorded for the failing map declaration at index `i`.
pub open spec fn map_diag(maps: Seq<MapDecl>, i: int) -> DiagView {
    if map_names_seen(seen_after(maps, i), maps[i].name@) {
        DiagView {
            severity: Severity::Error,
            message: dup_map_message(maps[i].name@),
            loc: maps[i].loc,
        }
    } else {
        DiagView { severity: Severity::Error, message: max_entries_message(), loc: maps[i].loc }
    }
}

/// The index of the first failing unit declaration at or after `i`.
pub open spec fn first_bad_unit_from(units: Seq<Unit>, i: int) -> Option<int>
    decreases units.len() - i,
{
    if i < 0 || i >= units.len() {
        None
    } else if unit_error(units[i]) is Some {
        Some(i)
    } else {
        first_bad_unit_from(units, i + 1)
    }
}

/// The diagnostics recorded while checking units from index `i` on:
/// each unit contributes its own diagnostics, and checking stops after
/// the first failing unit.
pub open spec fn units_diags_from(units: Seq<Unit>, i: int) -> Seq<DiagView>
    decreases units.len() - i,
{
    if i < 0 || i >= units.len() {
        Seq::empty()
    } else if unit_error(units[i]) is Some {
        unit_diags(units[i])
    } else {
        unit_diags(units[i]) + units_diags_from(units, i + 1)
    }
}

/// Every diagnostic that validating the program records, in order.
pub open spec fn prog_diags(p: Program) -> Seq<DiagView> {
    match first_bad_map_from(p.maps@, 0) {
        Some(i) => seq![map_diag(p.maps@, i)],
        None => units_diags_from(p.units@, 0),
    }
}

/// The result of validating the program: the first map error, else the
/// first unit error, else success.
pub open spec fn prog_result(p: Program) -> Option<SemanticError> {
    match first_bad_map_from(p.maps@, 0) {
        Some(i) => Some(SemanticError::MapError(map_error_at(p.maps@, i)->0)),
        None => match first_bad_unit_from(p.units@, 0) {
            Some(j) => Some(SemanticError::UnitError(unit_error(p.units@[j])->0)),
            None => None,
        },
    }
}

/// Validates every map declaration and then every unit declaration,
/// fail-fast. The diagnostics recorded are exactly `prog_diags`, a
/// function of the program alone: the program itself is never changed,
/// so validating twice records the same diagnostics twice.
#[verifier::loop_isolation(false)]
pub fn check_program(program: &Program, diagnostics: &mut DiagnosticReporter) -> (r: Result<
    (),
    SemanticError,
>)
    ensures
        final(diagnostics)@ == old(diagnostics)@ + prog_diags(*program),
        r is Ok <==> prog_result(*program) is None,
        r matches Err(e) ==> prog_result(*program) == Some(e),
{
    let ghost maps = program.maps@;
    let ghost units = program.units@;
    let mut map_names: Vec<String> = Vec::new();

    let mut i: usize = 0;
    while i < program.maps.len()
        invariant
            i <= maps.len(),
            map_names@ == seen_after(maps, i as int),
            first_bad_map_from(maps, 0) == first_bad_map_from(maps, i as int),
            diagnostics@ == old(diagnostics)@,
        decreases maps.len() - i,
    {
        let m = &program.maps[i];
        match check_map(m, diagnostics, &mut map_names) {
            Ok(()) => {
                proof {
                    assert(map_error_at(maps, i as int) is None);
                    assert(seen_after(maps, i as int + 1) == seen_after(maps, i as int).push(
                        maps[i as int].name,
                    ));
                }
            }
            Err(e) => {
                proof {
                    assert(map_error_at(maps, i as int) == Some(e));
                    assert(first_bad_map_from(maps, i as int) == Some(i as int));
                    assert(prog_diags(*program) =~= seq![map_diag(maps, i as int)]);
                    assert(diagnostics@ =~= old(diagnostics)@ + prog_diags(*program));
                }
                return Err(SemanticError::MapError(e));
            }
        }
        i += 1;
    }
    proof {
        assert(first_bad_map_from(maps, maps.len() as int) is None);
    }

    let mut j: usize = 0;
    while j < program.units.len()
        invariant
            j <= units.len(),
            first_bad_map_from(maps, 0) is None,
            first_bad_unit_from(units, 0) == first_bad_unit_from(units, j as int),
            diagnostics@ + units_diags_from(units, j as int) == old(diagnostics)@
                + units_diags_from(units, 0),
        decreases units.len() - j,
    {
        let u = &program.units[j];
        match check_unit(u, diagnostics) {
            Ok(()) => {
                proof {
                    assert(units_diags_from(units, j as int) == unit_diags(units[j as int])
                        + units_diags_from(units, j as int + 1));
                    assert(diagnostics@ + units_diags_from(units, j as int + 1)
                        =~= old(diagnostics)@ + units_diags_from(units, 0)) by {
                        assert(diagnostics@ + units_diags_from(units, j as int + 1)
                            =~= old(diagnostics)@ + units_diags_from(units, 0));
                    }
                }
            }
            Err(e) => {
                proof {
                    assert(units_diags_from(units, j as int) =~= unit_diags(units[j as int]));
                    assert(diagnostics@ =~= old(diagnostics)@ + units_diags_from(units, 0));
                    assert(first_bad_unit_from(units, j as int) == Some(j as int));
                }
                return Err(SemanticError::UnitError(e));
            }
        }
        j += 1;
    }
    proof {
        assert(first_bad_unit_from(units, units.len() as int) is None);
        assert(units_diags_from(units, units.len() as int) =~= Seq::<DiagView>::empty());
        assert(diagnostics@ =~= old(diagnostics)@ + units_diags_from(units, 0));
    }
    Ok(())
}

/// The length and contents of the taken-names sequence: the names of the
/// maps before index `i`, in order.
pub proof fn lemma_seen_after(maps: Seq<MapDecl>, i: int)
    requires
        0 <= i <= maps.len(),
    ensures
        seen_after(maps, i).len() == i,
        forall|k: int| 0 <= k < i ==> #[trigger] seen_after(maps, i)[k] == maps[k].name,
    decreases i,
{
    if i > 0 {
        lemma_seen_after(maps, i - 1);
    }
}

proof fn lemma_first_bad_map_none(maps: Seq<MapDecl>, i: int, k: int)
    requires
        first_bad_map_from(maps, i) is None,
        0 <= i <= k < maps.len(),
    ensures
        map_error_at(maps, k) is None,
    decreases k - i,
{
    if i < k {
        lemma_first_bad_map_none(maps, i + 1, k);
    }
}

proof fn lemma_first_bad_map_at(maps: Seq<MapDecl>, i: int, j: int)
    requires
        0 <= i <= j < maps.len(),
        forall|k: int| i <= k < j ==> #[trigger] map_error_at(maps, k) is None,
        map_error_at(maps, j) is Some,
    ensures
        first_bad_map_from(maps, i) == Some(j),
    decreases j - i,
{
    if i < j {
        lemma_first_bad_map_at(maps, i + 1, j);
    }
}

/// For a map declaration whose name is not yet taken, validation succeeds
/// exactly when its entry capacity is positive.
pub proof fn lemma_map_capacity_rule(maps: Seq<MapDecl>, i: int)
    requires
        0 <= i < maps.len(),
        !map_names_seen(seen_after(maps, i), maps[i].name@),
    ensures
        map_error_at(maps, i) is None <==> maps[i].max_entries > 0,
{
}

/// Two map declarations sharing a name make validation of the program
/// fail: the program's validation result is an error.
pub proof fn lemma_duplicate_map_rejected(p: Program, i: int, j: int)
    requires
        0 <= i < j < p.maps@.len(),
        p.maps@[i].name@ == p.maps@[j].name@,
    ensures
        prog_result(p) is Some,
{
    if first_bad_map_from(p.maps@, 0) is None {
        lemma_first_bad_map_none(p.maps@, 0, j);
        lemma_seen_after(p.maps@, j);
        assert(seen_after(p.maps@, j)[i] == p.maps@[i].name);
        assert(map_names_seen(seen_after(p.maps@, j), p.maps@[j].name@));
        assert(map_error_at(p.maps@, j) is Some);
        assert(false);
    }
}

/// When every map before the `j`-th passes its checks and the `j`-th
/// repeats an earlier map's name, validation fails with the duplicate-name
/// error, and the one diagnostic recorded names the second declaration's
/// location.
pub proof fn lemma_duplicate_map_error_location(p: Program, i: int, j: int)
    requires
        0 <= i < j < p.maps@.len(),
        p.maps@[i].name@ == p.maps@[j].name@,
        forall|k: int| 0 <= k < j ==> #[trigger] map_error_at(p.maps@, k) is None,
    ensures
        prog_result(p) == Some(
            SemanticError::MapError(MapValidationError::DuplicateMapName(p.maps@[j].name)),
        ),
        prog_diags(p) == seq![
            DiagView {
                severity: Severity::Error,
                message: dup_map_message(p.maps@[j].name@),
                loc: p.maps@[j].loc,
            },
        ],
{
    lemma_seen_after(p.maps@, j);
    assert(seen_after(p.maps@, j)[i] == p.maps@[i].name);
    assert(map_names_seen(seen_after(p.maps@, j), p.maps@[j].name@));
    lemma_first_bad_map_at(p.maps@, 0, j);
}

/// Validation is deterministic: the diagnostics recorded are a function
/// of the program alone, so validating the same program twice, from the
/// same starting state, records the same sequence both times.
pub proof fn lemma_validation_deterministic(
    p: Program,
    base: Seq<DiagView>,
    d1: Seq<DiagView>,
    d2: Seq<DiagView>,
)
    requires
        d1 == base + prog_diags(p),
        d2 == base + prog_diags(p),
    ensures
        d1 == d2,
{
}

} // verus!
