//! Validation of one map declaration: its name must not be taken yet, its
//! capacity must be positive, and its category and key/value types must be
//! members of their fixed enumerations (an exhaustive match kept as a
//! forward-compatibility guard).

use vstd::prelude::*;
use crate::ast::{MapDecl, MapType, Type};
use crate::diagnostics::{DiagView, DiagnosticReporter, Severity};
use crate::strutil::str_eq;

verus! {

/// Why a map declaration was rejected.
#[derive(Debug, PartialEq)]
pub enum MapValidationError {
    DuplicateMapName(String),
    InvalidMaxEntries,
    InvalidType,
}

/// Whether a name occurs in the taken-names sequence.
pub open spec fn map_names_seen(names: Seq<String>, n: Seq<char>) -> bool {
    exists|i: int| 0 <= i < names.len() && (#[trigger] names[i])@ == n
}

/// The message recorded for a repeated map name.
pub open spec fn dup_map_message(n: Seq<char>) -> Seq<char> {
    "Duplicate map name: '"@ + n + "'"@
}

/// The message recorded for a zero capacity.
pub open spec fn max_entries_message() -> Seq<char> {
    "Map 'max_entries' must be greater than zero"@
}

fn contains_name(names: &Vec<String>, n: &str) -> (r: bool)
    ensures
        r == map_names_seen(names@, n@),
{
    let mut i: usize = 0;
    while i < names.len()
        invariant
            i <= names@.len(),
            forall|j: int| 0 <= j < i ==> (#[trigger] names@[j])@ != n@,
        decreases names@.len() - i,
    {
        if str_eq(names[i].as_str(), n) {
            return true;
        }
        i += 1;
    }
    false
}

/// Checks one map declaration against the names already taken. A new
/// name is recorded in `map_names` before the capacity is examined, as
/// the set of taken names tracks every declaration seen so far.
pub fn check_map(
    map_decl: &MapDecl,
    diagnostics: &mut DiagnosticReporter,
    map_names: &mut Vec<String>,
) -> (r: Result<(), MapValidationError>)
    ensures
        map_names_seen(old(map_names)@, map_decl.name@) ==> {
            &&& r == Err::<(), MapValidationError>(
                MapValidationError::DuplicateMapName(map_decl.name),
            )
            &&& final(map_names)@ == old(map_names)@
            &&& final(diagnostics)@ == old(diagnostics)@.push(
                DiagView {
                    severity: Severity::Error,
                    message: dup_map_message(map_decl.name@),
                    loc: map_decl.loc,
                },
            )
        },
        !map_names_seen(old(map_names)@, map_decl.name@) ==> {
            &&& final(map_names)@ == old(map_names)@.push(map_decl.name)
            &&& (map_decl.max_entries == 0 ==> {
                &&& r == Err::<(), MapValidationError>(MapValidationError::InvalidMaxEntries)
                &&& final(diagnostics)@ == old(diagnostics)@.push(
                    DiagView {
                        severity: Severity::Error,
                        message: max_entries_message(),
                        loc: map_decl.loc,
                    },
                )
            })
            &&& (map_decl.max_entries != 0 ==> {
                &&& r == Ok::<(), MapValidationError>(())
                &&& final(diagnostics)@ == old(diagnostics)@
            })
        },
{
    if contains_name(map_names, map_decl.name.as_str()) {
        let mut msg = String::new();
        msg.append("Duplicate map name: '");
        msg.append(map_decl.name.as_str());
        msg.append("'");
        proof {
            assert(msg@ =~= dup_map_message(map_decl.name@));
        }
        diagnostics.report_error(msg, map_decl.loc);
        return Err(MapValidationError::DuplicateMapName(map_decl.name.clone()));
    }
    map_names.push(map_decl.name.clone());

    if map_decl.max_entries == 0 {
        let mut msg = String::new();
        msg.append("Map 'max_entries' must be greater than zero");
        proof {
            assert(msg@ =~= max_entries_message());
        }
        diagnostics.report_error(msg, map_decl.loc);
        return Err(MapValidationError::InvalidMaxEntries);
    }

    match map_decl.key_type {
        Type::U32 | Type::U64 | Type::I32 | Type::I64 => {}
    }
    match map_decl.value_type {
        Type::U32 | Type::U64 | Type::I32 | Type::I64 => {}
    }
    match map_decl.map_type {
        MapType::Hash | MapType::Array | MapType::Ringbuf | MapType::LruHash
        | MapType::ProgArray | MapType::PerfEventArray => {}
    }

    Ok(())
}

} // verus!
