//! Lowering of a whole program: maps are resolved first, because unit
//! bodies may refer to them by name, then each unit is lowered against
//! its own fresh symbol table and register counter.

use vstd::prelude::*;
use crate::ast::{MapType, Program};
use crate::ir::unit::{
    all_results, block_ids, guard_count_stmts, results_ok, stmts_ok, stmts_size, UnitIr,
};
use crate::ir::LoweringError;

verus! {

/// The lowered form of a whole program.
#[derive(Debug)]
pub struct ProgramIr {
    pub units: Vec<UnitIr>,
    pub maps: Vec<LoweredMap>,
}

/// A resolved map: what code generation needs, and a placeholder handle
/// filled in by the external toolchain.
#[derive(Debug)]
pub struct LoweredMap {
    pub name: String,
    pub map_type: MapType,
    pub key_type: crate::ast::Type,
    pub value_type: crate::ast::Type,
    pub max_entries: u32,
    pub fd: i32,
}

/// Lowers every map and then every unit of the program.
#[verifier::loop_isolation(false)]
pub fn lower_program(program: &Program) -> (r: Result<ProgramIr, LoweringError>)
    ensures
        r matches Ok(pir) ==> {
            &&& pir.maps@.len() == program.maps@.len()
            &&& forall|k: int| 0 <= k < program.maps@.len() ==> {
                &&& (#[trigger] pir.maps@[k]).name@ == program.maps@[k].name@
                &&& pir.maps@[k].map_type == program.maps@[k].map_type
                &&& pir.maps@[k].key_type == program.maps@[k].key_type
                &&& pir.maps@[k].value_type == program.maps@[k].value_type
                &&& pir.maps@[k].max_entries == program.maps@[k].max_entries
                &&& pir.maps@[k].fd == -1
            }
            &&& pir.units@.len() == program.units@.len()
            &&& forall|k: int| 0 <= k < program.units@.len()
                ==> (#[trigger] pir.units@[k]).name@ == program.units@[k].name@
            &&& forall|k: int| 0 <= k < program.units@.len() ==> {
                &&& (#[trigger] pir.units@[k]).sections@ == program.units@[k].sections@
                &&& pir.units@[k].license@ == (if program.units@[k].license is Some {
                    (program.units@[k].license->0)@
                } else {
                    "GPL"@
                })
                &&& pir.units@[k].blocks@.len() == 1 + 3 * guard_count_stmts(
                    program.units@[k].body@,
                )
                &&& results_ok(all_results(pir.units@[k].blocks@), pir.units@[k].next_var_id)
                &&& block_ids(pir.units@[k].blocks@).no_duplicates()
            }
        },
        r is Ok ==> forall|k: int| 0 <= k < program.units@.len()
            ==> stmts_ok((#[trigger] program.units@[k]).body@, Set::empty()),
        (forall|k: int|
            0 <= k < program.units@.len() ==> stmts_ok(
                (#[trigger] program.units@[k]).body@,
                Set::empty(),
            ) && 3 * stmts_size(program.units@[k].body@) + 1 <= u32::MAX) ==> r is Ok,
        r matches Err(e) ==> e is UnitLowering,
        r is Err ==> exists|j: int|
            {
                &&& 0 <= j < program.units@.len()
                &&& (forall|k: int|
                    0 <= k < j ==> stmts_ok(
                        (#[trigger] program.units@[k]).body@,
                        Set::empty(),
                    ))
                &&& !(stmts_ok((#[trigger] program.units@[j]).body@, Set::empty()) && 3
                    * stmts_size(program.units@[j].body@) + 1 <= u32::MAX)
            },
{
    let mut units: Vec<UnitIr> = Vec::new();
    let mut maps: Vec<LoweredMap> = Vec::new();

    let mut i: usize = 0;
    while i < program.maps.len()
        invariant
            i <= program.maps@.len(),
            maps@.len() == i,
            forall|k: int| 0 <= k < i ==> {
                &&& (#[trigger] maps@[k]).name@ == program.maps@[k].name@
                &&& maps@[k].map_type == program.maps@[k].map_type
                &&& maps@[k].key_type == program.maps@[k].key_type
                &&& maps@[k].value_type == program.maps@[k].value_type
                &&& maps@[k].max_entries == program.maps@[k].max_entries
                &&& maps@[k].fd == -1
            },
        decreases program.maps@.len() - i,
    {
        let m = &program.maps[i];
        maps.push(LoweredMap {
            name: m.name.clone(),
            map_type: m.map_type,
            key_type: m.key_type,
            value_type: m.value_type,
            max_entries: m.max_entries,
            fd: -1,
        });
        i += 1;
    }

    let mut j: usize = 0;
    while j < program.units.len()
        invariant
            j <= program.units@.len(),
            units@.len() == j,
            forall|k: int| 0 <= k < j
                ==> (#[trigger] units@[k]).name@ == program.units@[k].name@,
            forall|k: int| 0 <= k < j
                ==> stmts_ok((#[trigger] program.units@[k]).body@, Set::empty()),
            forall|k: int| 0 <= k < j ==> {
                &&& (#[trigger] units@[k]).sections@ == program.units@[k].sections@
                &&& units@[k].license@ == (if program.units@[k].license is Some {
                    (program.units@[k].license->0)@
                } else {
                    "GPL"@
                })
                &&& units@[k].blocks@.len() == 1 + 3 * guard_count_stmts(
                    program.units@[k].body@,
                )
                &&& results_ok(all_results(units@[k].blocks@), units@[k].next_var_id)
                &&& block_ids(units@[k].blocks@).no_duplicates()
            },
        decreases program.units@.len() - j,
    {
        let u = match UnitIr::lower(&program.units[j]) {
            Ok(u) => u,
            Err(e) => {
                proof {
                    assert(!(stmts_ok(program.units@[j as int].body@, Set::empty()) && 3
                        * stmts_size(program.units@[j as int].body@) + 1 <= u32::MAX));
                }
                return Err(e);
            },
        };
        units.push(u);
        j += 1;
    }

    Ok(ProgramIr { units, maps })
}

} // verus!
