//! The security-hook emitter: a fixed template returning the allow code.

use vstd::prelude::*;
use crate::emit::{emit_license, license_text};
use crate::ir::unit::UnitIr;

verus! {

/// The text of one security hook handler.
pub open spec fn lsm_text(u: UnitIr, sec: Seq<char>) -> Seq<char> {
    license_text(u.license@) + "SEC(\""@ + sec + "\")\nint "@ + u.name@ + "(void *ctx) {\n    // ctx is hook-specific (file, task, socket, etc)\n    // return 0 to allow, -EPERM to deny\n    return 0;\n}\n\n"@
}

/// Emits one security hook handler.
pub fn emit_lsm(out: &mut String, unit: &UnitIr, sec: &str)
    ensures
        final(out)@ == old(out)@ + lsm_text(*unit, sec@),
{
    emit_license(out, unit.license.as_str());
    out.append("SEC(\"");
    out.append(sec);
    out.append("\")\nint ");
    out.append(unit.name.as_str());
    out.append("(void *ctx) {\n    // ctx is hook-specific (file, task, socket, etc)\n    // return 0 to allow, -EPERM to deny\n    return 0;\n}\n\n");
    proof {
        assert(out@ =~= old(out)@ + lsm_text(*unit, sec@));
    }
}

} // verus!
