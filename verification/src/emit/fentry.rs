//! The function entry/exit emitter: a fixed template over an opaque
//! context.

use vstd::prelude::*;
use crate::emit::{emit_license, license_text};
use crate::ir::unit::UnitIr;

verus! {

/// The text of one function entry or exit handler.
pub open spec fn fentry_text(u: UnitIr, sec: Seq<char>) -> Seq<char> {
    license_text(u.license@) + "SEC(\""@ + sec + "\")\nint "@ + u.name@ + "(void *ctx) {\n    (void)ctx;\n    return 0;\n}\n\n"@
}

/// Emits one function entry or exit handler.
pub fn emit_fentry(out: &mut String, unit: &UnitIr, sec: &str)
    ensures
        final(out)@ == old(out)@ + fentry_text(*unit, sec@),
{
    emit_license(out, unit.license.as_str());
    out.append("SEC(\"");
    out.append(sec);
    out.append("\")\nint ");
    out.append(unit.name.as_str());
    out.append("(void *ctx) {\n    (void)ctx;\n    return 0;\n}\n\n");
    proof {
        assert(out@ =~= old(out)@ + fentry_text(*unit, sec@));
    }
}

} // verus!
