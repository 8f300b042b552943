//! The kernel-probe emitter: a fixed template over the register context.

use vstd::prelude::*;
use crate::emit::{emit_license, license_text};
use crate::ir::unit::UnitIr;

verus! {

/// The text of one kernel probe handler.
pub open spec fn kprobe_text(u: UnitIr, sec: Seq<char>) -> Seq<char> {
    license_text(u.license@) + "SEC(\""@ + sec + "\")\nint "@ + u.name@ + "(struct pt_regs *ctx) {\n    (void)ctx;\n    return 0;\n}\n\n"@
}

/// Emits one kernel probe handler.
pub fn emit_kprobe(out: &mut String, unit: &UnitIr, sec: &str)
    ensures
        final(out)@ == old(out)@ + kprobe_text(*unit, sec@),
{
    emit_license(out, unit.license.as_str());
    out.append("SEC(\"");
    out.append(sec);
    out.append("\")\nint ");
    out.append(unit.name.as_str());
    out.append("(struct pt_regs *ctx) {\n    (void)ctx;\n    return 0;\n}\n\n");
    proof {
        assert(out@ =~= old(out)@ + kprobe_text(*unit, sec@));
    }
}

} // verus!
