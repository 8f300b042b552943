//! The raw-tracepoint emitter: a fixed template over the raw argument
//! array.

use vstd::prelude::*;
use crate::emit::{emit_license, license_text};
use crate::ir::unit::UnitIr;

verus! {

/// The text of one raw tracepoint handler.
pub open spec fn raw_tracepoint_text(u: UnitIr, sec: Seq<char>) -> Seq<char> {
    license_text(u.license@) + "SEC(\""@ + sec + "\")\nint "@ + u.name@ + "(struct bpf_raw_tracepoint_args *ctx) {\n    (void)ctx;\n    return 0;\n}\n\n"@
}

/// Emits one raw tracepoint handler.
pub fn emit_raw_tracepoint(out: &mut String, unit: &UnitIr, sec: &str)
    ensures
        final(out)@ == old(out)@ + raw_tracepoint_text(*unit, sec@),
{
    emit_license(out, unit.license.as_str());
    out.append("SEC(\"");
    out.append(sec);
    out.append("\")\nint ");
    out.append(unit.name.as_str());
    out.append("(struct bpf_raw_tracepoint_args *ctx) {\n    (void)ctx;\n    return 0;\n}\n\n");
    proof {
        assert(out@ =~= old(out)@ + raw_tracepoint_text(*unit, sec@));
    }
}

} // verus!
