//! The traffic-control emitter: a fixed template with an Ethernet-header
//! bounds check, returning a valid action code.

use vstd::prelude::*;
use crate::emit::{emit_license, license_text};
use crate::ir::unit::UnitIr;

verus! {

/// The text of one traffic-control handler.
pub open spec fn tc_text(u: UnitIr, sec: Seq<char>) -> Seq<char> {
    license_text(u.license@) + "SEC(\""@ + sec + "\")\nint "@ + u.name@ + "(struct __sk_buff *ctx) {\n    void *data = (void *)(long)ctx->data;\n    void *data_end = (void *)(long)ctx->data_end;\n\n    if (data + 14 > data_end) return TC_ACT_OK;\n    return TC_ACT_OK;\n}\n\n"@
}

/// Emits one traffic-control handler.
pub fn emit_tc(out: &mut String, unit: &UnitIr, sec: &str)
    ensures
        final(out)@ == old(out)@ + tc_text(*unit, sec@),
{
    emit_license(out, unit.license.as_str());
    out.append("SEC(\"");
    out.append(sec);
    out.append("\")\nint ");
    out.append(unit.name.as_str());
    out.append("(struct __sk_buff *ctx) {\n    void *data = (void *)(long)ctx->data;\n    void *data_end = (void *)(long)ctx->data_end;\n\n    if (data + 14 > data_end) return TC_ACT_OK;\n    return TC_ACT_OK;\n}\n\n");
    proof {
        assert(out@ =~= old(out)@ + tc_text(*unit, sec@));
    }
}

} // verus!
