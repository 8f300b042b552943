//! The socket emitters: stream parser and verdict hooks with a data
//! bounds check, and the message hook.

use vstd::prelude::*;
use crate::emit::{emit_license, license_text};
use crate::ir::unit::UnitIr;

verus! {

/// The text of one socket stream handler.
pub open spec fn sk_skb_text(u: UnitIr, sec: Seq<char>) -> Seq<char> {
    license_text(u.license@) + "SEC(\""@ + sec + "\")\nint "@ + u.name@ + "(struct __sk_buff *skb) {\n    void *data = (void *)(long)skb->data;\n    void *data_end = (void *)(long)skb->data_end;\n    if (data >= data_end) return SK_DROP;\n    return SK_PASS;\n}\n\n"@
}

/// The text of one socket message handler.
pub open spec fn sk_msg_text(u: UnitIr) -> Seq<char> {
    license_text(u.license@) + "SEC(\"sk_msg\")\nint "@ + u.name@
        + "(struct sk_msg_md *msg) {\n    return SK_PASS;\n}\n\n"@
}

/// Emits one socket stream handler.
pub fn emit_sk_skb(out: &mut String, unit: &UnitIr, sec: &str)
    ensures
        final(out)@ == old(out)@ + sk_skb_text(*unit, sec@),
{
    emit_license(out, unit.license.as_str());
    out.append("SEC(\"");
    out.append(sec);
    out.append("\")\nint ");
    out.append(unit.name.as_str());
    out.append("(struct __sk_buff *skb) {\n    void *data = (void *)(long)skb->data;\n    void *data_end = (void *)(long)skb->data_end;\n    if (data >= data_end) return SK_DROP;\n    return SK_PASS;\n}\n\n");
    proof {
        assert(out@ =~= old(out)@ + sk_skb_text(*unit, sec@));
    }
}

/// Emits one socket message handler.
pub fn emit_sk_msg(out: &mut String, unit: &UnitIr)
    ensures
        final(out)@ == old(out)@ + sk_msg_text(*unit),
{
    emit_license(out, unit.license.as_str());
    out.append("SEC(\"sk_msg\")\nint ");
    out.append(unit.name.as_str());
    out.append("(struct sk_msg_md *msg) {\n    return SK_PASS;\n}\n\n");
    proof {
        assert(out@ =~= old(out)@ + sk_msg_text(*unit));
    }
}

} // verus!
