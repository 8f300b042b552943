//! The cgroup emitters: socket-buffer hooks with a data bounds check, and
//! the socket-address hook that allows the connection.

use vstd::prelude::*;
use crate::emit::{emit_license, license_text};
use crate::ir::unit::UnitIr;

verus! {

/// The text of one cgroup socket-buffer handler.
pub open spec fn cgroup_text(u: UnitIr, sec: Seq<char>) -> Seq<char> {
    license_text(u.license@) + "SEC(\""@ + sec + "\")\nint "@ + u.name@ + "(struct __sk_buff *skb) {\n    void *data = (void *)(long)skb->data;\n    void *data_end = (void *)(long)skb->data_end;\n    if (data >= data_end) return SK_DROP;\n    return SK_PASS;\n}\n\n"@
}

/// The text of one cgroup socket-address handler.
pub open spec fn cgroup_sock_addr_text(u: UnitIr) -> Seq<char> {
    license_text(u.license@) + "SEC(\"cgroup/sock_addr\")\nint "@ + u.name@
        + "(struct bpf_sock_addr *ctx) {\n    return 1; // allow connection\n}\n\n"@
}

/// Emits one cgroup socket-buffer handler.
pub fn emit_cgroup(out: &mut String, unit: &UnitIr, sec: &str)
    ensures
        final(out)@ == old(out)@ + cgroup_text(*unit, sec@),
{
    emit_license(out, unit.license.as_str());
    out.append("SEC(\"");
    out.append(sec);
    out.append("\")\nint ");
    out.append(unit.name.as_str());
    out.append("(struct __sk_buff *skb) {\n    void *data = (void *)(long)skb->data;\n    void *data_end = (void *)(long)skb->data_end;\n    if (data >= data_end) return SK_DROP;\n    return SK_PASS;\n}\n\n");
    proof {
        assert(out@ =~= old(out)@ + cgroup_text(*unit, sec@));
    }
}

/// Emits one cgroup socket-address handler.
pub fn emit_cgroup_sock_addr(out: &mut String, unit: &UnitIr)
    ensures
        final(out)@ == old(out)@ + cgroup_sock_addr_text(*unit),
{
    emit_license(out, unit.license.as_str());
    out.append("SEC(\"cgroup/sock_addr\")\nint ");
    out.append(unit.name.as_str());
    out.append("(struct bpf_sock_addr *ctx) {\n    return 1; // allow connection\n}\n\n");
    proof {
        assert(out@ =~= old(out)@ + cgroup_sock_addr_text(*unit));
    }
}

} // verus!
