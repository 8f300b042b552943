//! The packet-filter emitter: a fixed template with a mandatory bounds
//! check before any packet access, returning a valid action code.

use vstd::prelude::*;
use crate::emit::{emit_license, license_text};
use crate::ir::unit::UnitIr;

verus! {

/// The text of one packet-filter handler: a bounds-checked read of the
/// source address at a fixed packet offset, a map lookup, and a counted
/// increment.
pub open spec fn xdp_text(u: UnitIr) -> Seq<char> {
    license_text(u.license@) + "SEC(\"xdp\")\nint "@ + u.name@ + "(struct xdp_md *ctx) {\n    void *data = (void *)(long)ctx->data;\n    void *data_end = (void *)(long)ctx->data_end;\n\n    if (data + 26 + 4 > data_end) return XDP_PASS;\n    __u32 src_ip = *(__u32 *)(data + 26);\n\n    __u32 key = src_ip;\n    __u64 *count_ptr = bpf_map_lookup_elem(&connection_counter, &key);\n    if (count_ptr) {\n        __sync_fetch_and_add(count_ptr, 1);\n    }\n\n    return 1;\n}\n\n"@
}

/// Emits one packet-filter handler.
pub fn emit_xdp(out: &mut String, unit: &UnitIr)
    ensures
        final(out)@ == old(out)@ + xdp_text(*unit),
{
    emit_license(out, unit.license.as_str());
    out.append("SEC(\"xdp\")\nint ");
    out.append(unit.name.as_str());
    out.append("(struct xdp_md *ctx) {\n    void *data = (void *)(long)ctx->data;\n    void *data_end = (void *)(long)ctx->data_end;\n\n    if (data + 26 + 4 > data_end) return XDP_PASS;\n    __u32 src_ip = *(__u32 *)(data + 26);\n\n    __u32 key = src_ip;\n    __u64 *count_ptr = bpf_map_lookup_elem(&connection_counter, &key);\n    if (count_ptr) {\n        __sync_fetch_and_add(count_ptr, 1);\n    }\n\n    return 1;\n}\n\n");
    proof {
        assert(out@ =~= old(out)@ + xdp_text(*unit));
    }
}

} // verus!
