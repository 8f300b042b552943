//! Whole-program emission: the prelude with includes and the action-code
//! constants for the hook categories actually used, the map declaration
//! blocks, and one handler per unit, dispatched on the unit's first hook
//! section. An unrecognised section fails the whole emission.

use vstd::prelude::*;
use crate::emit::{contains_sub, str_contains};
use crate::emit::cgroup::{cgroup_sock_addr_text, cgroup_text, emit_cgroup, emit_cgroup_sock_addr};
use crate::emit::fentry::{emit_fentry, fentry_text};
use crate::emit::kprobe::{emit_kprobe, kprobe_text};
use crate::emit::lsm::{emit_lsm, lsm_text};
use crate::emit::maps::{emit_maps, maps_text};
use crate::emit::raw_tracepoint::{emit_raw_tracepoint, raw_tracepoint_text};
use crate::emit::sk::{emit_sk_msg, emit_sk_skb, sk_msg_text, sk_skb_text};
use crate::emit::tc::{emit_tc, tc_text};
use crate::emit::tracepoint::{emit_tracepoint, tracepoint_text};
use crate::emit::xdp::{emit_xdp, xdp_text};
use crate::ir::program::ProgramIr;
use crate::ir::unit::UnitIr;
use crate::strutil::{is_prefix_of, str_eq, str_starts_with};

verus! {

/// The first hook section of a section list, or a placeholder when it is
/// empty.
pub open spec fn first_section(sections: Seq<String>) -> Seq<char> {
    if sections.len() > 0 {
        sections[0]@
    } else {
        "unknown"@
    }
}

/// The first hook section of a unit.
pub open spec fn sec0(u: UnitIr) -> Seq<char> {
    first_section(u.sections@)
}

/// Whether the dispatch table recognises a section string: the exact
/// names and prefixes the per-category emitters cover.
pub open spec fn dispatchable_section(s: Seq<char>) -> bool {
    ||| s == "xdp"@
    ||| s == "tc"@ ||| s == "classifier"@
    ||| s == "tcx"@ ||| s == "tcx/egress"@ ||| s == "tc/egress"@
    ||| s == "tcx/ingress"@ ||| s == "tc/ingress"@
    ||| s == "sk_skb/stream_parser"@ ||| s == "sk_skb/stream_verdict"@
    ||| s == "sk_msg"@
    ||| s == "cgroup/skb/ingress"@ ||| s == "cgroup/skb/egress"@ ||| s == "cgroup/sock"@
    ||| s == "cgroup/sock_addr"@
    ||| is_prefix_of("kprobe/"@, s) ||| is_prefix_of("kretprobe/"@, s)
    ||| is_prefix_of("raw_tracepoint/"@, s)
    ||| is_prefix_of("tracepoint/"@, s)
    ||| is_prefix_of("fentry/"@, s) ||| is_prefix_of("fexit/"@, s)
    ||| is_prefix_of("lsm/"@, s)
}

/// A unit's handler text exists exactly when its first section is in the
/// dispatch table.
pub proof fn lemma_unit_text_dispatch(u: UnitIr)
    ensures
        unit_text(u) is Some <==> dispatchable_section(sec0(u)),
{
}

/// The whole unit list renders exactly when every unit dispatches.
pub proof fn lemma_units_text_dispatch(units: Seq<UnitIr>, i: int)
    requires
        0 <= i,
    ensures
        units_text(units, i) is Some <==> (forall|k: int|
            i <= k < units.len() ==> dispatchable_section(sec0(#[trigger] units[k]))),
    decreases units.len() - i,
{
    if i < units.len() {
        lemma_unit_text_dispatch(units[i]);
        lemma_units_text_dispatch(units, i + 1);
        if units_text(units, i) is Some {
            assert forall|k: int|
                i <= k < units.len() implies dispatchable_section(
                sec0(#[trigger] units[k]),
            ) by {
                if k > i {
                    assert(dispatchable_section(sec0(units[k])));
                }
            };
        } else {
            if forall|k: int|
                i <= k < units.len() ==> dispatchable_section(sec0(#[trigger] units[k])) {
                assert(dispatchable_section(sec0(units[i])));
                assert(forall|k: int|
                    i + 1 <= k < units.len() ==> dispatchable_section(
                        sec0(#[trigger] units[k]),
                    ));
                assert(false);
            }
        }
    }
}

/// The handler text the dispatch table selects for a unit, when its
/// first section is recognised.
pub open spec fn unit_text(u: UnitIr) -> Option<Seq<char>> {
    let s = sec0(u);
    if s == "xdp"@ {
        Some(xdp_text(u))
    } else if s == "tc"@ || s == "classifier"@ {
        Some(tc_text(u, "classifier"@))
    } else if s == "tcx"@ || s == "tcx/egress"@ || s == "tc/egress"@ {
        Some(tc_text(u, "tcx/egress"@))
    } else if s == "tcx/ingress"@ || s == "tc/ingress"@ {
        Some(tc_text(u, "tcx/ingress"@))
    } else if s == "sk_skb/stream_parser"@ || s == "sk_skb/stream_verdict"@ {
        Some(sk_skb_text(u, s))
    } else if s == "sk_msg"@ {
        Some(sk_msg_text(u))
    } else if s == "cgroup/skb/ingress"@ || s == "cgroup/skb/egress"@ || s == "cgroup/sock"@ {
        Some(cgroup_text(u, s))
    } else if s == "cgroup/sock_addr"@ {
        Some(cgroup_sock_addr_text(u))
    } else if is_prefix_of("kprobe/"@, s) || is_prefix_of("kretprobe/"@, s) {
        Some(kprobe_text(u, s))
    } else if is_prefix_of("raw_tracepoint/"@, s) {
        Some(raw_tracepoint_text(u, s))
    } else if is_prefix_of("tracepoint/"@, s) {
        Some(tracepoint_text(u, s))
    } else if is_prefix_of("fentry/"@, s) || is_prefix_of("fexit/"@, s) {
        Some(fentry_text(u, s))
    } else if is_prefix_of("lsm/"@, s) {
        Some(lsm_text(u, s))
    } else {
        None
    }
}

/// Whether a section string calls for the traffic-control constants.
pub open spec fn sec_tc(s: Seq<char>) -> bool {
    contains_sub(s, "tc"@) || s == "classifier"@
}

/// Whether any section from index `j` on of the unit satisfies `which`:
/// 0 for traffic control, 1 for the packet filter, 2 for socket hooks.
pub open spec fn unit_needs_from(u: UnitIr, j: int, which: int) -> bool
    decreases u.sections@.len() - j,
{
    if j < 0 || j >= u.sections@.len() {
        false
    } else {
        let s = u.sections@[j]@;
        (if which == 0 {
            sec_tc(s)
        } else if which == 1 {
            contains_sub(s, "xdp"@)
        } else {
            contains_sub(s, "sk_"@)
        }) || unit_needs_from(u, j + 1, which)
    }
}

/// Whether any unit from index `i` on needs the constants of `which`.
pub open spec fn needs_from(units: Seq<UnitIr>, i: int, which: int) -> bool
    decreases units.len() - i,
{
    if i < 0 || i >= units.len() {
        false
    } else {
        unit_needs_from(units[i], 0, which) || needs_from(units, i + 1, which)
    }
}

/// Whether any unit's sections mention traffic control.
pub open spec fn needs_tc(units: Seq<UnitIr>) -> bool {
    needs_from(units, 0, 0)
}

/// Whether any unit's sections mention the packet filter.
pub open spec fn needs_xdp(units: Seq<UnitIr>) -> bool {
    needs_from(units, 0, 1)
}

/// Whether any unit's sections mention socket hooks.
pub open spec fn needs_sk(units: Seq<UnitIr>) -> bool {
    needs_from(units, 0, 2)
}

pub open spec fn tc_codes_text() -> Seq<char> {
    "/* TC Action codes */\n#ifndef TC_ACT_OK\n#define TC_ACT_OK 0\n#define TC_ACT_SHOT 2\n#define TC_ACT_UNSPEC -1\n#endif\n\n"@
}

pub open spec fn xdp_codes_text() -> Seq<char> {
    "/* XDP Action codes */\n#ifndef XDP_ABORTED\n#define XDP_ABORTED 0\n#define XDP_DROP 1\n#define XDP_PASS 2\n#define XDP_TX 3\n#define XDP_REDIRECT 4\n#endif\n\n"@
}

pub open spec fn sk_codes_text() -> Seq<char> {
    "/* Socket Action codes */\n#ifndef SK_PASS\n#define SK_PASS 1\n#define SK_DROP 0\n#endif\n\n"@
}

/// The prelude: includes, then action-code constants for each hook
/// category used by at least one unit.
pub open spec fn prelude_text(units: Seq<UnitIr>) -> Seq<char> {
    "#include \"vmlinux.h\"\n#include <bpf/bpf_helpers.h>\n#include <bpf/bpf_endian.h>\n\n"@
        + (if needs_tc(units) {
        tc_codes_text()
    } else {
        Seq::empty()
    }) + (if needs_xdp(units) {
        xdp_codes_text()
    } else {
        Seq::empty()
    }) + (if needs_sk(units) {
        sk_codes_text()
    } else {
        Seq::empty()
    })
}

/// The texts of the units from index `i` on, when every remaining unit's
/// first section is recognised.
pub open spec fn units_text(units: Seq<UnitIr>, i: int) -> Option<Seq<char>>
    decreases units.len() - i,
{
    if i < 0 || i >= units.len() {
        Some(Seq::empty())
    } else {
        match unit_text(units[i]) {
            None => None,
            Some(t) => match units_text(units, i + 1) {
                None => None,
                Some(rest) => Some(t + rest),
            },
        }
    }
}

/// The whole generated target text, when every unit dispatches.
pub open spec fn program_text(p: ProgramIr) -> Option<Seq<char>> {
    match units_text(p.units@, 0) {
        None => None,
        Some(t) => Some(prelude_text(p.units@) + maps_text(p.maps@, 0) + t),
    }
}

/// Scans every unit's sections once for the three prelude flags.
#[verifier::loop_isolation(false)]
fn scan_needs(units: &Vec<UnitIr>) -> (r: (bool, bool, bool))
    ensures
        r.0 == needs_tc(units@),
        r.1 == needs_xdp(units@),
        r.2 == needs_sk(units@),
{
    let mut tc = false;
    let mut xdp = false;
    let mut sk = false;
    let mut i: usize = 0;
    while i < units.len()
        invariant
            i <= units@.len(),
            needs_from(units@, 0, 0) == (tc || needs_from(units@, i as int, 0)),
            needs_from(units@, 0, 1) == (xdp || needs_from(units@, i as int, 1)),
            needs_from(units@, 0, 2) == (sk || needs_from(units@, i as int, 2)),
        decreases units@.len() - i,
    {
        let u = &units[i];
        let mut j: usize = 0;
        while j < u.sections.len()
            invariant
                j <= u.sections@.len(),
                u == units@[i as int],
                i < units@.len(),
                needs_from(units@, 0, 0) == (tc || unit_needs_from(*u, j as int, 0)
                    || needs_from(units@, i as int + 1, 0)),
                needs_from(units@, 0, 1) == (xdp || unit_needs_from(*u, j as int, 1)
                    || needs_from(units@, i as int + 1, 1)),
                needs_from(units@, 0, 2) == (sk || unit_needs_from(*u, j as int, 2)
                    || needs_from(units@, i as int + 1, 2)),
            decreases u.sections@.len() - j,
        {
            let s = u.sections[j].as_str();
            if str_contains(s, "tc") || str_eq(s, "classifier") {
                tc = true;
            }
            if str_contains(s, "xdp") {
                xdp = true;
            }
            if str_contains(s, "sk_") {
                sk = true;
            }
            j += 1;
        }
        i += 1;
    }
    (tc, xdp, sk)
}

/// Emits the prelude for the given units.
pub fn emit_prelude(out: &mut String, units: &Vec<UnitIr>)
    ensures
        final(out)@ == old(out)@ + prelude_text(units@),
{
    out.append("#include \"vmlinux.h\"\n#include <bpf/bpf_helpers.h>\n#include <bpf/bpf_endian.h>\n\n");
    let (tc, xdp, sk) = scan_needs(units);
    if tc {
        out.append("/* TC Action codes */\n#ifndef TC_ACT_OK\n#define TC_ACT_OK 0\n#define TC_ACT_SHOT 2\n#define TC_ACT_UNSPEC -1\n#endif\n\n");
    }
    if xdp {
        out.append("/* XDP Action codes */\n#ifndef XDP_ABORTED\n#define XDP_ABORTED 0\n#define XDP_DROP 1\n#define XDP_PASS 2\n#define XDP_TX 3\n#define XDP_REDIRECT 4\n#endif\n\n");
    }
    if sk {
        out.append("/* Socket Action codes */\n#ifndef SK_PASS\n#define SK_PASS 1\n#define SK_DROP 0\n#endif\n\n");
    }
    proof {
        assert(out@ =~= old(out)@ + prelude_text(units@));
    }
}

/// Emits one unit under its first hook section, or reports the section
/// the dispatch table does not recognise.
fn emit_unit(out: &mut String, unit: &UnitIr) -> (r: Result<(), String>)
    ensures
        r is Ok <==> unit_text(*unit) is Some,
        r is Ok ==> final(out)@ == old(out)@ + unit_text(*unit)->0,
        r is Err ==> final(out)@ == old(out)@,
{
    let s: &str = if unit.sections.len() > 0 {
        unit.sections[0].as_str()
    } else {
        "unknown"
    };
    proof {
        assert(s@ == sec0(*unit));
    }
    if str_eq(s, "xdp") {
        emit_xdp(out, unit);
        return Ok(());
    }
    if str_eq(s, "tc") || str_eq(s, "classifier") {
        emit_tc(out, unit, "classifier");
        return Ok(());
    }
    if str_eq(s, "tcx") || str_eq(s, "tcx/egress") || str_eq(s, "tc/egress") {
        emit_tc(out, unit, "tcx/egress");
        return Ok(());
    }
    if str_eq(s, "tcx/ingress") || str_eq(s, "tc/ingress") {
        emit_tc(out, unit, "tcx/ingress");
        return Ok(());
    }
    if str_eq(s, "sk_skb/stream_parser") || str_eq(s, "sk_skb/stream_verdict") {
        emit_sk_skb(out, unit, s);
        return Ok(());
    }
    if str_eq(s, "sk_msg") {
        emit_sk_msg(out, unit);
        return Ok(());
    }
    if str_eq(s, "cgroup/skb/ingress") || str_eq(s, "cgroup/skb/egress") || str_eq(
        s,
        "cgroup/sock",
    ) {
        emit_cgroup(out, unit, s);
        return Ok(());
    }
    if str_eq(s, "cgroup/sock_addr") {
        emit_cgroup_sock_addr(out, unit);
        return Ok(());
    }
    if str_starts_with(s, "kprobe/") || str_starts_with(s, "kretprobe/") {
        emit_kprobe(out, unit, s);
        return Ok(());
    }
    if str_starts_with(s, "raw_tracepoint/") {
        emit_raw_tracepoint(out, unit, s);
        return Ok(());
    }
    if str_starts_with(s, "tracepoint/") {
        emit_tracepoint(out, unit, s);
        return Ok(());
    }
    if str_starts_with(s, "fentry/") || str_starts_with(s, "fexit/") {
        emit_fentry(out, unit, s);
        return Ok(());
    }
    if str_starts_with(s, "lsm/") {
        emit_lsm(out, unit, s);
        return Ok(());
    }
    let mut m = String::new();
    m.append("Unsupported section: ");
    m.append(s);
    Err(m)
}

/// Emits the whole program: the prelude, every map declaration, and one
/// handler per unit. The first unit whose section the dispatch table
/// does not recognise fails the whole emission.
#[verifier::loop_isolation(false)]
pub fn emit_program(program: &ProgramIr) -> (r: Result<String, String>)
    ensures
        r is Ok <==> program_text(*program) is Some,
        r matches Ok(t) ==> t@ == program_text(*program)->0,
{
    let mut out = String::new();
    emit_prelude(&mut out, &program.units);
    emit_maps(&mut out, &program.maps);
    let ghost base = out@;

    let mut i: usize = 0;
    while i < program.units.len()
        invariant
            i <= program.units@.len(),
            units_text(program.units@, 0) is Some <==> units_text(
                program.units@,
                i as int,
            ) is Some,
            units_text(program.units@, i as int) is Some ==> base + units_text(
                program.units@,
                0,
            )->0 == out@ + units_text(program.units@, i as int)->0,
        decreases program.units@.len() - i,
    {
        match emit_unit(&mut out, &program.units[i]) {
            Ok(()) => {},
            Err(e) => {
                return Err(e);
            },
        }
        i += 1;
    }
    proof {
        if units_text(program.units@, 0) is Some {
            assert(out@ =~= base + units_text(program.units@, 0)->0);
        }
    }
    Ok(out)
}

} // verus!
