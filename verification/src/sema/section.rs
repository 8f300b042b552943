//! The hook-section grammar: a fixed list of static section names, plus
//! parametrized forms for tracepoints, probes and traffic-control sections,
//! whose suffix must be a well-formed identifier or extras string. The
//! identifier and extras character classes are ASCII, matching the token
//! grammar of the language.

use vstd::prelude::*;
use crate::strutil::{
    alpha_char, digit_char, is_alpha_char, is_digit_char, is_prefix_of, str_eq, str_starts_with,
};

verus! {

/// A character allowed after the first one of a parametrized section's
/// identifier: alphanumeric, underscore or dot.
pub open spec fn is_sec_ident_char(c: char) -> bool {
    is_alpha_char(c) || is_digit_char(c) || c == '_' || c == '.'
}

/// An identifier in a parametrized section: nonempty, starting with a
/// letter or underscore, then alphanumerics, underscores or dots.
pub open spec fn is_valid_sec_ident(s: Seq<char>) -> bool {
    &&& s.len() > 0
    &&& (is_alpha_char(s[0]) || s[0] == '_')
    &&& forall|i: int| 1 <= i < s.len() ==> is_sec_ident_char(#[trigger] s[i])
}

/// A character allowed in custom traffic-control extras: alphanumeric,
/// underscore, dot or dash.
pub open spec fn is_tc_extras_char(c: char) -> bool {
    is_alpha_char(c) || is_digit_char(c) || c == '_' || c == '.' || c == '-'
}

/// The extras allowed after `tc/`, `classifier/` or `action/`.
pub open spec fn is_valid_tc_extras(s: Seq<char>) -> bool {
    forall|i: int| 0 <= i < s.len() ==> is_tc_extras_char(#[trigger] s[i])
}

/// A path of exactly two identifiers separated by one slash.
pub open spec fn is_two_part_path(p: Seq<char>) -> bool {
    exists|k: int|
        {
            &&& 0 <= k < p.len()
            &&& #[trigger] p[k] == '/'
            &&& (forall|j: int| 0 <= j < p.len() && #[trigger] p[j] == '/' ==> j == k)
            &&& is_valid_sec_ident(p.subrange(0, k))
            &&& is_valid_sec_ident(p.subrange(k + 1, p.len() as int))
        }
}

/// One of the statically recognised section names.
pub open spec fn is_static_section(s: Seq<char>) -> bool {
    ||| s == "xdp"@ ||| s == "xdp/ingress"@ ||| s == "xdp/egress"@ ||| s == "xdp/frags"@
    ||| s == "xdp/devmap"@ ||| s == "xdp/cpumap"@ ||| s == "xdp/offload"@
    ||| s == "tc"@ ||| s == "classifier"@ ||| s == "action"@
    ||| s == "tcx/ingress"@ ||| s == "tcx/egress"@ ||| s == "tc/ingress"@ ||| s == "tc/egress"@
    ||| s == "tracepoint"@ ||| s == "tp"@ ||| s == "raw_tracepoint"@ ||| s == "raw_tp"@
    ||| s == "tp_btf"@
    ||| s == "cgroup_skb"@ ||| s == "cgroup_sock"@
    ||| s == "cgroup_skb/ingress"@ ||| s == "cgroup_skb/egress"@
    ||| s == "sockops"@ ||| s == "sk_msg"@
    ||| s == "maps"@ ||| s == "license"@ ||| s == "version"@ ||| s == "perf_event"@
}

/// Whether a section string is recognised by the hook-section grammar.
pub open spec fn is_valid_section(s: Seq<char>) -> bool {
    if is_static_section(s) {
        true
    } else if is_prefix_of("tracepoint/"@, s) {
        is_two_part_path(s.skip(11))
    } else if is_prefix_of("tp/"@, s) {
        is_two_part_path(s.skip(3))
    } else if is_prefix_of("raw_tracepoint/"@, s) {
        is_valid_sec_ident(s.skip(15))
    } else if is_prefix_of("raw_tp/"@, s) {
        is_valid_sec_ident(s.skip(7))
    } else if is_prefix_of("tp_btf/"@, s) {
        is_valid_sec_ident(s.skip(7))
    } else if is_prefix_of("kprobe/"@, s) {
        is_valid_sec_ident(s.skip(7))
    } else if is_prefix_of("kretprobe/"@, s) {
        is_valid_sec_ident(s.skip(10))
    } else if is_prefix_of("uprobe/"@, s) {
        is_valid_sec_ident(s.skip(7))
    } else if is_prefix_of("uretprobe/"@, s) {
        is_valid_sec_ident(s.skip(10))
    } else if is_prefix_of("tc/"@, s) {
        tc_extras_ok(s.skip(3))
    } else if is_prefix_of("classifier/"@, s) {
        tc_extras_ok(s.skip(11))
    } else if is_prefix_of("action/"@, s) {
        tc_extras_ok(s.skip(7))
    } else {
        false
    }
}

/// The rule for what follows `tc/`, `classifier/` or `action/`: nonempty,
/// and either a fixed direction or a custom extras string.
pub open spec fn tc_extras_ok(e: Seq<char>) -> bool {
    e.len() > 0 && (e == "ingress"@ || e == "egress"@ || is_valid_tc_extras(e))
}

/// Validator for hook-section names.
pub struct SectionValidator;

impl SectionValidator {
    fn sec_ident_char(c: char) -> (r: bool)
        ensures
            r == is_sec_ident_char(c),
    {
        alpha_char(c) || digit_char(c) || c == '_' || c == '.'
    }

    fn tc_extras_char(c: char) -> (r: bool)
        ensures
            r == is_tc_extras_char(c),
    {
        alpha_char(c) || digit_char(c) || c == '_' || c == '.' || c == '-'
    }

    fn is_valid_identifier(name: &str) -> (r: bool)
        ensures
            r == is_valid_sec_ident(name@),
    {
        let len = name.unicode_len();
        if len == 0 {
            return false;
        }
        let first = name.get_char(0);
        if !(alpha_char(first) || first == '_') {
            return false;
        }
        let mut i: usize = 1;
        while i < len
            invariant
                len == name@.len(),
                1 <= i <= len,
                forall|j: int| 1 <= j < i ==> is_sec_ident_char(#[trigger] name@[j]),
            decreases len - i,
        {
            if !Self::sec_ident_char(name.get_char(i)) {
                return false;
            }
            i += 1;
        }
        true
    }

    fn is_valid_tc_extras(extras: &str) -> (r: bool)
        ensures
            r == is_valid_tc_extras(extras@),
    {
        let len = extras.unicode_len();
        let mut i: usize = 0;
        while i < len
            invariant
                len == extras@.len(),
                i <= len,
                forall|j: int| 0 <= j < i ==> is_tc_extras_char(#[trigger] extras@[j]),
            decreases len - i,
        {
            if !Self::tc_extras_char(extras.get_char(i)) {
                return false;
            }
            i += 1;
        }
        true
    }

    fn is_static(section: &str) -> (r: bool)
        ensures
            r == is_static_section(section@),
    {
        str_eq(section, "xdp") || str_eq(section, "xdp/ingress") || str_eq(section, "xdp/egress")
            || str_eq(section, "xdp/frags") || str_eq(section, "xdp/devmap")
            || str_eq(section, "xdp/cpumap") || str_eq(section, "xdp/offload")
            || str_eq(section, "tc") || str_eq(section, "classifier") || str_eq(section, "action")
            || str_eq(section, "tcx/ingress") || str_eq(section, "tcx/egress")
            || str_eq(section, "tc/ingress") || str_eq(section, "tc/egress")
            || str_eq(section, "tracepoint") || str_eq(section, "tp")
            || str_eq(section, "raw_tracepoint") || str_eq(section, "raw_tp")
            || str_eq(section, "tp_btf")
            || str_eq(section, "cgroup_skb") || str_eq(section, "cgroup_sock")
            || str_eq(section, "cgroup_skb/ingress") || str_eq(section, "cgroup_skb/egress")
            || str_eq(section, "sockops") || str_eq(section, "sk_msg")
            || str_eq(section, "maps") || str_eq(section, "license")
            || str_eq(section, "version") || str_eq(section, "perf_event")
    }

    /// Splits `path` at its single slash and validates both identifiers.
    fn is_two_part(path: &str) -> (r: bool)
        ensures
            r == is_two_part_path(path@),
    {
        let len = path.unicode_len();
        let mut k: usize = 0;
        while k < len && path.get_char(k) != '/'
            invariant
                len == path@.len(),
                k <= len,
                forall|j: int| 0 <= j < k ==> #[trigger] path@[j] != '/',
            decreases len - k,
        {
            k += 1;
        }
        if k >= len {
            assert(!is_two_part_path(path@));
            return false;
        }
        // No second slash may follow.
        let mut j: usize = k + 1;
        while j < len && path.get_char(j) != '/'
            invariant
                len == path@.len(),
                k < j <= len,
                forall|t: int| k < t < j ==> #[trigger] path@[t] != '/',
            decreases len - j,
        {
            j += 1;
        }
        if j < len {
            assert(!is_two_part_path(path@)) by {
                assert(path@[k as int] == '/');
                assert(path@[j as int] == '/');
            }
            return false;
        }
        let a = Self::is_valid_identifier(path.substring_char(0, k));
        let b = Self::is_valid_identifier(path.substring_char(k + 1, len));
        let r = a && b;
        proof {
            if r {
                assert(is_two_part_path(path@)) by {
                    assert(path@[k as int] == '/');
                    assert(forall|t: int|
                        0 <= t < path@.len() && #[trigger] path@[t] == '/' ==> t == k as int);
                }
            } else {
                assert(!is_two_part_path(path@)) by {
                    if is_two_part_path(path@) {
                        let kk = choose|kk: int|
                            {
                                &&& 0 <= kk < path@.len()
                                &&& #[trigger] path@[kk] == '/'
                                &&& (forall|t: int|
                                    0 <= t < path@.len() && #[trigger] path@[t] == '/' ==> t == kk)
                                &&& is_valid_sec_ident(path@.subrange(0, kk))
                                &&& is_valid_sec_ident(
                                    path@.subrange(kk + 1, path@.len() as int),
                                )
                            };
                        assert(kk == k as int);
                    }
                }
            }
        }
        r
    }

    fn tc_extras(extras: &str) -> (r: bool)
        ensures
            r == tc_extras_ok(extras@),
    {
        if extras.unicode_len() == 0 {
            return false;
        }
        if str_eq(extras, "ingress") || str_eq(extras, "egress") {
            return true;
        }
        Self::is_valid_tc_extras(extras)
    }

    /// Whether the section name is recognised by the hook-section grammar.
    pub fn is_valid(section: &str) -> (r: bool)
        ensures
            r == is_valid_section(section@),
    {
        if Self::is_static(section) {
            return true;
        }
        let len = section.unicode_len();
        if str_starts_with(section, "tracepoint/") {
            proof { reveal_strlit("tracepoint/"); }
            return Self::is_two_part(section.substring_char(11, len));
        }
        if str_starts_with(section, "tp/") {
            proof { reveal_strlit("tp/"); }
            return Self::is_two_part(section.substring_char(3, len));
        }
        if str_starts_with(section, "raw_tracepoint/") {
            proof { reveal_strlit("raw_tracepoint/"); }
            return Self::is_valid_identifier(section.substring_char(15, len));
        }
        if str_starts_with(section, "raw_tp/") {
            proof { reveal_strlit("raw_tp/"); }
            return Self::is_valid_identifier(section.substring_char(7, len));
        }
        if str_starts_with(section, "tp_btf/") {
            proof { reveal_strlit("tp_btf/"); }
            return Self::is_valid_identifier(section.substring_char(7, len));
        }
        if str_starts_with(section, "kprobe/") {
            proof { reveal_strlit("kprobe/"); }
            return Self::is_valid_identifier(section.substring_char(7, len));
        }
        if str_starts_with(section, "kretprobe/") {
            proof { reveal_strlit("kretprobe/"); }
            return Self::is_valid_identifier(section.substring_char(10, len));
        }
        if str_starts_with(section, "uprobe/") {
            proof { reveal_strlit("uprobe/"); }
            return Self::is_valid_identifier(section.substring_char(7, len));
        }
        if str_starts_with(section, "uretprobe/") {
            proof { reveal_strlit("uretprobe/"); }
            return Self::is_valid_identifier(section.substring_char(10, len));
        }
        if str_starts_with(section, "tc/") {
            proof { reveal_strlit("tc/"); }
            return Self::tc_extras(section.substring_char(3, len));
        }
        if str_starts_with(section, "classifier/") {
            proof { reveal_strlit("classifier/"); }
            return Self::tc_extras(section.substring_char(11, len));
        }
        if str_starts_with(section, "action/") {
            proof { reveal_strlit("action/"); }
            return Self::tc_extras(section.substring_char(7, len));
        }
        false
    }

    /// Help text listing the recognised section formats.
    pub fn valid_formats() -> &'static str {
        "Valid eBPF section formats:\n  Networking:\n    - xdp, xdp/ingress, xdp/egress, xdp/frags...\n    - tc, tcx/ingress, tcx/egress, classifier, action\n  Tracepoints (Static):\n    - tracepoint/<cat>/<event> (or tp/<cat>/<event>)\n    - raw_tracepoint/<event>   (or raw_tp/<event>)\n    - tp_btf/<event>           (Modern/Fast)\n  Probes (Dynamic):\n    - kprobe/<func>, kretprobe/<func>\n    - uprobe/<sym>, uretprobe/<sym>\n  Infrastructure:\n    - maps, license, version\n"
    }
}

} // verus!
