//! Backend emission: each unit's first hook section selects an emitter
//! that renders hook-correct target source text. Shared here: the license
//! marker every emitter leads with, the type names of the target language,
//! and substring search used by the prelude's scan.

pub mod cgroup;
pub mod fentry;
pub mod kprobe;
pub mod lsm;
pub mod maps;
pub mod program;
pub mod raw_tracepoint;
pub mod sk;
pub mod tc;
pub mod tracepoint;
pub mod xdp;

use vstd::prelude::*;
use crate::ast::Type;

verus! {

/// The license marker leading every generated handler.
pub open spec fn license_text(lic: Seq<char>) -> Seq<char> {
    "char LICENSE[] SEC(\"license\") = \""@ + lic + "\";\n\n"@
}

/// Appends the license marker for `lic`.
pub fn emit_license(out: &mut String, lic: &str)
    ensures
        final(out)@ == old(out)@ + license_text(lic@),
{
    out.append("char LICENSE[] SEC(\"license\") = \"");
    out.append(lic);
    out.append("\";\n\n");
    proof {
        assert(out@ =~= old(out)@ + license_text(lic@));
    }
}

/// The target-language name of an integer kind.
pub open spec fn ctype_text(t: Type) -> Seq<char> {
    match t {
        Type::U32 => "__u32"@,
        Type::U64 => "__u64"@,
        Type::I32 => "__s32"@,
        Type::I64 => "__s64"@,
    }
}

/// Appends the target-language name of an integer kind.
pub fn append_ctype(out: &mut String, t: Type)
    ensures
        final(out)@ == old(out)@ + ctype_text(t),
{
    match t {
        Type::U32 => out.append("__u32"),
        Type::U64 => out.append("__u64"),
        Type::I32 => out.append("__s32"),
        Type::I64 => out.append("__s64"),
    }
}

/// Whether `p` occurs as a contiguous subsequence of `s`.
pub open spec fn contains_sub(s: Seq<char>, p: Seq<char>) -> bool {
    exists|k: int| 0 <= k && k + p.len() <= s.len() && #[trigger] s.subrange(k, k + p.len()) == p
}

#[verifier::loop_isolation(false)]
fn match_at(s: &str, p: &str, k: usize) -> (r: bool)
    requires
        k + p@.len() <= s@.len(),
        s@.len() <= usize::MAX,
    ensures
        r == (s@.subrange(k as int, k as int + p@.len() as int) == p@),
{
    let lp = p.unicode_len();
    let mut i: usize = 0;
    while i < lp
        invariant
            lp == p@.len(),
            k + lp <= s@.len(),
            i <= lp,
            forall|j: int| 0 <= j < i ==> s@[k + j] == p@[j],
        decreases lp - i,
    {
        if s.get_char(k + i) != p.get_char(i) {
            assert(s@.subrange(k as int, k as int + p@.len() as int)[i as int] != p@[i as int]);
            return false;
        }
        i += 1;
    }
    assert(s@.subrange(k as int, k as int + p@.len() as int) =~= p@);
    true
}

/// Substring search, character for character.
#[verifier::loop_isolation(false)]
pub fn str_contains(s: &str, p: &str) -> (r: bool)
    ensures
        r == contains_sub(s@, p@),
{
    let ls = s.unicode_len();
    let lp = p.unicode_len();
    if lp > ls {
        return false;
    }
    if lp == 0 {
        proof {
            assert(s@.subrange(0, 0 + p@.len() as int) =~= p@);
        }
        return true;
    }
    let mut k: usize = 0;
    while k <= ls - lp
        invariant
            ls == s@.len(),
            lp == p@.len(),
            lp <= ls,
            1 <= lp,
            k <= ls - lp + 1,
            forall|j: int|
                0 <= j < k ==> #[trigger] s@.subrange(j, j + p@.len() as int) != p@,
        decreases ls + 1 - k,
    {
        if match_at(s, p, k) {
            return true;
        }
        k += 1;
    }
    false
}

} // verus!
