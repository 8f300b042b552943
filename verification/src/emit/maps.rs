//! Map struct declarations: one block per declared map, carrying its
//! category, key and value types, and capacity. Map names are sanitised
//! into identifiers of the target language.

use vstd::prelude::*;
use crate::ast::{MapType, Type};
use crate::emit::{append_ctype, ctype_text};
use crate::ir::program::LoweredMap;
use crate::strutil::{
    alpha_char, dec_str, digit_char, is_alpha_char, is_digit_char, append_u64, push_char,
};

verus! {

/// The target-language constant for a map category.
pub open spec fn map_type_text(t: MapType) -> Seq<char> {
    match t {
        MapType::Hash => "BPF_MAP_TYPE_HASH"@,
        MapType::Array => "BPF_MAP_TYPE_ARRAY"@,
        MapType::Ringbuf => "BPF_MAP_TYPE_RINGBUF"@,
        MapType::LruHash => "BPF_MAP_TYPE_LRU_HASH"@,
        MapType::ProgArray => "BPF_MAP_TYPE_PROG_ARRAY"@,
        MapType::PerfEventArray => "BPF_MAP_TYPE_PERF_EVENT_ARRAY"@,
    }
}

fn append_map_type(out: &mut String, t: MapType)
    ensures
        final(out)@ == old(out)@ + map_type_text(t),
{
    match t {
        MapType::Hash => out.append("BPF_MAP_TYPE_HASH"),
        MapType::Array => out.append("BPF_MAP_TYPE_ARRAY"),
        MapType::Ringbuf => out.append("BPF_MAP_TYPE_RINGBUF"),
        MapType::LruHash => out.append("BPF_MAP_TYPE_LRU_HASH"),
        MapType::ProgArray => out.append("BPF_MAP_TYPE_PROG_ARRAY"),
        MapType::PerfEventArray => out.append("BPF_MAP_TYPE_PERF_EVENT_ARRAY"),
    }
}

/// What one character of a map name contributes to the sanitised
/// identifier.
pub open spec fn sanitize_char(c: char, first: bool) -> Seq<char> {
    if first && (is_alpha_char(c) || c == '_') {
        seq![c]
    } else if !first && (is_alpha_char(c) || is_digit_char(c) || c == '_') {
        seq![c]
    } else if is_alpha_char(c) || is_digit_char(c) {
        if first {
            seq!['_', c]
        } else {
            seq![c]
        }
    } else {
        seq!['_']
    }
}

/// The sanitised tail of a name from index `i` on.
pub open spec fn sanitize_from(s: Seq<char>, i: int) -> Seq<char>
    decreases s.len() - i,
{
    if i < 0 || i >= s.len() {
        Seq::empty()
    } else {
        sanitize_char(s[i], i == 0) + sanitize_from(s, i + 1)
    }
}

/// A map name turned into a target-language identifier: valid characters
/// are kept, a leading digit gains an underscore, anything else becomes
/// an underscore, and an empty name becomes a placeholder.
pub open spec fn sanitized_ident(s: Seq<char>) -> Seq<char> {
    if s.len() == 0 {
        "_map"@
    } else {
        sanitize_from(s, 0)
    }
}

/// Appends the sanitised identifier for a map name.
#[verifier::loop_isolation(false)]
pub fn append_sanitized_ident(out: &mut String, name: &str)
    ensures
        final(out)@ == old(out)@ + sanitized_ident(name@),
{
    let len = name.unicode_len();
    if len == 0 {
        out.append("_map");
        proof {
            assert(out@ =~= old(out)@ + sanitized_ident(name@));
        }
        return;
    }
    let mut i: usize = 0;
    while i < len
        invariant
            len == name@.len(),
            i <= len,
            old(out)@ + sanitize_from(name@, 0) == out@ + sanitize_from(name@, i as int),
        decreases len - i,
    {
        let c = name.get_char(i);
        let keep = if i == 0 {
            alpha_char(c) || c == '_'
        } else {
            alpha_char(c) || digit_char(c) || c == '_'
        };
        if keep {
            append_char_lit(out, c);
        } else if alpha_char(c) || digit_char(c) {
            if i == 0 {
                out.append("_");
                proof {
                    reveal_strlit("_");
                }
                append_char_lit(out, c);
            } else {
                append_char_lit(out, c);
            }
        } else {
            out.append("_");
            proof {
                reveal_strlit("_");
            }
        }
        proof {
            assert(old(out)@ + sanitize_from(name@, 0) =~= out@ + sanitize_from(
                name@,
                i as int + 1,
            ));
        }
        i += 1;
    }
    proof {
        assert(out@ =~= old(out)@ + sanitized_ident(name@));
    }
}

/// Appends one character.
fn append_char_lit(out: &mut String, c: char)
    ensures
        final(out)@ == old(out)@ + seq![c],
{
    push_char(out, c);
}

/// The declaration block of one map.
pub open spec fn map_text(m: LoweredMap) -> Seq<char> {
    "struct {\n    __uint(type, "@ + map_type_text(m.map_type) + ");\n    __uint(max_entries, "@
        + dec_str(m.max_entries as int) + ");\n"@ + (if !(m.map_type is Ringbuf) {
        "    __type(key, "@ + ctype_text(m.key_type) + ");\n    __type(value, "@ + ctype_text(
            m.value_type,
        ) + ");\n"@
    } else {
        Seq::empty()
    }) + "} "@ + sanitized_ident(m.name@) + " SEC(\".maps\");\n\n"@
}

/// The declaration blocks of every map, in order.
pub open spec fn maps_text(maps: Seq<LoweredMap>, i: int) -> Seq<char>
    decreases maps.len() - i,
{
    if i < 0 || i >= maps.len() {
        Seq::empty()
    } else {
        map_text(maps[i]) + maps_text(maps, i + 1)
    }
}

/// Emits the declaration block of one map.
#[verifier::rlimit(60)]
fn emit_one_map(out: &mut String, m: &LoweredMap)
    ensures
        final(out)@ == old(out)@ + map_text(*m),
{
    out.append("struct {\n    __uint(type, ");
    append_map_type(out, m.map_type);
    out.append(");\n    __uint(max_entries, ");
    append_u64(out, m.max_entries as u64);
    out.append(");\n");
    if !matches!(m.map_type, MapType::Ringbuf) {
        out.append("    __type(key, ");
        append_ctype(out, m.key_type);
        out.append(");\n    __type(value, ");
        append_ctype(out, m.value_type);
        out.append(");\n");
    }
    out.append("} ");
    append_sanitized_ident(out, m.name.as_str());
    out.append(" SEC(\".maps\");\n\n");
    proof {
        assert(out@ =~= old(out)@ + map_text(*m));
    }
}

/// Emits the declaration block of every map.
#[verifier::loop_isolation(false)]
pub fn emit_maps(out: &mut String, maps: &Vec<LoweredMap>)
    ensures
        final(out)@ == old(out)@ + maps_text(maps@, 0),
{
    let mut i: usize = 0;
    while i < maps.len()
        invariant
            i <= maps@.len(),
            old(out)@ + maps_text(maps@, 0) == out@ + maps_text(maps@, i as int),
        decreases maps@.len() - i,
    {
        emit_one_map(out, &maps[i]);
        proof {
            assert(old(out)@ + maps_text(maps@, 0) =~= out@ + maps_text(maps@, i as int + 1));
        }
        i += 1;
    }
    proof {
        assert(out@ =~= old(out)@ + maps_text(maps@, 0));
    }
}

} // verus!
