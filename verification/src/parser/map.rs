//! Parsing of map declarations. All four fields — `type`, `key`, `value`
//! and `max` — must be present exactly once each; a missing or repeated
//! field fails the parse. This structural completeness check is made at
//! parse time, not deferred to semantic validation.

use vstd::prelude::*;
use crate::ast::{MapDecl, MapType, Type};
use crate::parser::{consumed_grows, ParseError, Parser};
use crate::strutil::str_eq;
use crate::token::{Token, TokenKind};

verus! {

broadcast use crate::parser::lemma_parser_remaining;

/// The map category a category word stands for, tested in the order the
/// parser tries them.
pub open spec fn map_type_of_word(s: Seq<char>) -> Option<MapType> {
    if s == "hash"@ {
        Some(MapType::Hash)
    } else if s == "array"@ {
        Some(MapType::Array)
    } else if s == "ringbuf"@ {
        Some(MapType::Ringbuf)
    } else if s == "lru_hash"@ {
        Some(MapType::LruHash)
    } else if s == "prog_array"@ {
        Some(MapType::ProgArray)
    } else {
        None
    }
}

/// The consumed history holds a complete category clause for `mt` at
/// or after index `b`.
pub open spec fn has_type_clause(h: Seq<Token>, b: int, mt: MapType) -> bool {
    exists|i: int|
        b <= i && i + 3 < h.len() && (#[trigger] h[i]).kind == TokenKind::KeywordType
            && h[i + 1].kind == TokenKind::Colon && h[i + 2].kind == TokenKind::Dot
            && h[i + 3].kind == TokenKind::Identifier && map_type_of_word(h[i + 3].lexeme@)
            == Some(mt)
}

/// The consumed history holds a complete key clause for `kt`.
pub open spec fn has_key_clause(h: Seq<Token>, b: int, kt: Type) -> bool {
    exists|i: int|
        b <= i && i + 2 < h.len() && (#[trigger] h[i]).kind == TokenKind::KeywordKey
            && h[i + 1].kind == TokenKind::Colon && type_of_token(h[i + 2].kind) == Some(kt)
}

/// The consumed history holds a complete value clause for `vt`.
pub open spec fn has_value_clause(h: Seq<Token>, b: int, vt: Type) -> bool {
    exists|i: int|
        b <= i && i + 2 < h.len() && (#[trigger] h[i]).kind == TokenKind::KeywordValue
            && h[i + 1].kind == TokenKind::Colon && type_of_token(h[i + 2].kind) == Some(vt)
}

/// The consumed history holds a complete capacity clause whose literal,
/// nonnegative and taken to the machine width, is `me`.
pub open spec fn has_max_clause(h: Seq<Token>, b: int, me: u32) -> bool {
    exists|i: int|
        b <= i && i + 2 < h.len() && (#[trigger] h[i]).kind == TokenKind::KeywordMax
            && h[i + 1].kind == TokenKind::Colon && h[i + 2].kind == TokenKind::Number
            && (h[i + 2].int_value matches Some(v) && v >= 0 && me == v as u32)
}

/// The primitive type a type token stands for.
pub open spec fn type_of_token(k: TokenKind) -> Option<Type> {
    match k {
        TokenKind::TypeU32 => Some(Type::U32),
        TokenKind::TypeU64 => Some(Type::U64),
        TokenKind::TypeI32 => Some(Type::I32),
        TokenKind::TypeI64 => Some(Type::I64),
        _ => None,
    }
}

/// Parses one of the four primitive type names.
pub fn parse_type(parser: &mut Parser) -> (r: Result<Type, ParseError>)
    requires
        old(parser).wf(),
    ensures
        final(parser).wf(),
        r matches Ok(t) ==> {
            &&& type_of_token(old(parser).cur().kind) == Some(t)
            &&& final(parser).remaining() < old(parser).remaining()
            &&& final(parser).consumed() == old(parser).consumed().push(old(parser).cur())
        },
        consumed_grows(old(parser).consumed(), final(parser).consumed()),
        type_of_token(old(parser).cur().kind) is None ==> r is Err,
{
    broadcast use crate::ir::unit::lemma_subrange_full, crate::parser::lemma_consumed_push;

    let kind = parser.current_kind();
    let err = parser.error("Expected type (u32, u64, i32, i64)");
    parser.advance()?;
    match kind {
        TokenKind::TypeU32 => Ok(Type::U32),
        TokenKind::TypeU64 => Ok(Type::U64),
        TokenKind::TypeI32 => Ok(Type::I32),
        TokenKind::TypeI64 => Ok(Type::I64),
        _ => Err(err),
    }
}

/// Consumes a token of the given kind, dropping the token itself.
pub fn expect_token(parser: &mut Parser, kind: TokenKind) -> (r: Result<(), ParseError>)
    requires
        old(parser).wf(),
    ensures
        final(parser).wf(),
        r is Ok ==> {
            &&& old(parser).cur().kind == kind
            &&& (kind != TokenKind::Eof ==> final(parser).remaining() < old(parser).remaining())
            &&& final(parser).consumed() == old(parser).consumed().push(old(parser).cur())
        },
        r is Err ==> final(parser).consumed() == old(parser).consumed(),
{
    parser.expect(kind)?;
    Ok(())
}

/// Parses the body of a map declaration; the `map` keyword has already
/// been consumed, so the current token is the map's name.
#[verifier::loop_isolation(false)]
#[verifier::rlimit(100)]
#[verifier::spinoff_prover]
pub fn parse_map(parser: &mut Parser) -> (r: Result<MapDecl, ParseError>)
    requires
        old(parser).wf(),
    ensures
        final(parser).wf(),
        r matches Ok(m) ==> {
            &&& final(parser).remaining() < old(parser).remaining()
            &&& old(parser).cur().kind == TokenKind::Identifier
            &&& m.name@ == old(parser).cur().lexeme@
            &&& m.loc == old(parser).cur().loc
        },
        r matches Ok(m) ==> ({
            // Each of the four required fields was read from the input:
            // the parsed declaration's fields are pinned to the tokens of
            // their clauses in the consumed history.
            let h = final(parser).consumed();
            let b = old(parser).consumed().len() as int;
            &&& has_type_clause(h, b, m.map_type)
            &&& has_key_clause(h, b, m.key_type)
            &&& has_value_clause(h, b, m.value_type)
            &&& has_max_clause(h, b, m.max_entries)
        }),
        old(parser).cur().kind != TokenKind::Identifier ==> r is Err,
{
    let map_loc = parser.current_loc();

    let map_name_tok = parser.expect(TokenKind::Identifier)?;
    expect_token(parser, TokenKind::LBrace)?;

    let mut map_type: Option<MapType> = None;
    let mut key_type: Option<Type> = None;
    let mut value_type: Option<Type> = None;
    let mut max_entries: Option<u32> = None;
    let ghost b = old(parser).consumed().len() as int;
    let ghost mut wt: int = 0;
    let ghost mut wk: int = 0;
    let ghost mut wv: int = 0;
    let ghost mut wm: int = 0;

    while !parser.check(TokenKind::RBrace)
        invariant
            parser.wf(),
            parser.remaining() < old(parser).remaining(),
            b <= parser.consumed().len(),
            map_type matches Some(mt) ==> {
                let h = parser.consumed();
                &&& b <= wt && wt + 3 < h.len()
                &&& h[wt].kind == TokenKind::KeywordType
                &&& h[wt + 1].kind == TokenKind::Colon
                &&& h[wt + 2].kind == TokenKind::Dot
                &&& h[wt + 3].kind == TokenKind::Identifier
                &&& map_type_of_word(h[wt + 3].lexeme@) == Some(mt)
            },
            key_type matches Some(kt) ==> {
                let h = parser.consumed();
                &&& b <= wk && wk + 2 < h.len()
                &&& h[wk].kind == TokenKind::KeywordKey
                &&& h[wk + 1].kind == TokenKind::Colon
                &&& type_of_token(h[wk + 2].kind) == Some(kt)
            },
            value_type matches Some(vt) ==> {
                let h = parser.consumed();
                &&& b <= wv && wv + 2 < h.len()
                &&& h[wv].kind == TokenKind::KeywordValue
                &&& h[wv + 1].kind == TokenKind::Colon
                &&& type_of_token(h[wv + 2].kind) == Some(vt)
            },
            max_entries matches Some(me) ==> {
                let h = parser.consumed();
                &&& b <= wm && wm + 2 < h.len()
                &&& h[wm].kind == TokenKind::KeywordMax
                &&& h[wm + 1].kind == TokenKind::Colon
                &&& h[wm + 2].kind == TokenKind::Number
                &&& (h[wm + 2].int_value matches Some(v) && v >= 0 && me == v as u32)
            },
        decreases parser.remaining(),
    {
        let ghost p0 = parser.consumed().len() as int;
        if parser.match_token(TokenKind::KeywordType)? {
            if map_type.is_some() {
                return Err(parser.error("Duplicate map field: type"));
            }
            expect_token(parser, TokenKind::Colon)?;
            expect_token(parser, TokenKind::Dot)?;
            let t_tok = parser.expect(TokenKind::Identifier)?;

            let t = if str_eq(t_tok.lexeme.as_str(), "hash") {
                MapType::Hash
            } else if str_eq(t_tok.lexeme.as_str(), "array") {
                MapType::Array
            } else if str_eq(t_tok.lexeme.as_str(), "ringbuf") {
                MapType::Ringbuf
            } else if str_eq(t_tok.lexeme.as_str(), "lru_hash") {
                MapType::LruHash
            } else if str_eq(t_tok.lexeme.as_str(), "prog_array") {
                MapType::ProgArray
            } else {
                // Falls through to the unknown-category error below.
                let mut m = String::new();
                m.append("Unknown map type: ");
                m.append(t_tok.lexeme.as_str());
                return Err(parser.error_with_help(
                    m.as_str(),
                    "Valid types: hash, array, ringbuf, lru_hash, prog_array",
                ));
            };
            proof {
                assert(map_type_of_word(t_tok.lexeme@) == Some(t));
            }
            map_type = Some(t);

            expect_token(parser, TokenKind::Semicolon)?;
            proof {
                wt = p0;
                let h = parser.consumed();
                assert(h[p0].kind == TokenKind::KeywordType);
                assert(h[p0 + 1].kind == TokenKind::Colon);
                assert(h[p0 + 2].kind == TokenKind::Dot);
                assert(h[p0 + 3].kind == TokenKind::Identifier);
                assert(map_type_of_word(h[p0 + 3].lexeme@) == Some(t));
            }
            continue;
        }
        if parser.match_token(TokenKind::KeywordKey)? {
            if key_type.is_some() {
                return Err(parser.error("Duplicate map field: key"));
            }
            expect_token(parser, TokenKind::Colon)?;
            let t = parse_type(parser)?;
            key_type = Some(t);
            expect_token(parser, TokenKind::Semicolon)?;
            proof {
                wk = p0;
                let h = parser.consumed();
                assert(h[p0].kind == TokenKind::KeywordKey);
                assert(h[p0 + 1].kind == TokenKind::Colon);
                assert(type_of_token(h[p0 + 2].kind) == Some(t));
            }
            continue;
        }
        if parser.match_token(TokenKind::KeywordValue)? {
            if value_type.is_some() {
                return Err(parser.error("Duplicate map field: value"));
            }
            expect_token(parser, TokenKind::Colon)?;
            let t = parse_type(parser)?;
            value_type = Some(t);
            expect_token(parser, TokenKind::Semicolon)?;
            proof {
                wv = p0;
                let h = parser.consumed();
                assert(h[p0].kind == TokenKind::KeywordValue);
                assert(h[p0 + 1].kind == TokenKind::Colon);
                assert(type_of_token(h[p0 + 2].kind) == Some(t));
            }
            continue;
        }
        if parser.match_token(TokenKind::KeywordMax)? {
            if max_entries.is_some() {
                return Err(parser.error("Duplicate map field: max"));
            }
            expect_token(parser, TokenKind::Colon)?;
            let n = parser.expect(TokenKind::Number)?;

            let max = match n.int_value {
                Some(v) => v,
                None => {
                    return Err(parser.error("Expected integer value for max_entries"));
                }
            };

            if max < 0 {
                return Err(parser.error("max_entries must be >= 0"));
            }

            max_entries = Some(#[verifier::truncate] (max as u32));
            expect_token(parser, TokenKind::Semicolon)?;
            proof {
                wm = p0;
                let h = parser.consumed();
                assert(h[p0].kind == TokenKind::KeywordMax);
                assert(h[p0 + 1].kind == TokenKind::Colon);
                assert(h[p0 + 2].kind == TokenKind::Number);
                assert(h[p0 + 2].int_value == Some(max));
            }
            continue;
        }

        let mut m = String::new();
        m.append("Unexpected token inside map: ");
        m.append(parser.current_kind().text());
        return Err(parser.error_with_help(m.as_str(), "Expected one of: type, key, value, max"));
    }

    expect_token(parser, TokenKind::RBrace)?;

    let map_type = match map_type {
        Some(t) => t,
        None => {
            return Err(parser.error("Map missing required field: type"));
        }
    };
    let key_type = match key_type {
        Some(t) => t,
        None => {
            return Err(parser.error("Map missing required field: key"));
        }
    };
    let value_type = match value_type {
        Some(t) => t,
        None => {
            return Err(parser.error("Map missing required field: value"));
        }
    };
    let max_entries = match max_entries {
        Some(t) => t,
        None => {
            return Err(parser.error("Map missing required field: max"));
        }
    };

    proof {
        let h = parser.consumed();
        assert(has_type_clause(h, b, map_type)) by {
            assert(b <= wt && wt + 3 < h.len() && h[wt].kind == TokenKind::KeywordType
                && h[wt + 1].kind == TokenKind::Colon && h[wt + 2].kind == TokenKind::Dot
                && h[wt + 3].kind == TokenKind::Identifier
                && map_type_of_word(h[wt + 3].lexeme@) == Some(map_type));
        }
        assert(has_key_clause(h, b, key_type)) by {
            assert(b <= wk && wk + 2 < h.len() && h[wk].kind == TokenKind::KeywordKey
                && h[wk + 1].kind == TokenKind::Colon && type_of_token(h[wk + 2].kind)
                == Some(key_type));
        }
        assert(has_value_clause(h, b, value_type)) by {
            assert(b <= wv && wv + 2 < h.len() && h[wv].kind == TokenKind::KeywordValue
                && h[wv + 1].kind == TokenKind::Colon && type_of_token(h[wv + 2].kind)
                == Some(value_type));
        }
        assert(has_max_clause(h, b, max_entries)) by {
            assert(b <= wm && wm + 2 < h.len() && h[wm].kind == TokenKind::KeywordMax
                && h[wm + 1].kind == TokenKind::Colon && h[wm + 2].kind == TokenKind::Number
                && (h[wm + 2].int_value matches Some(v) && v >= 0 && max_entries == v as u32));
        }
    }
    Ok(MapDecl {
        name: map_name_tok.lexeme,
        map_type,
        key_type,
        value_type,
        max_entries,
        loc: map_loc,
    })
}

} // verus!
