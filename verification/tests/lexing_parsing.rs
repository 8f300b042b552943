//! Tokens and the grammar: token kinds and values, map declarations with
//! their required fields, unit declarations, statements and expression
//! precedence.

use solnix::ast::{BinOp, ExprKind, MapType, StmtKind, Type, VarType};
use solnix::lexer::Lexer;
use solnix::parser::parse;
use solnix::token::TokenKind;

fn kinds(src: &str) -> Vec<TokenKind> {
    let mut lexer = Lexer::new(src);
    let mut out = Vec::new();
    loop {
        let t = lexer.next_token().expect("lexing failed");
        if t.kind == TokenKind::Eof {
            return out;
        }
        out.push(t.kind);
    }
}

#[test]
fn keywords_and_punctuation_lex() {
    assert_eq!(
        kinds("unit map { } ( ) : . ; = += + - * / %"),
        vec![
            TokenKind::KeywordUnit,
            TokenKind::KeywordMap,
            TokenKind::LBrace,
            TokenKind::RBrace,
            TokenKind::LParen,
            TokenKind::RParen,
            TokenKind::Colon,
            TokenKind::Dot,
            TokenKind::Semicolon,
            TokenKind::Equals,
            TokenKind::PlusEquals,
            TokenKind::Plus,
            TokenKind::Minus,
            TokenKind::Star,
            TokenKind::Slash,
            TokenKind::Percent,
        ]
    );
}

#[test]
fn numbers_lex_with_values() {
    let mut lexer = Lexer::new("42 0x2a -7 -0x10");
    let t = lexer.next_token().unwrap();
    assert_eq!(t.int_value, Some(42));
    let t = lexer.next_token().unwrap();
    assert_eq!(t.int_value, Some(42));
    let t = lexer.next_token().unwrap();
    assert_eq!(t.int_value, Some(-7));
    let t = lexer.next_token().unwrap();
    assert_eq!(t.int_value, Some(-16));
}

#[test]
fn comments_and_whitespace_are_skipped() {
    assert_eq!(
        kinds("// line\nunit /* block\nstill block */ map"),
        vec![TokenKind::KeywordUnit, TokenKind::KeywordMap]
    );
}

#[test]
fn unterminated_block_comment_is_an_error() {
    let mut lexer = Lexer::new("/* never closed");
    assert!(lexer.next_token().is_err());
}

#[test]
fn invalid_character_is_an_error() {
    let mut lexer = Lexer::new("@");
    assert!(lexer.next_token().is_err());
}

#[test]
fn string_literals_keep_quotes_in_lexeme() {
    let mut lexer = Lexer::new("\"GPL\"");
    let t = lexer.next_token().unwrap();
    assert_eq!(t.kind, TokenKind::StringLiteral);
    assert_eq!(t.lexeme, "\"GPL\"");
}

#[test]
fn unterminated_string_is_an_error() {
    let mut lexer = Lexer::new("\"no end");
    assert!(lexer.next_token().is_err());
}

#[test]
fn invalid_escape_is_an_error() {
    let mut lexer = Lexer::new("\"bad \\q escape\"");
    assert!(lexer.next_token().is_err());
}

#[test]
fn map_with_all_fields_parses() {
    let prog = parse(
        "map counters { type: .hash; key: u32; value: u64; max: 1024; }",
    )
    .expect("parse failed");
    assert_eq!(prog.maps.len(), 1);
    let m = &prog.maps[0];
    assert_eq!(m.name, "counters");
    assert_eq!(m.map_type, MapType::Hash);
    assert_eq!(m.key_type, Type::U32);
    assert_eq!(m.value_type, Type::U64);
    assert_eq!(m.max_entries, 1024);
}

#[test]
fn map_missing_type_fails_parsing() {
    assert!(parse("map m { key: u32; value: u64; max: 10; }").is_err());
}

#[test]
fn map_missing_key_fails_parsing() {
    assert!(parse("map m { type: .hash; value: u64; max: 10; }").is_err());
}

#[test]
fn map_missing_value_fails_parsing() {
    assert!(parse("map m { type: .hash; key: u32; max: 10; }").is_err());
}

#[test]
fn map_missing_max_fails_parsing() {
    assert!(parse("map m { type: .hash; key: u32; value: u64; }").is_err());
}

#[test]
fn map_with_zero_max_still_parses() {
    let prog = parse("map m { type: .hash; key: u32; value: u64; max: 0; }").unwrap();
    assert_eq!(prog.maps[0].max_entries, 0);
}

#[test]
fn map_repeated_field_fails_parsing() {
    assert!(
        parse("map m { type: .hash; type: .array; key: u32; value: u64; max: 1; }").is_err()
    );
}

#[test]
fn map_negative_max_fails_parsing() {
    assert!(parse("map m { type: .hash; key: u32; value: u64; max: -1; }").is_err());
}

#[test]
fn unknown_map_type_fails_parsing() {
    assert!(parse("map m { type: .treemap; key: u32; value: u64; max: 1; }").is_err());
}

#[test]
fn all_map_types_parse() {
    for (txt, mt) in [
        ("hash", MapType::Hash),
        ("array", MapType::Array),
        ("ringbuf", MapType::Ringbuf),
        ("lru_hash", MapType::LruHash),
        ("prog_array", MapType::ProgArray),
    ] {
        let src = format!("map m {{ type: .{}; key: i32; value: i64; max: 5; }}", txt);
        let prog = parse(&src).unwrap();
        assert_eq!(prog.maps[0].map_type, mt);
        assert_eq!(prog.maps[0].key_type, Type::I32);
        assert_eq!(prog.maps[0].value_type, Type::I64);
    }
}

#[test]
fn unit_with_sections_license_and_body_parses() {
    let prog = parse(
        "unit probe { section: \"xdp\"; license: \"GPL\"; return 0; }",
    )
    .unwrap();
    assert_eq!(prog.units.len(), 1);
    let u = &prog.units[0];
    assert_eq!(u.name, "probe");
    assert_eq!(u.sections, vec!["xdp".to_string()]);
    assert_eq!(u.license.as_deref(), Some("GPL"));
    assert_eq!(u.body.len(), 1);
    assert!(matches!(u.body[0].kind, StmtKind::Return(_)));
}

#[test]
fn reg_and_imm_declarations_parse() {
    let prog = parse("unit u { reg a = 1; imm b = 2; return a; }").unwrap();
    let u = &prog.units[0];
    match &u.body[0].kind {
        StmtKind::VarDecl(vd) => {
            assert_eq!(vd.name, "a");
            assert_eq!(vd.var_type, VarType::Reg);
        }
        other => panic!("unexpected statement: {:?}", other),
    }
    match &u.body[1].kind {
        StmtKind::VarDecl(vd) => {
            assert_eq!(vd.name, "b");
            assert_eq!(vd.var_type, VarType::Imm);
        }
        other => panic!("unexpected statement: {:?}", other),
    }
}

#[test]
fn heap_declaration_requires_lookup_method() {
    let prog = parse("unit u { heap h = m.lookup(5); return 0; }").unwrap();
    match &prog.units[0].body[0].kind {
        StmtKind::HeapVarDecl(h) => {
            assert_eq!(h.name, "h");
            assert_eq!(h.lookup.map_name, "m");
        }
        other => panic!("unexpected statement: {:?}", other),
    }
    assert!(parse("unit u { heap h = m.fetch(5); return 0; }").is_err());
}

#[test]
fn guard_parses_with_nested_body() {
    let prog = parse("unit u { reg x = 1; if guard(x) { x += 1; } return x; }").unwrap();
    match &prog.units[0].body[1].kind {
        StmtKind::IfGuard(g) => {
            assert!(matches!(g.condition.kind, ExprKind::Variable(_)));
            assert_eq!(g.body.len(), 1);
        }
        other => panic!("unexpected statement: {:?}", other),
    }
}

#[test]
fn multiplication_binds_tighter_than_addition() {
    let prog = parse("unit u { reg x = 1 + 2 * 3; return x; }").unwrap();
    match &prog.units[0].body[0].kind {
        StmtKind::VarDecl(vd) => match &vd.value.kind {
            ExprKind::Binary(b) => {
                assert_eq!(b.op, BinOp::Add);
                match &b.right.kind {
                    ExprKind::Binary(inner) => assert_eq!(inner.op, BinOp::Mul),
                    other => panic!("unexpected rhs: {:?}", other),
                }
            }
            other => panic!("unexpected value: {:?}", other),
        },
        other => panic!("unexpected statement: {:?}", other),
    }
}

#[test]
fn parenthesized_expression_overrides_precedence() {
    let prog = parse("unit u { reg x = (1 + 2) * 3; return x; }").unwrap();
    match &prog.units[0].body[0].kind {
        StmtKind::VarDecl(vd) => match &vd.value.kind {
            ExprKind::Binary(b) => {
                assert_eq!(b.op, BinOp::Mul);
                match &b.left.kind {
                    ExprKind::Binary(inner) => assert_eq!(inner.op, BinOp::Add),
                    other => panic!("unexpected lhs: {:?}", other),
                }
            }
            other => panic!("unexpected value: {:?}", other),
        },
        other => panic!("unexpected statement: {:?}", other),
    }
}

#[test]
fn method_call_and_dereference_parse() {
    let prog = parse("unit u { reg k = ctx.load_u32(26); reg v = *k; return v; }").unwrap();
    match &prog.units[0].body[0].kind {
        StmtKind::VarDecl(vd) => match &vd.value.kind {
            ExprKind::MethodCall(mc) => {
                assert_eq!(mc.receiver, "ctx");
                assert_eq!(mc.method, "load_u32");
            }
            other => panic!("unexpected value: {:?}", other),
        },
        other => panic!("unexpected statement: {:?}", other),
    }
    match &prog.units[0].body[1].kind {
        StmtKind::VarDecl(vd) => {
            assert!(matches!(vd.value.kind, ExprKind::Dereference(_)));
        }
        other => panic!("unexpected statement: {:?}", other),
    }
}

#[test]
fn stray_top_level_token_fails_parsing() {
    let e = parse("return 0;").unwrap_err();
    assert_eq!(e.message, "Expected 'map' or 'unit'");
    assert!(e.help.is_some());
}

#[test]
fn empty_source_parses_to_an_empty_program() {
    let p = parse("").expect("empty text is a valid empty program");
    assert!(p.maps.is_empty());
    assert!(p.units.is_empty());
}

#[test]
fn hex_prefix_without_digits_is_an_error() {
    let mut lexer = Lexer::new("0x");
    assert!(lexer.next_token().is_err());
    let mut lexer = Lexer::new("0xg");
    assert!(lexer.next_token().is_err());
}

#[test]
fn eof_token_comes_at_end_of_input() {
    let mut lexer = Lexer::new("   // only trivia\n");
    let t = lexer.next_token().unwrap();
    assert_eq!(t.kind, TokenKind::Eof);
}
