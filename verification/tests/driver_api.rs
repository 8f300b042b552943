//! The parser driver's own surface: the one-token lookahead accessors and
//! the driver-level expression form, plus operand and token helpers.

use solnix::ir::instruction::{Operand, VarId};
use solnix::parser::{BinOp, Expr, Parser};
use solnix::token::{SourceLoc, Token, TokenKind};

#[test]
fn lookahead_accessors_report_the_current_token() {
    let mut p = Parser::new("map counters").unwrap();
    assert_eq!(p.current_kind(), TokenKind::KeywordMap);
    assert_eq!(p.current_loc().offset, 0);
    assert!(p.check(TokenKind::KeywordMap));
    assert!(!p.check(TokenKind::KeywordUnit));
    assert!(p.match_token(TokenKind::KeywordMap).unwrap());
    assert_eq!(p.current().lexeme, "counters");
    let t = p.expect(TokenKind::Identifier).unwrap();
    assert_eq!(t.lexeme, "counters");
    assert!(p.check(TokenKind::Eof));
    assert!(p.expect(TokenKind::Identifier).is_err());
}

#[test]
fn driver_expression_form_folds_additions_left() {
    let mut p = Parser::new("1 + two + 3").unwrap();
    let e = p.parse_expr().unwrap();
    match e {
        Expr::Binary { left, op: BinOp::Add, right } => {
            assert!(matches!(*right, Expr::Number(3)));
            match *left {
                Expr::Binary { left, op: BinOp::Add, right } => {
                    assert!(matches!(*left, Expr::Number(1)));
                    assert!(matches!(*right, Expr::Var(v) if v == "two"));
                }
                other => panic!("unexpected tree: {:?}", other),
            }
        }
        other => panic!("unexpected tree: {:?}", other),
    }
}

#[test]
fn driver_expression_form_rejects_non_primaries() {
    let mut p = Parser::new("+ 1").unwrap();
    assert!(p.parse_expr().is_err());
}

#[test]
fn operand_kind_predicates() {
    assert!(Operand::Var(VarId(3)).is_register());
    assert!(!Operand::Var(VarId(3)).is_immediate());
    assert!(Operand::Immediate(-1).is_immediate());
    assert!(!Operand::Immediate(-1).is_register());
    let raw = Operand::String("pending".to_string());
    assert!(!raw.is_register());
    assert!(!raw.is_immediate());
}

#[test]
fn token_constructors_fill_their_fields() {
    let loc = SourceLoc::new(2, 5, 17);
    let t = Token::new(TokenKind::Identifier, "abc".to_string(), loc);
    assert_eq!(t.kind, TokenKind::Identifier);
    assert_eq!(t.int_value, None);
    let n = Token::new_number("42".to_string(), loc, 42);
    assert_eq!(n.kind, TokenKind::Number);
    assert_eq!(n.int_value, Some(42));
    let e = Token::eof(99);
    assert_eq!(e.kind, TokenKind::Eof);
    assert_eq!(e.loc.offset, 99);
    assert_eq!(TokenKind::KeywordHeap.text(), "heap");
}
