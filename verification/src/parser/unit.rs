//! Parsing of unit declarations: sections, the license, and the statement
//! body. Expressions are parsed by precedence climbing: additive operators
//! bind loosest, then multiplicative ones, then unary dereference, then
//! primary forms (literals, parentheses, identifiers, method calls).

use vstd::prelude::*;
use crate::ast::{
    Assignment, AssignmentOp, BinOp, BinaryExpr, Expr, ExprKind, HeapLookup, HeapVarDecl,
    IfGuard, MethodCall, Stmt, StmtKind, Unit, VarDecl, VarType,
};
use crate::parser::{consumed_grows, lemma_consumed_push, lemma_consumed_trans, ParseError,
    Parser};
use crate::parser::map::expect_token;
use crate::strutil::{str_eq, trim_quote_chars};
use crate::token::TokenKind;

verus! {

broadcast use crate::ir::unit::lemma_subrange_full, crate::parser::lemma_parser_remaining;


/// Parses a whole unit declaration, starting at the `unit` keyword.
#[verifier::loop_isolation(false)]
pub fn parse_unit(parser: &mut Parser) -> (r: Result<Unit, ParseError>)
    requires
        old(parser).wf(),
    ensures
        final(parser).wf(),
        r matches Ok(u) ==> {
            &&& final(parser).remaining() < old(parser).remaining()
            &&& u.loc == old(parser).cur().loc
            &&& old(parser).cur().kind == TokenKind::KeywordUnit
        },
        r matches Ok(u) ==> ({
            // The unit's name is the identifier token after the keyword.
            let h = final(parser).consumed();
            let b = old(parser).consumed().len() as int;
            &&& b + 2 < h.len()
            &&& h[b].kind == TokenKind::KeywordUnit
            &&& h[b + 1].kind == TokenKind::Identifier
            &&& u.name@ == h[b + 1].lexeme@
            &&& h[b + 2].kind == TokenKind::LBrace
        }),
        consumed_grows(old(parser).consumed(), final(parser).consumed()),
        old(parser).cur().kind != TokenKind::KeywordUnit ==> r is Err,
{
    broadcast use lemma_consumed_push, lemma_consumed_trans;
    let ghost b = old(parser).consumed().len() as int;
    let unit_loc = parser.current_loc();
    expect_token(parser, TokenKind::KeywordUnit)?;

    let name_tok = parser.expect(TokenKind::Identifier)?;
    expect_token(parser, TokenKind::LBrace)?;
    let ghost h1 = parser.consumed();

    let mut sections: Vec<String> = Vec::new();
    let mut body: Vec<Stmt> = Vec::new();
    let mut license: Option<String> = None;

    while !parser.check(TokenKind::RBrace)
        invariant
            parser.wf(),
            parser.remaining() < old(parser).remaining(),
            consumed_grows(h1, parser.consumed()),
        decreases parser.remaining(),
    {
        if parser.match_token(TokenKind::KeywordSection)? {
            expect_token(parser, TokenKind::Colon)?;
            let s = parser.expect(TokenKind::StringLiteral)?;

            let txt = trim_quote_chars(s.lexeme.as_str());
            sections.push(txt);
            expect_token(parser, TokenKind::Semicolon)?;
            continue;
        }

        if parser.match_token(TokenKind::KeywordLicense)? {
            expect_token(parser, TokenKind::Colon)?;
            let s = parser.expect(TokenKind::StringLiteral)?;

            let txt = trim_quote_chars(s.lexeme.as_str());
            license = Some(txt);
            expect_token(parser, TokenKind::Semicolon)?;
            continue;
        }

        parse_stmt(parser, &mut body)?;
    }

    expect_token(parser, TokenKind::RBrace)?;
    proof {
        assert(parser.consumed().subrange(0, h1.len() as int)[b] == h1[b]);
        assert(parser.consumed().subrange(0, h1.len() as int)[b + 1] == h1[b + 1]);
        assert(parser.consumed().subrange(0, h1.len() as int)[b + 2] == h1[b + 2]);
    }

    Ok(Unit { name: name_tok.lexeme, loc: unit_loc, sections, license, body })
}

/// Parses one statement and appends it to `body`.
pub fn parse_stmt(parser: &mut Parser, body: &mut Vec<Stmt>) -> (r: Result<(), ParseError>)
    requires
        old(parser).wf(),
    ensures
        final(parser).wf(),
        consumed_grows(old(parser).consumed(), final(parser).consumed()),
        r is Ok ==> final(parser).remaining() < old(parser).remaining(),
        r is Ok ==> final(body)@.len() == old(body)@.len() + 1 && final(body)@.subrange(
            0,
            old(body)@.len() as int,
        ) == old(body)@,
        r is Err ==> final(body)@ == old(body)@,
        r is Ok ==> ({
            // The pushed statement is the one the consumed tokens spell:
            // its kind follows the leading token, declared names come from
            // the identifier tokens, a heap declaration's method token is
            // literally `lookup`, and a guard's condition is the bare
            // identifier inside the parentheses.
            let h = final(parser).consumed();
            let b = old(parser).consumed().len() as int;
            let s = final(body)@.last();
            let k0 = old(parser).cur().kind;
            &&& (k0 == TokenKind::KeywordReg ==> (s.kind matches StmtKind::VarDecl(vd)
                && vd.var_type == VarType::Reg && b + 1 < h.len() && h[b + 1].kind
                == TokenKind::Identifier && vd.name@ == h[b + 1].lexeme@))
            &&& (k0 == TokenKind::KeywordImm ==> (s.kind matches StmtKind::VarDecl(vd)
                && vd.var_type == VarType::Imm && b + 1 < h.len() && h[b + 1].kind
                == TokenKind::Identifier && vd.name@ == h[b + 1].lexeme@))
            &&& (k0 == TokenKind::KeywordHeap ==> (s.kind matches StmtKind::HeapVarDecl(hd)
                && b + 5 < h.len() && h[b + 1].kind == TokenKind::Identifier && hd.name@ == h[b
                + 1].lexeme@ && h[b + 3].kind == TokenKind::Identifier && hd.lookup.map_name@
                == h[b + 3].lexeme@ && h[b + 5].kind == TokenKind::Identifier && h[b
                + 5].lexeme@ == "lookup"@))
            &&& (k0 == TokenKind::KeywordReturn ==> s.kind is Return)
            &&& (k0 == TokenKind::KeywordIf ==> (s.kind matches StmtKind::IfGuard(g) && b + 3
                < h.len() && h[b + 3].kind == TokenKind::Identifier && (g.condition.kind
                matches ExprKind::Variable(v) && v@ == h[b + 3].lexeme@) && g.condition.loc
                == h[b + 3].loc))
            &&& (!(k0 == TokenKind::KeywordReg || k0 == TokenKind::KeywordImm || k0
                == TokenKind::KeywordHeap || k0 == TokenKind::KeywordReturn || k0
                == TokenKind::KeywordIf) ==> s.kind is Assignment)
        }),
    decreases old(parser).remaining(), 7int,
{
    broadcast use lemma_consumed_push, lemma_consumed_trans;

    proof {
        assert(old(body)@.subrange(0, old(body)@.len() as int) =~= old(body)@);
    }
    let ghost b = old(parser).consumed().len() as int;
    if parser.match_token(TokenKind::KeywordReg)? {
        let var_loc = parser.current_loc();
        let var_name_tok = parser.expect(TokenKind::Identifier)?;
        let ghost h1 = parser.consumed();
        expect_token(parser, TokenKind::Equals)?;
        let value_expr = parse_expr(parser)?;
        expect_token(parser, TokenKind::Semicolon)?;
        proof {
            assert(parser.consumed().subrange(0, h1.len() as int)[b + 1] == h1[b + 1]);
        }

        body.push(Stmt {
            kind: StmtKind::VarDecl(VarDecl {
                name: var_name_tok.lexeme,
                var_type: VarType::Reg,
                value: Box::new(value_expr),
            }),
            loc: var_loc,
        });
        return Ok(());
    }

    if parser.match_token(TokenKind::KeywordImm)? {
        let var_loc = parser.current_loc();
        let var_name_tok = parser.expect(TokenKind::Identifier)?;
        let ghost h1 = parser.consumed();
        expect_token(parser, TokenKind::Equals)?;
        let value_expr = parse_expr(parser)?;
        expect_token(parser, TokenKind::Semicolon)?;
        proof {
            assert(parser.consumed().subrange(0, h1.len() as int)[b + 1] == h1[b + 1]);
        }

        body.push(Stmt {
            kind: StmtKind::VarDecl(VarDecl {
                name: var_name_tok.lexeme,
                var_type: VarType::Imm,
                value: Box::new(value_expr),
            }),
            loc: var_loc,
        });
        return Ok(());
    }

    if parser.match_token(TokenKind::KeywordHeap)? {
        let var_loc = parser.current_loc();
        let var_name_tok = parser.expect(TokenKind::Identifier)?;
        expect_token(parser, TokenKind::Equals)?;

        let map_name_tok = parser.expect(TokenKind::Identifier)?;
        expect_token(parser, TokenKind::Dot)?;
        let lookup_tok = parser.expect(TokenKind::Identifier)?;
        let ghost h1 = parser.consumed();

        if !str_eq(lookup_tok.lexeme.as_str(), "lookup") {
            let mut h = String::new();
            h.append("Found: ");
            h.append(lookup_tok.lexeme.as_str());
            return Err(parser.error_with_help("Expected 'lookup' method", h.as_str()));
        }

        expect_token(parser, TokenKind::LParen)?;
        let key_expr = parse_expr(parser)?;
        expect_token(parser, TokenKind::RParen)?;
        expect_token(parser, TokenKind::Semicolon)?;
        proof {
            assert(parser.consumed().subrange(0, h1.len() as int)[b + 1] == h1[b + 1]);
            assert(parser.consumed().subrange(0, h1.len() as int)[b + 3] == h1[b + 3]);
            assert(parser.consumed().subrange(0, h1.len() as int)[b + 5] == h1[b + 5]);
        }

        body.push(Stmt {
            kind: StmtKind::HeapVarDecl(HeapVarDecl {
                name: var_name_tok.lexeme,
                lookup: HeapLookup {
                    map_name: map_name_tok.lexeme,
                    key_expr: Box::new(key_expr),
                },
            }),
            loc: var_loc,
        });
        return Ok(());
    }

    if parser.match_token(TokenKind::KeywordReturn)? {
        let return_loc = parser.current_loc();
        let v = parse_expr(parser)?;
        expect_token(parser, TokenKind::Semicolon)?;

        body.push(Stmt { kind: StmtKind::Return(Box::new(v)), loc: return_loc });
        return Ok(());
    }

    if parser.match_token(TokenKind::KeywordIf)? {
        let if_loc = parser.current_loc();
        expect_token(parser, TokenKind::KeywordGuard)?;
        expect_token(parser, TokenKind::LParen)?;
        let var_tok = parser.expect(TokenKind::Identifier)?;
        let ghost h1 = parser.consumed();
        expect_token(parser, TokenKind::RParen)?;
        expect_token(parser, TokenKind::LBrace)?;

        let mut guard_body: Vec<Stmt> = Vec::new();
        parse_guard_body(parser, &mut guard_body)?;
        proof {
            assert(parser.consumed().subrange(0, h1.len() as int)[b + 3] == h1[b + 3]);
        }

        body.push(Stmt {
            kind: StmtKind::IfGuard(IfGuard {
                condition: Expr {
                    kind: ExprKind::Variable(var_tok.lexeme),
                    loc: var_tok.loc,
                },
                body: guard_body,
            }),
            loc: if_loc,
        });
        return Ok(());
    }

    let target = parse_expr(parser)?;
    let target_loc = target.loc;
    if parser.match_token(TokenKind::Equals)? {
        let value = parse_expr(parser)?;
        expect_token(parser, TokenKind::Semicolon)?;

        body.push(Stmt {
            kind: StmtKind::Assignment(Assignment {
                target: Box::new(target),
                op: AssignmentOp::Assign,
                value: Box::new(value),
            }),
            loc: target_loc,
        });
        return Ok(());
    }
    if parser.match_token(TokenKind::PlusEquals)? {
        let value = parse_expr(parser)?;
        expect_token(parser, TokenKind::Semicolon)?;

        body.push(Stmt {
            kind: StmtKind::Assignment(Assignment {
                target: Box::new(target),
                op: AssignmentOp::AddAssign,
                value: Box::new(value),
            }),
            loc: target_loc,
        });
        return Ok(());
    }

    Err(parser
        .error("Unexpected statement")
        .with_help("Expected: reg, imm, heap, return, if, or expression"))
}

/// Parses the statements of a guard body up to and including the closing
/// brace.
fn parse_guard_body(parser: &mut Parser, body: &mut Vec<Stmt>) -> (r: Result<(), ParseError>)
    requires
        old(parser).wf(),
    ensures
        final(parser).wf(),
        consumed_grows(old(parser).consumed(), final(parser).consumed()),
        r is Ok ==> final(parser).remaining() < old(parser).remaining(),
        final(body)@.len() >= old(body)@.len(),
        final(body)@.subrange(0, old(body)@.len() as int) == old(body)@,
    decreases old(parser).remaining(), 8int,
{
    broadcast use lemma_consumed_push, lemma_consumed_trans;

    proof {
        assert(old(body)@.subrange(0, old(body)@.len() as int) =~= old(body)@);
    }
    if parser.match_token(TokenKind::RBrace)? {
        return Ok(());
    }
    parse_stmt(parser, body)?;
    parse_guard_body(parser, body)
}

/// Parses an expression.
pub fn parse_expr(parser: &mut Parser) -> (r: Result<Expr, ParseError>)
    requires
        old(parser).wf(),
    ensures
        final(parser).wf(),
        consumed_grows(old(parser).consumed(), final(parser).consumed()),
        r is Ok ==> final(parser).remaining() < old(parser).remaining(),
    decreases old(parser).remaining(), 5int,
{
    broadcast use lemma_consumed_push, lemma_consumed_trans;
    parse_add(parser)
}

/// Additive level: `+` and `-`.
#[verifier::loop_isolation(false)]
fn parse_add(parser: &mut Parser) -> (r: Result<Expr, ParseError>)
    requires
        old(parser).wf(),
    ensures
        final(parser).wf(),
        consumed_grows(old(parser).consumed(), final(parser).consumed()),
        r is Ok ==> final(parser).remaining() < old(parser).remaining(),
    decreases old(parser).remaining(), 4int,
{
    broadcast use lemma_consumed_push, lemma_consumed_trans;
    let mut expr = parse_mul(parser)?;

    while parser.check(TokenKind::Plus) || parser.check(TokenKind::Minus)
        invariant
            parser.wf(),
            parser.remaining() < old(parser).remaining(),
            consumed_grows(old(parser).consumed(), parser.consumed()),
        decreases parser.remaining(),
    {
        let op = if parser.match_token(TokenKind::Plus)? {
            BinOp::Add
        } else {
            expect_token(parser, TokenKind::Minus)?;
            BinOp::Sub
        };
        let rhs = parse_mul(parser)?;
        let loc = expr.loc;
        expr = Expr {
            kind: ExprKind::Binary(BinaryExpr {
                op,
                left: Box::new(expr),
                right: Box::new(rhs),
            }),
            loc,
        };
    }

    Ok(expr)
}

/// Multiplicative level: `*`, `/` and `%`.
#[verifier::loop_isolation(false)]
fn parse_mul(parser: &mut Parser) -> (r: Result<Expr, ParseError>)
    requires
        old(parser).wf(),
    ensures
        final(parser).wf(),
        consumed_grows(old(parser).consumed(), final(parser).consumed()),
        r is Ok ==> final(parser).remaining() < old(parser).remaining(),
    decreases old(parser).remaining(), 3int,
{
    broadcast use lemma_consumed_push, lemma_consumed_trans;
    let mut expr = parse_unary(parser)?;

    while parser.check(TokenKind::Star) || parser.check(TokenKind::Slash)
        || parser.check(TokenKind::Percent)
        invariant
            parser.wf(),
            parser.remaining() < old(parser).remaining(),
            consumed_grows(old(parser).consumed(), parser.consumed()),
        decreases parser.remaining(),
    {
        let op = if parser.match_token(TokenKind::Star)? {
            BinOp::Mul
        } else if parser.match_token(TokenKind::Slash)? {
            BinOp::Div
        } else {
            expect_token(parser, TokenKind::Percent)?;
            BinOp::Mod
        };
        let rhs = parse_unary(parser)?;
        let loc = expr.loc;
        expr = Expr {
            kind: ExprKind::Binary(BinaryExpr {
                op,
                left: Box::new(expr),
                right: Box::new(rhs),
            }),
            loc,
        };
    }

    Ok(expr)
}

/// Unary level: dereference `*expr`.
fn parse_unary(parser: &mut Parser) -> (r: Result<Expr, ParseError>)
    requires
        old(parser).wf(),
    ensures
        final(parser).wf(),
        consumed_grows(old(parser).consumed(), final(parser).consumed()),
        r is Ok ==> final(parser).remaining() < old(parser).remaining(),
    decreases old(parser).remaining(), 2int,
{
    broadcast use lemma_consumed_push, lemma_consumed_trans;
    if parser.match_token(TokenKind::Star)? {
        let inner = parse_unary(parser)?;
        let inner_loc = inner.loc;
        return Ok(Expr { kind: ExprKind::Dereference(Box::new(inner)), loc: inner_loc });
    }

    parse_primary(parser)
}

/// Primary level: a number literal, a parenthesized expression, an
/// identifier, or a method call `receiver.method(arg)`.
fn parse_primary(parser: &mut Parser) -> (r: Result<Expr, ParseError>)
    requires
        old(parser).wf(),
    ensures
        final(parser).wf(),
        consumed_grows(old(parser).consumed(), final(parser).consumed()),
        r is Ok ==> final(parser).remaining() < old(parser).remaining(),
    decreases old(parser).remaining(), 1int,
{
    broadcast use lemma_consumed_push, lemma_consumed_trans;
    if parser.check(TokenKind::Number) {
        let num_tok = parser.expect(TokenKind::Number)?;
        let value = match num_tok.int_value {
            Some(v) => v,
            None => {
                return Err(parser.error("Invalid number literal"));
            }
        };
        return Ok(Expr { kind: ExprKind::Number(value), loc: num_tok.loc });
    }

    if parser.match_token(TokenKind::LParen)? {
        let e = parse_expr(parser)?;
        expect_token(parser, TokenKind::RParen)?;
        return Ok(e);
    }

    let receiver_tok = parser.expect(TokenKind::Identifier)?;

    if parser.match_token(TokenKind::Dot)? {
        let method_tok = parser.expect(TokenKind::Identifier)?;
        expect_token(parser, TokenKind::LParen)?;
        let arg = parse_expr(parser)?;
        expect_token(parser, TokenKind::RParen)?;

        return Ok(Expr {
            kind: ExprKind::MethodCall(MethodCall {
                receiver: receiver_tok.lexeme,
                method: method_tok.lexeme,
                arg: Box::new(arg),
            }),
            loc: receiver_tok.loc,
        });
    }

    Ok(Expr { kind: ExprKind::Variable(receiver_tok.lexeme), loc: receiver_tok.loc })
}

} // verus!
