//! The parser driver: a recursive-descent parser over the pull-based token
//! source, with one token of lookahead. Parsing is fail-fast: the first
//! structural error aborts the whole parse, with a source span and an
//! optional remediation hint.

pub mod map;
pub mod program;
pub mod unit;

use vstd::prelude::*;
use crate::ast::Program;
use crate::lexer::{number_value, is_word_kind, keyword_kind, Lexer};
use crate::token::{SourceLoc, Token, TokenKind};

verus! {

broadcast use crate::lexer::lemma_lexer_bounds;

/// A structural parse error: where it was found, what went wrong, and an
/// optional hint on how to mend the source.
#[derive(Debug)]
pub struct ParseError {
    pub offset: usize,
    pub message: String,
    pub help: Option<String>,
}

impl ParseError {
    pub fn new(loc: SourceLoc, message: &str) -> (r: Self)
        ensures
            r.offset == loc.offset,
            r.message@ == message@,
            r.help is None,
    {
        ParseError { offset: loc.offset, message: message.to_owned(), help: None }
    }

    pub fn with_help(self, help: &str) -> (r: Self)
        ensures
            r.offset == self.offset,
            r.message == self.message,
            r.help matches Some(h) && h@ == help@,
    {
        ParseError { offset: self.offset, message: self.message, help: Some(help.to_owned()) }
    }
}

/// The legacy expression form kept for the driver's own expression entry
/// point: numbers, variable references and additions.
#[derive(Debug)]
pub enum Expr {
    Number(i64),
    Var(String),
    Binary { left: Box<Expr>, op: BinOp, right: Box<Expr> },
}

#[derive(Debug, Clone, Copy)]
pub enum BinOp {
    Add,
}

/// Recursive-descent parser state: the token source, the current token,
/// and the ghost history of every token already consumed.
pub struct Parser<'src> {
    lexer: Lexer<'src>,
    current: Token,
    consumed: Ghost<Seq<Token>>,
}

/// A well-formed parser has a nonnegative amount of input left.
pub broadcast proof fn lemma_parser_remaining<'src>(p: Parser<'src>)
    ensures
        #[trigger] p.wf() ==> p.remaining() >= 0,
{
}

/// The consumed history only grows, and what was consumed stays.
pub open spec fn consumed_grows(pre: Seq<Token>, post: Seq<Token>) -> bool {
    pre.len() <= post.len() && post.subrange(0, pre.len() as int) == pre
}

/// Consuming one token grows the history.
pub broadcast proof fn lemma_consumed_push(a: Seq<Token>, x: Token)
    ensures
        consumed_grows(a, #[trigger] a.push(x)),
{
    assert(a.push(x).subrange(0, a.len() as int) =~= a);
}

/// Growth of the consumed history is transitive.
pub broadcast proof fn lemma_consumed_trans(a: Seq<Token>, b: Seq<Token>, c: Seq<Token>)
    requires
        #[trigger] consumed_grows(a, b),
        #[trigger] consumed_grows(b, c),
    ensures
        consumed_grows(a, c),
{
    crate::ir::unit::lemma_prefix_trans(a, b, c);
}

/// The facts the scanner guarantees of every token it hands out.
pub open spec fn token_ok(t: Token) -> bool {
    &&& (t.kind == TokenKind::Number <==> t.int_value is Some)
    &&& (t.kind == TokenKind::Number ==> t.int_value == Some(number_value(t.lexeme@)))
    &&& (is_word_kind(t.kind) ==> t.kind == keyword_kind(t.lexeme@))
}

impl<'src> Parser<'src> {
    pub closed spec fn wf(self) -> bool {
        &&& self.lexer.wf()
        &&& token_ok(self.current)
        &&& (self.current.kind == TokenKind::Eof ==> self.lexer.pos() == self.lexer.text().len())
    }

    /// The current (lookahead) token.
    pub closed spec fn cur(self) -> Token {
        self.current
    }

    /// The tokens consumed so far, in order.
    pub closed spec fn consumed(self) -> Seq<Token> {
        self.consumed@
    }

    /// How much input is left: characters still in the lexer, plus one for
    /// a current token that is not yet end-of-file. Every consuming step
    /// makes this smaller, which bounds every parsing loop.
    pub closed spec fn remaining(self) -> int {
        self.lexer.text().len() - self.lexer.pos()
            + if self.current.kind == TokenKind::Eof { 0int } else { 1int }
    }

    pub fn new(src: &'src str) -> (r: Result<Self, ParseError>)
        ensures
            r matches Ok(p) ==> p.wf(),
            src@.len() == 0 ==> (r matches Ok(p) && p.cur().kind == TokenKind::Eof),
    {
        let mut lexer = Lexer::new(src);
        let current = match lexer.next_token() {
            Ok(t) => t,
            Err(_e) => {
                return Err(ParseError::new(SourceLoc::new(0, 0, 0), "Failed to lex first token"));
            }
        };
        Ok(Parser { lexer, current, consumed: Ghost(Seq::empty()) })
    }

    /// Replaces the current token by the next one from the lexer; the old
    /// current token joins the consumed history.
    pub fn advance(&mut self) -> (r: Result<(), ParseError>)
        requires
            old(self).wf(),
        ensures
            final(self).wf(),
            r is Ok && old(self).cur().kind != TokenKind::Eof
                ==> final(self).remaining() < old(self).remaining(),
            r is Ok ==> final(self).consumed() == old(self).consumed().push(old(self).cur()),
            r is Err ==> final(self).consumed() == old(self).consumed(),
            r matches Err(e) ==> e.offset == old(self).cur().loc.offset,
    {
        let ghost prev = self.current;
        match self.lexer.next_token() {
            Ok(t) => {
                self.current = t;
                proof {
                    self.consumed@ = self.consumed@.push(prev);
                }
                Ok(())
            }
            Err(_e) => Err(ParseError::new(self.current.loc, "Lexer error")),
        }
    }

    /// Whether the current token has the given kind.
    pub fn check(&self, kind: TokenKind) -> (r: bool)
        requires
            self.wf(),
        ensures
            r == (self.cur().kind == kind),
    {
        self.current.kind == kind
    }

    /// Consumes the current token when it has the given kind.
    pub fn match_token(&mut self, kind: TokenKind) -> (r: Result<bool, ParseError>)
        requires
            old(self).wf(),
        ensures
            final(self).wf(),
            r matches Ok(b) ==> {
                &&& b == (old(self).cur().kind == kind)
                &&& (b && kind != TokenKind::Eof ==> final(self).remaining() < old(
                    self,
                ).remaining())
                &&& (b ==> final(self).consumed() == old(self).consumed().push(
                    old(self).cur(),
                ))
                &&& (!b ==> *final(self) == *old(self))
            },
            r is Err ==> final(self).consumed() == old(self).consumed(),
    {
        if self.check(kind) {
            self.advance()?;
            Ok(true)
        } else {
            Ok(false)
        }
    }

    /// Consumes and returns the current token, which must have the given
    /// kind; otherwise reports what was found instead.
    pub fn expect(&mut self, kind: TokenKind) -> (r: Result<Token, ParseError>)
        requires
            old(self).wf(),
        ensures
            final(self).wf(),
            r matches Ok(t) ==> {
                &&& t == old(self).cur()
                &&& t.kind == kind
                &&& token_ok(t)
                &&& (kind != TokenKind::Eof ==> final(self).remaining() < old(self).remaining())
                &&& final(self).consumed() == old(self).consumed().push(t)
            },
            r is Err && old(self).cur().kind != kind ==> *final(self) == *old(self),
            r is Err ==> final(self).consumed() == old(self).consumed(),
            r matches Err(e) ==> e.offset == old(self).cur().loc.offset,
    {
        if self.check(kind) {
            let tok = self.current.clone();
            self.advance()?;
            Ok(tok)
        } else {
            let mut m = String::new();
            m.append("Expected ");
            m.append(kind.text());
            m.append(", found ");
            m.append(self.current.kind.text());
            let mut h = String::new();
            h.append("Expected token: ");
            h.append(kind.text());
            Err(ParseError::new(self.current.loc, m.as_str()).with_help(h.as_str()))
        }
    }

    /// A parse error at the current token.
    pub fn error(&self, message: &str) -> (r: ParseError)
        ensures
            r.offset == self.cur().loc.offset,
            r.message@ == message@,
            r.help is None,
    {
        ParseError::new(self.current.loc, message)
    }

    /// A parse error at the current token, with a hint.
    pub fn error_with_help(&self, message: &str, help: &str) -> (r: ParseError)
        ensures
            r.offset == self.cur().loc.offset,
            r.message@ == message@,
            r.help matches Some(h) && h@ == help@,
    {
        ParseError::new(self.current.loc, message).with_help(help)
    }

    /// The current token.
    pub fn current(&self) -> (r: &Token)
        ensures
            r == self.cur(),
    {
        &self.current
    }

    /// The location of the current token.
    pub fn current_loc(&self) -> (r: SourceLoc)
        ensures
            r == self.cur().loc,
    {
        self.current.loc
    }

    /// The kind of the current token.
    pub fn current_kind(&self) -> (r: TokenKind)
        ensures
            r == self.cur().kind,
    {
        self.current.kind
    }

    /// Entry point for the legacy expression form: additions over numbers
    /// and variable references.
    pub fn parse_expr(&mut self) -> (r: Result<Expr, ParseError>)
        requires
            old(self).wf(),
        ensures
            final(self).wf(),
            r is Ok ==> final(self).remaining() < old(self).remaining(),
    {
        self.parse_additive()
    }

    #[verifier::loop_isolation(false)]
    fn parse_additive(&mut self) -> (r: Result<Expr, ParseError>)
        requires
            old(self).wf(),
        ensures
            final(self).wf(),
            r is Ok ==> final(self).remaining() < old(self).remaining(),
    {
        let mut left = self.parse_primary()?;

        while self.check(TokenKind::Plus)
            invariant
                self.wf(),
                self.remaining() < old(self).remaining(),
            decreases self.remaining(),
        {
            self.expect(TokenKind::Plus)?;
            let right = self.parse_primary()?;
            left = Expr::Binary { left: Box::new(left), op: BinOp::Add, right: Box::new(right) };
        }

        Ok(left)
    }

    fn parse_primary(&mut self) -> (r: Result<Expr, ParseError>)
        requires
            old(self).wf(),
        ensures
            final(self).wf(),
            r is Ok ==> final(self).remaining() < old(self).remaining(),
    {
        if self.check(TokenKind::Number) {
            let tok = self.expect(TokenKind::Number)?;
            let v = match tok.int_value {
                Some(v) => v,
                None => {
                    return Err(self.error("Invalid number literal"));
                }
            };
            return Ok(Expr::Number(v));
        }
        if self.check(TokenKind::Identifier) {
            let tok = self.expect(TokenKind::Identifier)?;
            return Ok(Expr::Var(tok.lexeme));
        }
        Err(self.error("Expected expression"))
    }
}

/// Parses a whole source text into a program. An empty text is a valid
/// program with no declarations: rejecting empty input is the driver's
/// business, before the lexer runs.
pub fn parse(src: &str) -> (r: Result<Program, ParseError>)
    ensures
        src@.len() == 0 ==> (r matches Ok(p) && p.maps@.len() == 0 && p.units@.len() == 0),
{
    let mut parser = Parser::new(src)?;
    program::parse_program(&mut parser)
}

} // verus!
