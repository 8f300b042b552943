//! Tokens produced by the lexer: a kind, the lexeme text, and the source
//! location of the token's first character.

use vstd::prelude::*;

verus! {

/// Position of a character in the source text: 1-based line and column,
/// and the offset of the character counted from the start of the text.
/// The offset counts characters, not bytes — a deliberate choice of the
/// character-level scanner; the two agree on ASCII input.
#[derive(Debug, Clone, Copy, PartialEq, Eq, Structural, Hash)]
pub struct SourceLoc {
    pub line: usize,
    pub column: usize,
    pub offset: usize,
}

impl SourceLoc {
    pub fn new(line: usize, column: usize, offset: usize) -> (r: Self)
        ensures
            r.line == line,
            r.column == column,
            r.offset == offset,
    {
        Self { line, column, offset }
    }
}

/// The closed set of token kinds of the language.
#[derive(Debug, Clone, Copy, PartialEq, Eq, Structural, Hash)]
pub enum TokenKind {
    KeywordUnit,
    KeywordSection,
    KeywordLicense,
    KeywordReturn,
    KeywordReg,
    KeywordImm,
    KeywordMap,
    KeywordType,
    KeywordKey,
    KeywordValue,
    KeywordMax,
    KeywordIf,
    KeywordGuard,
    KeywordHeap,
    TypeU32,
    TypeU64,
    TypeI32,
    TypeI64,
    LBrace,
    RBrace,
    LParen,
    RParen,
    Colon,
    Dot,
    Semicolon,
    Equals,
    PlusEquals,
    Plus,
    Minus,
    Star,
    Slash,
    Percent,
    Identifier,
    StringLiteral,
    Number,
    Eof,
}

impl TokenKind {
    /// A short printable name for the kind, for diagnostic messages.
    pub fn text(&self) -> &'static str {
        match self {
            TokenKind::KeywordUnit => "unit",
            TokenKind::KeywordSection => "section",
            TokenKind::KeywordLicense => "license",
            TokenKind::KeywordReturn => "return",
            TokenKind::KeywordReg => "reg",
            TokenKind::KeywordImm => "imm",
            TokenKind::KeywordMap => "map",
            TokenKind::KeywordType => "type",
            TokenKind::KeywordKey => "key",
            TokenKind::KeywordValue => "value",
            TokenKind::KeywordMax => "max",
            TokenKind::KeywordIf => "if",
            TokenKind::KeywordGuard => "guard",
            TokenKind::KeywordHeap => "heap",
            TokenKind::TypeU32 => "u32",
            TokenKind::TypeU64 => "u64",
            TokenKind::TypeI32 => "i32",
            TokenKind::TypeI64 => "i64",
            TokenKind::LBrace => "{",
            TokenKind::RBrace => "}",
            TokenKind::LParen => "(",
            TokenKind::RParen => ")",
            TokenKind::Colon => ":",
            TokenKind::Dot => ".",
            TokenKind::Semicolon => ";",
            TokenKind::Equals => "=",
            TokenKind::PlusEquals => "+=",
            TokenKind::Plus => "+",
            TokenKind::Minus => "-",
            TokenKind::Star => "*",
            TokenKind::Slash => "/",
            TokenKind::Percent => "%",
            TokenKind::Identifier => "identifier",
            TokenKind::StringLiteral => "string literal",
            TokenKind::Number => "number",
            TokenKind::Eof => "end of file",
        }
    }
}

/// A single token: its kind, the text it was read from, where it starts,
/// and, for a number token, the parsed integer value.
#[derive(Debug)]
pub struct Token {
    pub kind: TokenKind,
    pub lexeme: String,
    pub loc: SourceLoc,
    pub int_value: Option<i64>,
}

impl Clone for Token {
    fn clone(&self) -> (r: Self)
        ensures
            r == *self,
    {
        Token {
            kind: self.kind,
            lexeme: self.lexeme.clone(),
            loc: self.loc,
            int_value: self.int_value,
        }
    }
}

impl Token {
    pub fn new(kind: TokenKind, lexeme: String, loc: SourceLoc) -> (r: Self)
        ensures
            r.kind == kind,
            r.lexeme == lexeme,
            r.loc == loc,
            r.int_value is None,
    {
        Self { kind, lexeme, loc, int_value: None }
    }

    pub fn new_number(lexeme: String, loc: SourceLoc, value: i64) -> (r: Self)
        ensures
            r.kind == TokenKind::Number,
            r.lexeme == lexeme,
            r.loc == loc,
            r.int_value == Some(value),
    {
        Self { kind: TokenKind::Number, lexeme, loc, int_value: Some(value) }
    }

    pub fn eof(offset: usize) -> (r: Self)
        ensures
            r.kind == TokenKind::Eof,
            r.lexeme@ == Seq::<char>::empty(),
            r.loc == (SourceLoc { line: 0, column: 0, offset }),
            r.int_value is None,
    {
        Self {
            kind: TokenKind::Eof,
            lexeme: String::new(),
            loc: SourceLoc { line: 0, column: 0, offset },
            int_value: None,
        }
    }
}

} // verus!
