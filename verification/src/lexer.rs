//! The lexer: turns source text into a stream of located tokens. It is
//! consumed as a pull-based token source; each call of `next_token` skips
//! whitespace and comments and reads one token. Identifier and digit
//! classes are ASCII — a deliberate narrowing that keeps the character
//! model exact; bytes outside ASCII are valid only inside string literals
//! and comments.

use vstd::prelude::*;
use crate::token::{SourceLoc, Token, TokenKind};
use crate::strutil::{
    is_digit_char, is_hex_digit_char, is_ident_char, is_ident_start_char, is_ws_char,
    digit_char, digit_val, hex_digit_char, ident_char, ident_start_char, ws_char, str_eq,
};

verus! {

/// A failure of character-level scanning. Each variant carries the character
/// offset at which the problem was found.
#[derive(Debug, Clone, PartialEq, Eq, Structural)]
pub enum LexError {
    UnterminatedComment { offset: usize },
    InvalidCharacter { offset: usize },
    UnterminatedString { offset: usize },
    InvalidEscapeSequence { offset: usize },
}

/// The token kind of a word: one of the fixed keywords or type names,
/// otherwise an identifier.
pub open spec fn keyword_kind(s: Seq<char>) -> TokenKind {
    if s == "unit"@ { TokenKind::KeywordUnit }
    else if s == "section"@ { TokenKind::KeywordSection }
    else if s == "license"@ { TokenKind::KeywordLicense }
    else if s == "return"@ { TokenKind::KeywordReturn }
    else if s == "reg"@ { TokenKind::KeywordReg }
    else if s == "imm"@ { TokenKind::KeywordImm }
    else if s == "map"@ { TokenKind::KeywordMap }
    else if s == "type"@ { TokenKind::KeywordType }
    else if s == "key"@ { TokenKind::KeywordKey }
    else if s == "value"@ { TokenKind::KeywordValue }
    else if s == "max"@ { TokenKind::KeywordMax }
    else if s == "if"@ { TokenKind::KeywordIf }
    else if s == "guard"@ { TokenKind::KeywordGuard }
    else if s == "heap"@ { TokenKind::KeywordHeap }
    else if s == "u32"@ { TokenKind::TypeU32 }
    else if s == "u64"@ { TokenKind::TypeU64 }
    else if s == "i32"@ { TokenKind::TypeI32 }
    else if s == "i64"@ { TokenKind::TypeI64 }
    else { TokenKind::Identifier }
}

/// Token kinds read from a word of the source: keywords, type names,
/// identifiers.
pub open spec fn is_word_kind(k: TokenKind) -> bool {
    match k {
        TokenKind::KeywordUnit | TokenKind::KeywordSection | TokenKind::KeywordLicense
        | TokenKind::KeywordReturn | TokenKind::KeywordReg | TokenKind::KeywordImm
        | TokenKind::KeywordMap | TokenKind::KeywordType | TokenKind::KeywordKey
        | TokenKind::KeywordValue | TokenKind::KeywordMax | TokenKind::KeywordIf
        | TokenKind::KeywordGuard | TokenKind::KeywordHeap | TokenKind::TypeU32
        | TokenKind::TypeU64 | TokenKind::TypeI32 | TokenKind::TypeI64
        | TokenKind::Identifier => true,
        _ => false,
    }
}

/// Digit-by-digit accumulation of a run of decimal digit characters,
/// with 64-bit wrap-around, as the scanner performs it.
pub open spec fn dec_fold(s: Seq<char>, acc: i64) -> i64
    decreases s.len(),
{
    if s.len() == 0 {
        acc
    } else {
        dec_fold(
            s.drop_first(),
            vstd::wrapping::i64_specs::wrapping_add(
                vstd::wrapping::i64_specs::wrapping_mul(acc, 10),
                digit_val(s[0]) as i64,
            ),
        )
    }
}

/// Digit-by-digit accumulation of a run of hexadecimal digit characters.
pub open spec fn hex_fold(s: Seq<char>, acc: i64) -> i64
    decreases s.len(),
{
    if s.len() == 0 {
        acc
    } else {
        hex_fold(
            s.drop_first(),
            vstd::wrapping::i64_specs::wrapping_add(
                vstd::wrapping::i64_specs::wrapping_mul(acc, 16),
                crate::strutil::hex_digit_val(s[0]) as i64,
            ),
        )
    }
}

/// The magnitude part of a numeric lexeme: hexadecimal after a `0x` prefix,
/// decimal otherwise.
pub open spec fn number_mag(s: Seq<char>) -> i64 {
    if s.len() >= 2 && s[0] == '0' && s[1] == 'x' {
        hex_fold(s.skip(2), 0)
    } else {
        dec_fold(s, 0)
    }
}

/// The value of a numeric lexeme, negated after a leading minus sign.
pub open spec fn number_value(s: Seq<char>) -> i64 {
    if s.len() > 0 && s[0] == '-' {
        vstd::wrapping::i64_specs::wrapping_sub(0, number_mag(s.drop_first()))
    } else {
        number_mag(s)
    }
}

proof fn lemma_dec_fold_push(s: Seq<char>, c: char, acc: i64)
    ensures
        dec_fold(s.push(c), acc) == vstd::wrapping::i64_specs::wrapping_add(
            vstd::wrapping::i64_specs::wrapping_mul(dec_fold(s, acc), 10),
            digit_val(c) as i64,
        ),
    decreases s.len(),
{
    if s.len() == 0 {
        reveal_with_fuel(dec_fold, 2);
        assert(s.push(c)[0] == c);
        assert(s.push(c).drop_first() =~= Seq::<char>::empty());
    } else {
        assert(s.push(c)[0] == s[0]);
        assert(s.push(c).drop_first() =~= s.drop_first().push(c));
        lemma_dec_fold_push(
            s.drop_first(),
            c,
            vstd::wrapping::i64_specs::wrapping_add(
                vstd::wrapping::i64_specs::wrapping_mul(acc, 10),
                digit_val(s[0]) as i64,
            ),
        );
    }
}

proof fn lemma_hex_fold_push(s: Seq<char>, c: char, acc: i64)
    ensures
        hex_fold(s.push(c), acc) == vstd::wrapping::i64_specs::wrapping_add(
            vstd::wrapping::i64_specs::wrapping_mul(hex_fold(s, acc), 16),
            crate::strutil::hex_digit_val(c) as i64,
        ),
    decreases s.len(),
{
    if s.len() == 0 {
        reveal_with_fuel(hex_fold, 2);
        assert(s.push(c)[0] == c);
        assert(s.push(c).drop_first() =~= Seq::<char>::empty());
    } else {
        assert(s.push(c)[0] == s[0]);
        assert(s.push(c).drop_first() =~= s.drop_first().push(c));
        lemma_hex_fold_push(
            s.drop_first(),
            c,
            vstd::wrapping::i64_specs::wrapping_add(
                vstd::wrapping::i64_specs::wrapping_mul(acc, 16),
                crate::strutil::hex_digit_val(s[0]) as i64,
            ),
        );
    }
}

proof fn lemma_subrange_push(text: Seq<char>, ds: int, p: int)
    requires
        0 <= ds <= p < text.len(),
    ensures
        text.subrange(ds, p + 1) == text.subrange(ds, p).push(text[p]),
{
    assert(text.subrange(ds, p + 1) =~= text.subrange(ds, p).push(text[p]));
}

/// Where the text of a string literal opened before index `i` ends: the
/// index just past the closing quote, or nothing when the literal runs
/// into a bad escape, a line break, or the end of the text.
pub open spec fn string_end(t: Seq<char>, i: int) -> Option<int>
    decreases t.len() - i,
{
    if i < 0 || i >= t.len() {
        None
    } else if t[i] == '"' {
        Some(i + 1)
    } else if t[i] == '\\' {
        if i + 1 >= t.len() {
            None
        } else if t[i + 1] == '"' || t[i + 1] == '\\' || t[i + 1] == 'n' {
            string_end(t, i + 2)
        } else {
            None
        }
    } else if t[i] == '\n' {
        None
    } else {
        string_end(t, i + 1)
    }
}

/// The token kind of a single punctuation character.
pub open spec fn punct_kind(c: char) -> Option<TokenKind> {
    if c == '{' {
        Some(TokenKind::LBrace)
    } else if c == '}' {
        Some(TokenKind::RBrace)
    } else if c == '(' {
        Some(TokenKind::LParen)
    } else if c == ')' {
        Some(TokenKind::RParen)
    } else if c == ':' {
        Some(TokenKind::Colon)
    } else if c == '.' {
        Some(TokenKind::Dot)
    } else if c == '*' {
        Some(TokenKind::Star)
    } else if c == '/' {
        Some(TokenKind::Slash)
    } else if c == '%' {
        Some(TokenKind::Percent)
    } else if c == ';' {
        Some(TokenKind::Semicolon)
    } else if c == '=' {
        Some(TokenKind::Equals)
    } else {
        None
    }
}

/// A numeric literal whose magnitude starts at `m` is malformed: a `0x`
/// prefix with no hexadecimal digit after it.
pub open spec fn number_bad(t: Seq<char>, m: int) -> bool {
    m + 1 < t.len() && t[m] == '0' && t[m + 1] == 'x' && (m + 2 >= t.len()
        || !is_hex_digit_char(t[m + 2]))
}

/// A well-formed numeric literal with magnitude at `m` ends at `q`: the
/// maximal digit run, hexadecimal after a `0x` prefix.
pub open spec fn number_run(t: Seq<char>, m: int, q: int) -> bool {
    if m + 1 < t.len() && t[m] == '0' && t[m + 1] == 'x' {
        &&& q >= m + 3
        &&& forall|j: int| m + 2 <= j < q ==> is_hex_digit_char(#[trigger] t[j])
        &&& (q == t.len() || !is_hex_digit_char(t[q]))
    } else {
        &&& q >= m + 1
        &&& forall|j: int| m <= j < q ==> is_digit_char(#[trigger] t[j])
        &&& (q == t.len() || !is_digit_char(t[q]))
    }
}

/// The cursor stands directly on a token start: inside the text, on
/// neither whitespace nor a comment opening.
pub open spec fn token_start(t: Seq<char>, p: int) -> bool {
    0 <= p < t.len() && !is_ws_char(t[p]) && !(t[p] == '/' && p + 1 < t.len() && (t[p + 1]
        == '/' || t[p + 1] == '*'))
}

/// What the scanner owes at a token start, classified by the first
/// character: which token (or which failure) comes, where it starts, and
/// where it ends.
pub open spec fn owed_token(t: Seq<char>, p: int, r: Result<Token, LexError>, q: int) -> bool {
    let c = t[p];
    if is_ident_start_char(c) {
        &&& (r matches Ok(tok) && is_word_kind(tok.kind) && tok.loc.offset == p)
        &&& (forall|j: int| p <= j < q ==> is_ident_char(#[trigger] t[j]))
        &&& (q == t.len() || !is_ident_char(t[q]))
    } else if is_digit_char(c) || (c == '-' && p + 1 < t.len() && is_digit_char(t[p + 1])) {
        let m = if c == '-' {
            p + 1
        } else {
            p
        };
        if number_bad(t, m) {
            r matches Err(e) && e is InvalidCharacter
        } else {
            (r matches Ok(tok) && tok.kind == TokenKind::Number && tok.loc.offset == p)
                && number_run(t, m, q)
        }
    } else if c == '-' {
        r matches Ok(tok) && tok.kind == TokenKind::Minus && tok.loc.offset == p && q == p + 1
    } else if c == '"' {
        match string_end(t, p + 1) {
            Some(e) => r matches Ok(tok) && tok.kind == TokenKind::StringLiteral
                && tok.loc.offset == p && q == e,
            None => r is Err,
        }
    } else if c == '+' {
        if p + 1 < t.len() && t[p + 1] == '=' {
            r matches Ok(tok) && tok.kind == TokenKind::PlusEquals && tok.loc.offset == p && q
                == p + 2
        } else {
            r matches Ok(tok) && tok.kind == TokenKind::Plus && tok.loc.offset == p && q == p
                + 1
        }
    } else {
        match punct_kind(c) {
            Some(k) => r matches Ok(tok) && tok.kind == k && tok.loc.offset == p && q == p + 1,
            None => r matches Err(e) && e is InvalidCharacter,
        }
    }
}

/// A well-formed lexer's cursor lies within its text.
pub broadcast proof fn lemma_lexer_bounds<'src>(l: Lexer<'src>)
    ensures
        #[trigger] l.wf() ==> 0 <= l.pos() <= l.text().len(),
{
}

/// Pull-based scanner over the source text, tracking the current character
/// index and the 1-based line and column for diagnostics.
pub struct Lexer<'src> {
    src: &'src str,
    len: usize,
    index: usize,
    line: usize,
    column: usize,
}

impl<'src> Lexer<'src> {
    /// The whole source as a sequence of characters.
    pub closed spec fn text(self) -> Seq<char> {
        self.src@
    }

    /// The index of the next character to be read.
    pub closed spec fn pos(self) -> int {
        self.index as int
    }

    pub closed spec fn wf(self) -> bool {
        self.len == self.src@.len() && self.index <= self.len
    }

    pub fn new(src: &'src str) -> (r: Self)
        ensures
            r.wf(),
            r.text() == src@,
            r.pos() == 0,
    {
        let len = src.unicode_len();
        Lexer { src, len, index: 0, line: 1, column: 1 }
    }

    fn current_loc(&self) -> (r: SourceLoc)
        ensures
            r.offset == self.pos(),
    {
        SourceLoc::new(self.line, self.column, self.index)
    }

    /// The character under the cursor, or the null character at the end.
    spec fn peek_spec(self) -> char {
        if self.pos() < self.text().len() {
            self.text()[self.pos()]
        } else {
            '\0'
        }
    }

    fn peek(&self) -> (c: char)
        requires
            self.wf(),
        ensures
            c == self.peek_spec(),
    {
        if self.index < self.len {
            self.src.get_char(self.index)
        } else {
            '\0'
        }
    }

    fn peek_next(&self) -> (c: char)
        requires
            self.wf(),
        ensures
            c == (if self.pos() + 1 < self.text().len() {
                self.text()[self.pos() + 1]
            } else {
                '\0'
            }),
    {
        if self.index < self.len && self.index + 1 < self.len {
            self.src.get_char(self.index + 1)
        } else {
            '\0'
        }
    }


    fn at_ident_char(&self) -> (r: bool)
        requires
            self.wf(),
        ensures
            r == (self.pos() < self.text().len() && is_ident_char(self.peek_spec())),
    {
        self.index < self.len && ident_char(self.peek())
    }

    fn at_digit_char(&self) -> (r: bool)
        requires
            self.wf(),
        ensures
            r == (self.pos() < self.text().len() && is_digit_char(self.peek_spec())),
    {
        self.index < self.len && digit_char(self.peek())
    }

    fn at_hex_digit_char(&self) -> (r: bool)
        requires
            self.wf(),
        ensures
            r == (self.pos() < self.text().len() && is_hex_digit_char(self.peek_spec())),
    {
        self.index < self.len && hex_digit_char(self.peek())
    }

    fn advance(&mut self)
        requires
            old(self).wf(),
        ensures
            final(self).wf(),
            final(self).text() == old(self).text(),
            final(self).pos() == if old(self).pos() < old(self).text().len() {
                old(self).pos() + 1
            } else {
                old(self).pos()
            },
    {
        if self.index < self.len {
            let c = self.src.get_char(self.index);
            if c == '\n' {
                if self.line < usize::MAX {
                    self.line = self.line + 1;
                }
                self.column = 1;
            } else {
                if self.column < usize::MAX {
                    self.column = self.column + 1;
                }
            }
            self.index = self.index + 1;
        }
    }

    fn skip_whitespace(&mut self)
        requires
            old(self).wf(),
        ensures
            final(self).wf(),
            final(self).text() == old(self).text(),
            final(self).pos() >= old(self).pos(),
            final(self).pos() == final(self).text().len()
                || !is_ws_char(final(self).text()[final(self).pos()]),
            forall|j: int|
                old(self).pos() <= j < final(self).pos() ==> is_ws_char(
                    #[trigger] final(self).text()[j],
                ),
    {
        while self.index < self.len
            invariant
                self.wf(),
                self.text() == old(self).text(),
                self.pos() >= old(self).pos(),
                forall|j: int|
                    old(self).pos() <= j < self.pos() ==> is_ws_char(
                        #[trigger] self.text()[j],
                    ),
            decreases self.len - self.index,
        {
            let ch = self.peek();
            if ws_char(ch) {
                self.advance();
            } else {
                return;
            }
        }
    }

    #[verifier::loop_isolation(false)]
    fn skip_comment(&mut self) -> (r: Result<(), LexError>)
        requires
            old(self).wf(),
        ensures
            final(self).wf(),
            final(self).text() == old(self).text(),
            final(self).pos() >= old(self).pos(),
            final(self).pos() != old(self).pos() ==> old(self).pos() + 1 < old(
                self,
            ).text().len() && old(self).text()[old(self).pos()] == '/' && (old(self).text()[old(
                self,
            ).pos() + 1] == '/' || old(self).text()[old(self).pos() + 1] == '*'),
            r is Err ==> old(self).pos() + 1 < old(self).text().len() && old(self).text()[old(
                self,
            ).pos()] == '/' && old(self).text()[old(self).pos() + 1] == '*',
    {
        if self.peek() == '/' && self.peek_next() == '/' {
            self.advance();
            self.advance();
            while self.index < self.len
                invariant
                    self.wf(),
                    self.text() == old(self).text(),
                    self.pos() >= old(self).pos(),
                decreases self.len - self.index,
            {
                if self.peek() == '\n' {
                    self.advance();
                    return Ok(());
                }
                self.advance();
            }
            return Ok(());
        }
        if self.peek() == '/' && self.peek_next() == '*' {
            let start = self.index;
            self.advance();
            self.advance();
            while self.index < self.len
                invariant
                    self.wf(),
                    self.text() == old(self).text(),
                    self.pos() >= old(self).pos(),
                decreases self.len - self.index,
            {
                if self.peek() == '*' && self.peek_next() == '/' {
                    self.advance();
                    self.advance();
                    return Ok(());
                }
                self.advance();
            }
            return Err(LexError::UnterminatedComment { offset: start });
        }
        Ok(())
    }

    #[verifier::loop_isolation(false)]
    fn read_identifier(&mut self) -> (t: Token)
        requires
            old(self).wf(),
            old(self).pos() < old(self).text().len(),
            is_ident_start_char(old(self).text()[old(self).pos()]),
        ensures
            final(self).wf(),
            final(self).text() == old(self).text(),
            final(self).pos() > old(self).pos(),
            t.lexeme@ == old(self).text().subrange(old(self).pos(), final(self).pos()),
            t.kind == keyword_kind(t.lexeme@),
            t.int_value is None,
            t.loc.offset == old(self).pos(),
            forall|j: int|
                old(self).pos() <= j < final(self).pos() ==> is_ident_char(
                    #[trigger] final(self).text()[j],
                ),
            final(self).pos() == final(self).text().len() || !is_ident_char(
                final(self).text()[final(self).pos()],
            ),
    {
        let start = self.index;
        let loc = self.current_loc();
        while self.at_ident_char()
            invariant
                self.wf(),
                self.text() == old(self).text(),
                self.pos() >= old(self).pos(),
                forall|j: int|
                    old(self).pos() <= j < self.pos() ==> is_ident_char(
                        #[trigger] self.text()[j],
                    ),
            decreases self.len - self.index,
        {
            self.advance();
        }
        assert(self.pos() > old(self).pos()) by {
            assert(is_ident_char(old(self).text()[old(self).pos()]));
        }
        let lex = self.src.substring_char(start, self.index);
        let kind = if str_eq(lex, "unit") { TokenKind::KeywordUnit }
            else if str_eq(lex, "section") { TokenKind::KeywordSection }
            else if str_eq(lex, "license") { TokenKind::KeywordLicense }
            else if str_eq(lex, "return") { TokenKind::KeywordReturn }
            else if str_eq(lex, "reg") { TokenKind::KeywordReg }
            else if str_eq(lex, "imm") { TokenKind::KeywordImm }
            else if str_eq(lex, "map") { TokenKind::KeywordMap }
            else if str_eq(lex, "type") { TokenKind::KeywordType }
            else if str_eq(lex, "key") { TokenKind::KeywordKey }
            else if str_eq(lex, "value") { TokenKind::KeywordValue }
            else if str_eq(lex, "max") { TokenKind::KeywordMax }
            else if str_eq(lex, "if") { TokenKind::KeywordIf }
            else if str_eq(lex, "guard") { TokenKind::KeywordGuard }
            else if str_eq(lex, "heap") { TokenKind::KeywordHeap }
            else if str_eq(lex, "u32") { TokenKind::TypeU32 }
            else if str_eq(lex, "u64") { TokenKind::TypeU64 }
            else if str_eq(lex, "i32") { TokenKind::TypeI32 }
            else if str_eq(lex, "i64") { TokenKind::TypeI64 }
            else { TokenKind::Identifier };
        Token::new(kind, lex.to_owned(), loc)
    }

    #[verifier::loop_isolation(false)]
    fn read_number(&mut self) -> (r: Result<Token, LexError>)
        requires
            old(self).wf(),
            old(self).pos() < old(self).text().len(),
            is_digit_char(old(self).text()[old(self).pos()])
                || (old(self).text()[old(self).pos()] == '-'
                    && old(self).pos() + 1 < old(self).text().len()
                    && is_digit_char(old(self).text()[old(self).pos() + 1])),
        ensures
            final(self).wf(),
            final(self).text() == old(self).text(),
            final(self).pos() > old(self).pos(),
            r matches Ok(t) ==> {
                &&& t.kind == TokenKind::Number
                &&& t.lexeme@ == old(self).text().subrange(old(self).pos(), final(self).pos())
                &&& t.int_value == Some(number_value(t.lexeme@))
                &&& t.loc.offset == old(self).pos()
            },
            ({
                let t = old(self).text();
                let m = if t[old(self).pos()] == '-' {
                    old(self).pos() + 1
                } else {
                    old(self).pos()
                };
                &&& (r is Ok <==> !number_bad(t, m))
                &&& (r is Ok ==> number_run(t, m, final(self).pos()))
            }),
            r matches Err(e) ==> e is InvalidCharacter,
    {
        let start = self.index;
        let loc = self.current_loc();
        let ghost text = self.text();
        let mut value: i64 = 0;
        let mut negative = false;

        if self.peek() == '-' {
            negative = true;
            self.advance();
        }
        let ghost mag_start = self.pos();

        let is_hex = self.index + 1 < self.len && self.peek() == '0' && self.peek_next() == 'x';
        if is_hex {
            assert(text[mag_start] == '0');
            assert(text[mag_start + 1] == 'x');
            self.advance();
            self.advance();
            let ghost digits_start = self.pos();
            let mut has_digits = false;
            while self.at_hex_digit_char()
                invariant
                    self.wf(),
                    self.text() == text,
                    digits_start <= self.pos(),
                    value == hex_fold(text.subrange(digits_start, self.pos()), 0),
                    has_digits <==> self.pos() > digits_start,
                    forall|j: int|
                        digits_start <= j < self.pos() ==> is_hex_digit_char(
                            #[trigger] text[j],
                        ),
                decreases self.len - self.index,
            {
                let ch = self.peek();
                let u = ch as u32;
                let d: i64 = if digit_char(ch) {
                    (u - 48) as i64
                } else if 97 <= u && u <= 102 {
                    (u - 97 + 10) as i64
                } else {
                    (u - 65 + 10) as i64
                };
                assert(d == crate::strutil::hex_digit_val(ch) as i64);
                proof {
                    assert(ch == text[self.pos()]);
                    lemma_hex_fold_push(text.subrange(digits_start, self.pos()), ch, 0);
                    lemma_subrange_push(text, digits_start, self.pos());
                }
                value = value.wrapping_mul(16).wrapping_add(d);
                has_digits = true;
                self.advance();
            }
            if !has_digits {
                return Err(LexError::InvalidCharacter { offset: self.index });
            }
            proof {
                let lexeme = text.subrange(start as int, self.pos());
                let mag = if negative { lexeme.drop_first() } else { lexeme };
                assert(mag =~= text.subrange(mag_start, self.pos()));
                assert(mag.len() >= 2 && mag[0] == '0' && mag[1] == 'x');
                assert(mag.skip(2) =~= text.subrange(digits_start, self.pos()));
                assert(number_mag(mag) == value);
            }
        } else {
            let ghost digits_start = self.pos();
            while self.at_digit_char()
                invariant
                    self.wf(),
                    self.text() == text,
                    digits_start <= self.pos(),
                    value == dec_fold(text.subrange(digits_start, self.pos()), 0),
                    forall|j: int| digits_start <= j < self.pos() ==> is_digit_char(text[j]),
                decreases self.len - self.index,
            {
                let ch = self.peek();
                let d: i64 = (ch as u32 - 48) as i64;
                proof {
                    assert(ch == text[self.pos()]);
                    lemma_dec_fold_push(text.subrange(digits_start, self.pos()), ch, 0);
                    lemma_subrange_push(text, digits_start, self.pos());
                }
                value = value.wrapping_mul(10).wrapping_add(d);
                self.advance();
            }
            proof {
                if self.pos() == digits_start {
                    // The first digit of the literal is there to be consumed.
                    assert(is_digit_char(text[digits_start]));
                    assert(false);
                }
                let lexeme = text.subrange(start as int, self.pos());
                let mag = if negative { lexeme.drop_first() } else { lexeme };
                assert(mag =~= text.subrange(digits_start, self.pos()));
                if mag.len() >= 2 && mag[0] == '0' && mag[1] == 'x' {
                    // A decimal run holds digit characters only, so no `x` occurs.
                    assert(is_digit_char(text[digits_start + 1]));
                    assert(mag[1] == text[digits_start + 1]);
                    assert(false);
                }
                assert(number_mag(mag) == value);
            }
        }

        if negative {
            value = 0i64.wrapping_sub(value);
        }

        proof {
            let lexeme = text.subrange(start as int, self.pos());
            if negative {
                assert(lexeme[0] == '-');
            } else {
                assert(is_digit_char(lexeme[0]));
            }
        }
        let lex = self.src.substring_char(start, self.index);
        Ok(Token::new_number(lex.to_owned(), loc, value))
    }

    #[verifier::loop_isolation(false)]
    fn read_string(&mut self) -> (r: Result<Token, LexError>)
        requires
            old(self).wf(),
            old(self).pos() < old(self).text().len(),
            old(self).text()[old(self).pos()] == '"',
        ensures
            final(self).wf(),
            final(self).text() == old(self).text(),
            final(self).pos() > old(self).pos(),
            r matches Ok(t) ==> {
                &&& t.kind == TokenKind::StringLiteral
                &&& t.lexeme@ == old(self).text().subrange(old(self).pos(), final(self).pos())
                &&& t.lexeme@.len() >= 2
                &&& t.lexeme@[0] == '"'
                &&& t.lexeme@[t.lexeme@.len() - 1] == '"'
                &&& t.int_value is None
                &&& t.loc.offset == old(self).pos()
            },
            r is Ok <==> string_end(old(self).text(), old(self).pos() + 1) is Some,
            r is Ok ==> final(self).pos() == string_end(
                old(self).text(),
                old(self).pos() + 1,
            )->0,
    {
        let start = self.index;
        let loc = self.current_loc();
        self.advance();

        while self.index < self.len
            invariant
                self.wf(),
                self.text() == old(self).text(),
                self.pos() > start as int,
                start as int == old(self).pos(),
                string_end(self.text(), start as int + 1) == string_end(
                    self.text(),
                    self.pos(),
                ),
            decreases self.len - self.index,
        {
            let ch = self.peek();
            if ch == '"' {
                self.advance();
                let lex = self.src.substring_char(start, self.index);
                let t = Token::new(TokenKind::StringLiteral, lex.to_owned(), loc);
                assert(t.lexeme@[0] == '"');
                assert(t.lexeme@[t.lexeme@.len() - 1] == '"');
                return Ok(t);
            } else if ch == '\\' {
                self.advance();
                if self.index >= self.len {
                    return Err(LexError::UnterminatedString { offset: start });
                }
                let esc = self.peek();
                if esc == '"' || esc == '\\' || esc == 'n' {
                    self.advance();
                } else {
                    return Err(LexError::InvalidEscapeSequence { offset: self.index });
                }
            } else if ch == '\n' {
                return Err(LexError::UnterminatedString { offset: start });
            } else {
                self.advance();
            }
        }
        Err(LexError::UnterminatedString { offset: start })
    }

    /// Reads the next token. Skips whitespace and comments first; at the end
    /// of the text an end-of-file token is returned, at the same position,
    /// for ever.
    pub fn next_token(&mut self) -> (r: Result<Token, LexError>)
        requires
            old(self).wf(),
        ensures
            final(self).wf(),
            final(self).text() == old(self).text(),
            final(self).pos() >= old(self).pos(),
            r matches Ok(t) ==> {
                &&& (t.kind == TokenKind::Eof ==> final(self).pos() == final(self).text().len())
                &&& (t.kind != TokenKind::Eof ==> final(self).pos() > old(self).pos())
                &&& (t.kind == TokenKind::Number <==> t.int_value is Some)
                &&& (t.kind == TokenKind::Number ==> t.int_value == Some(number_value(t.lexeme@)))
                &&& (is_word_kind(t.kind) ==> t.kind == keyword_kind(t.lexeme@))
                &&& (t.kind != TokenKind::Eof ==> {
                    &&& old(self).pos() <= t.loc.offset < final(self).pos()
                    &&& t.lexeme@ == final(self).text().subrange(
                        t.loc.offset as int,
                        final(self).pos(),
                    )
                })
            },
            old(self).pos() == old(self).text().len() ==> (r matches Ok(t)
                && t.kind == TokenKind::Eof),
            token_start(old(self).text(), old(self).pos()) ==> owed_token(
                old(self).text(),
                old(self).pos(),
                r,
                final(self).pos(),
            ),
    {
        loop
            invariant
                self.wf(),
                self.text() == old(self).text(),
                self.pos() >= old(self).pos(),
                token_start(old(self).text(), old(self).pos()) ==> self.pos() == old(
                    self,
                ).pos(),
            ensures
                self.wf(),
                self.text() == old(self).text(),
                self.pos() >= old(self).pos(),
                self.pos() < self.text().len(),
                token_start(old(self).text(), old(self).pos()) ==> self.pos() == old(
                    self,
                ).pos(),
            decreases self.len - self.index,
        {
            self.skip_whitespace();
            if self.index >= self.len {
                return Ok(Token::eof(self.index));
            }
            let before = self.index;
            match self.skip_comment() {
                Ok(()) => {}
                Err(e) => {
                    return Err(e);
                }
            }
            if self.index == before {
                break;
            }
        }

        let loc = self.current_loc();
        let ch = self.peek();

        if ident_start_char(ch) {
            let t = self.read_identifier();
            proof {
                if token_start(old(self).text(), old(self).pos()) {
                    assert(is_word_kind(t.kind)) by {
                        assert(t.kind == keyword_kind(t.lexeme@));
                    }
                }
            }
            return Ok(t);
        }

        if digit_char(ch) {
            return self.read_number();
        }
        if ch == '-' {
            let nx = self.peek_next();
            if digit_char(nx) {
                return self.read_number();
            }
            self.advance();
            proof {
                reveal_strlit("-");
                assert("-"@ =~= self.text().subrange(loc.offset as int, self.pos()));
            }
            return Ok(Token::new(TokenKind::Minus, "-".to_owned(), loc));
        }

        if ch == '"' {
            return self.read_string();
        }

        if ch == '{' {
            self.advance();
            proof {
                reveal_strlit("{");
                assert("{"@ =~= self.text().subrange(loc.offset as int, self.pos()));
            }
            return Ok(Token::new(TokenKind::LBrace, "{".to_owned(), loc));
        }
        if ch == '}' {
            self.advance();
            proof {
                reveal_strlit("}");
                assert("}"@ =~= self.text().subrange(loc.offset as int, self.pos()));
            }
            return Ok(Token::new(TokenKind::RBrace, "}".to_owned(), loc));
        }
        if ch == '(' {
            self.advance();
            proof {
                reveal_strlit("(");
                assert("("@ =~= self.text().subrange(loc.offset as int, self.pos()));
            }
            return Ok(Token::new(TokenKind::LParen, "(".to_owned(), loc));
        }
        if ch == ')' {
            self.advance();
            proof {
                reveal_strlit(")");
                assert(")"@ =~= self.text().subrange(loc.offset as int, self.pos()));
            }
            return Ok(Token::new(TokenKind::RParen, ")".to_owned(), loc));
        }
        if ch == ':' {
            self.advance();
            proof {
                reveal_strlit(":");
                assert(":"@ =~= self.text().subrange(loc.offset as int, self.pos()));
            }
            return Ok(Token::new(TokenKind::Colon, ":".to_owned(), loc));
        }
        if ch == '.' {
            self.advance();
            proof {
                reveal_strlit(".");
                assert("."@ =~= self.text().subrange(loc.offset as int, self.pos()));
            }
            return Ok(Token::new(TokenKind::Dot, ".".to_owned(), loc));
        }
        if ch == '*' {
            self.advance();
            proof {
                reveal_strlit("*");
                assert("*"@ =~= self.text().subrange(loc.offset as int, self.pos()));
            }
            return Ok(Token::new(TokenKind::Star, "*".to_owned(), loc));
        }
        if ch == '/' {
            self.advance();
            proof {
                reveal_strlit("/");
                assert("/"@ =~= self.text().subrange(loc.offset as int, self.pos()));
            }
            return Ok(Token::new(TokenKind::Slash, "/".to_owned(), loc));
        }
        if ch == '%' {
            self.advance();
            proof {
                reveal_strlit("%");
                assert("%"@ =~= self.text().subrange(loc.offset as int, self.pos()));
            }
            return Ok(Token::new(TokenKind::Percent, "%".to_owned(), loc));
        }
        if ch == ';' {
            self.advance();
            proof {
                reveal_strlit(";");
                assert(";"@ =~= self.text().subrange(loc.offset as int, self.pos()));
            }
            return Ok(Token::new(TokenKind::Semicolon, ";".to_owned(), loc));
        }
        if ch == '=' {
            self.advance();
            proof {
                reveal_strlit("=");
                assert("="@ =~= self.text().subrange(loc.offset as int, self.pos()));
            }
            return Ok(Token::new(TokenKind::Equals, "=".to_owned(), loc));
        }
        if ch == '+' {
            self.advance();
            if self.peek() == '=' {
                self.advance();
                proof {
                    reveal_strlit("+=");
                    assert("+="@ =~= self.text().subrange(loc.offset as int, self.pos()));
                }
                return Ok(Token::new(TokenKind::PlusEquals, "+=".to_owned(), loc));
            }
            proof {
                reveal_strlit("+");
                assert("+"@ =~= self.text().subrange(loc.offset as int, self.pos()));
            }
            return Ok(Token::new(TokenKind::Plus, "+".to_owned(), loc));
        }
        Err(LexError::InvalidCharacter { offset: self.index })
    }
}

} // verus!
