//! Simple hand-written assembler lexer: from source text to tokens and
//! the positions they were read at.
//!
//! Blanks, tabs and line feeds separate tokens; `#` starts a comment
//! that runs to the end of the line. A token is a punctuation mark, a
//! quoted literal, a number (a decimal digit followed by hexadecimal
//! digits) or an identifier (letters, `_` and `.`).

use crate::error::{AsmError, ErrorKind};
use crate::text::chars_of;
use vstd::prelude::*;

verus! {

/// A place in the source text: a zero-based line and column.
#[derive(Copy, Clone, Default, Debug, PartialEq, Eq, Structural)]
pub struct Location {
    pub line: usize,
    pub column: usize,
}

/// The kind of a token, with its text where the kind has one.
#[derive(Clone, Debug, Eq, PartialEq)]
pub enum TokenKind {
    /// An identifier
    Ident(String),
    /// A quoted literal, e.g. 'hello' or "World", with escapes resolved
    Token(String),
    Number(String),
    Plus,
    Mul,
    Minus,
    Div,
    Dolor,
    Percent,
    Colon,
    Comma,
    LParen,
    RParen,
}

/// The mathematical value of a `TokenKind`.
pub enum TokenKindView {
    Ident(Seq<char>),
    Token(Seq<char>),
    Number(Seq<char>),
    Plus,
    Mul,
    Minus,
    Div,
    Dolor,
    Percent,
    Colon,
    Comma,
    LParen,
    RParen,
}

impl View for TokenKind {
    type V = TokenKindView;

    open spec fn view(&self) -> TokenKindView {
        match self {
            TokenKind::Ident(s) => TokenKindView::Ident(s@),
            TokenKind::Token(s) => TokenKindView::Token(s@),
            TokenKind::Number(s) => TokenKindView::Number(s@),
            TokenKind::Plus => TokenKindView::Plus,
            TokenKind::Mul => TokenKindView::Mul,
            TokenKind::Minus => TokenKindView::Minus,
            TokenKind::Div => TokenKindView::Div,
            TokenKind::Dolor => TokenKindView::Dolor,
            TokenKind::Percent => TokenKindView::Percent,
            TokenKind::Colon => TokenKindView::Colon,
            TokenKind::Comma => TokenKindView::Comma,
            TokenKind::LParen => TokenKindView::LParen,
            TokenKind::RParen => TokenKindView::RParen,
        }
    }
}

/// A token and where it starts.
#[derive(Clone, Debug, PartialEq, Eq)]
pub struct Token {
    pub kind: TokenKind,
    pub loc: Location,
}

/// The mathematical value of a `Token`.
pub struct TokenView {
    pub kind: TokenKindView,
    pub loc: Location,
}

impl View for Token {
    type V = TokenView;

    open spec fn view(&self) -> TokenView {
        TokenView { kind: self.kind@, loc: self.loc }
    }
}

/// The values of a sequence of tokens.
pub open spec fn token_views(tokens: Seq<Token>) -> Seq<TokenView> {
    tokens.map_values(|t: Token| t@)
}

/// Whether a character separates tokens.
pub open spec fn spec_is_whitespace(c: char) -> bool {
    c == ' ' || c == '\t' || c == '\n'
}

/// Whether a character can stand in an identifier.
pub open spec fn spec_is_ident_char(c: char) -> bool {
    ('a' <= c <= 'z') || ('A' <= c <= 'Z') || c == '_' || c == '.'
}

/// Whether a character can stand in a number: a hexadecimal digit.
pub open spec fn spec_is_number_char(c: char) -> bool {
    ('0' <= c <= '9') || ('a' <= c <= 'f') || ('A' <= c <= 'F')
}

/// The character that a backslash and `c` stand for in a quoted
/// literal, if `c` can be escaped.
pub open spec fn spec_escape(c: char) -> Option<char> {
    if c == '\'' {
        Some('\'')
    } else if c == '"' {
        Some('"')
    } else if c == '\\' {
        Some('\\')
    } else if c == 'n' {
        Some('\n')
    } else if c == 'r' {
        Some('\r')
    } else if c == 't' {
        Some('\t')
    } else if c == '0' {
        Some('\0')
    } else {
        None
    }
}

/// The position after the characters from `from` up to `to` were read:
/// a line feed starts a new line at column 0, every other character
/// moves one column on.
pub open spec fn spec_advance_loc(loc: Location, s: Seq<char>, from: int, to: int) -> Location
    decreases to - from,
{
    if from >= to {
        loc
    } else {
        let before = spec_advance_loc(loc, s, from, to - 1);
        if s[to - 1] == '\n' {
            Location { line: (before.line + 1) as usize, column: 0 }
        } else {
            Location { line: before.line, column: (before.column + 1) as usize }
        }
    }
}

/// The first place from `pos` on that holds no whitespace.
pub open spec fn spec_skip_ws(s: Seq<char>, pos: int) -> int
    decreases s.len() - pos,
{
    if 0 <= pos < s.len() && spec_is_whitespace(s[pos]) {
        spec_skip_ws(s, pos + 1)
    } else {
        pos
    }
}

/// The place behind the next line feed from `pos` on, or the end.
pub open spec fn spec_skip_line(s: Seq<char>, pos: int) -> int
    decreases s.len() - pos,
{
    if !(0 <= pos < s.len()) {
        pos
    } else if s[pos] == '\n' {
        pos + 1
    } else {
        spec_skip_line(s, pos + 1)
    }
}

/// The place behind a comment that starts at `pos`; `pos` itself where
/// none starts there.
pub open spec fn spec_skip_comment(s: Seq<char>, pos: int) -> int {
    if 0 <= pos < s.len() && s[pos] == '#' {
        spec_skip_line(s, pos)
    } else {
        pos
    }
}

/// The end of the run of characters from `pos` on that satisfy `number`
/// or identifier rules.
pub open spec fn spec_run_end(s: Seq<char>, pos: int, number: bool) -> int
    decreases s.len() - pos,
{
    if 0 <= pos < s.len() && (if number {
        spec_is_number_char(s[pos])
    } else {
        spec_is_ident_char(s[pos])
    }) {
        spec_run_end(s, pos + 1, number)
    } else {
        pos
    }
}

/// The rest of a quoted literal from `pos` on, behind the text `acc`
/// that was read already: up to the closing `quote`, with escapes
/// resolved. Returns the text and the place behind the closing quote.
pub open spec fn spec_take_until(s: Seq<char>, quote: char, pos: int, acc: Seq<char>) -> Result<
    (Seq<char>, int),
    ErrorKind,
>
    decreases s.len() - pos,
{
    if !(0 <= pos < s.len()) {
        Err(ErrorKind::UnclosedLiteral)
    } else if s[pos] == quote {
        Ok((acc, pos + 1))
    } else if s[pos] == '\\' {
        if pos + 1 < s.len() && spec_escape(s[pos + 1]) is Some {
            spec_take_until(s, quote, pos + 2, acc.push(spec_escape(s[pos + 1])->Some_0))
        } else {
            Err(ErrorKind::UnsupportedEscape)
        }
    } else {
        spec_take_until(s, quote, pos + 1, acc.push(s[pos]))
    }
}

/// The token that starts at `pos`, and the place behind it.
pub open spec fn spec_advance(s: Seq<char>, pos: int) -> Result<(TokenKindView, int), ErrorKind> {
    let c = s[pos];
    if c == ',' {
        Ok((TokenKindView::Comma, pos + 1))
    } else if c == '+' {
        Ok((TokenKindView::Plus, pos + 1))
    } else if c == '-' {
        Ok((TokenKindView::Minus, pos + 1))
    } else if c == '*' {
        Ok((TokenKindView::Mul, pos + 1))
    } else if c == '/' {
        Ok((TokenKindView::Div, pos + 1))
    } else if c == '%' {
        Ok((TokenKindView::Percent, pos + 1))
    } else if c == '$' {
        Ok((TokenKindView::Dolor, pos + 1))
    } else if c == ':' {
        Ok((TokenKindView::Colon, pos + 1))
    } else if c == '(' {
        Ok((TokenKindView::LParen, pos + 1))
    } else if c == ')' {
        Ok((TokenKindView::RParen, pos + 1))
    } else if c == '\'' || c == '"' {
        match spec_take_until(s, c, pos + 1, Seq::empty()) {
            Ok((text, next)) => Ok((TokenKindView::Token(text), next)),
            Err(e) => Err(e),
        }
    } else if '0' <= c <= '9' {
        let end = spec_run_end(s, pos + 1, true);
        Ok((TokenKindView::Number(s.subrange(pos, end)), end))
    } else if spec_is_ident_char(c) {
        let end = spec_run_end(s, pos + 1, false);
        Ok((TokenKindView::Ident(s.subrange(pos, end)), end))
    } else if c == '\r' {
        Err(ErrorKind::CarriageReturn)
    } else {
        Err(ErrorKind::UnexpectedChar(c))
    }
}

/// The tokens of the text from `pos` on, behind the tokens `acc` that
/// were read already, where `loc` is the position of `pos`. Whitespace
/// and comments are skipped; the first character that starts no token is
/// an error at its position.
pub open spec fn spec_tokenize_from(s: Seq<char>, pos: int, loc: Location, acc: Seq<TokenView>) -> Result<
    Seq<TokenView>,
    AsmError,
>
    decreases s.len() - pos,
{
    if !(0 <= pos < s.len()) {
        Ok(acc)
    } else {
        let skipped = spec_skip_comment(s, spec_skip_ws(s, pos));
        if skipped != pos {
            if pos < skipped <= s.len() {
                spec_tokenize_from(s, skipped, spec_advance_loc(loc, s, pos, skipped), acc)
            } else {
                Ok(acc)
            }
        } else {
            match spec_advance(s, pos) {
                Err(k) => Err(AsmError { kind: k, loc: Some(loc) }),
                Ok((kind, next)) => if pos < next <= s.len() {
                    spec_tokenize_from(
                        s,
                        next,
                        spec_advance_loc(loc, s, pos, next),
                        acc.push(TokenView { kind, loc }),
                    )
                } else {
                    Ok(acc)
                },
            }
        }
    }
}

/// The tokens of a text.
pub open spec fn spec_tokenize(s: Seq<char>) -> Result<Seq<TokenView>, AsmError> {
    spec_tokenize_from(s, 0, Location { line: 0, column: 0 }, Seq::empty())
}

/// A run ends at or behind its start and not beyond the end.
pub proof fn lemma_run_end_bounds(s: Seq<char>, pos: int, number: bool)
    requires
        0 <= pos <= s.len(),
    ensures
        pos <= spec_run_end(s, pos, number) <= s.len(),
    decreases s.len() - pos,
{
    if pos < s.len() {
        lemma_run_end_bounds(s, pos + 1, number);
    }
}

/// A quoted literal ends behind its start and not beyond the end.
pub proof fn lemma_take_until_bounds(s: Seq<char>, quote: char, pos: int, acc: Seq<char>)
    requires
        0 <= pos <= s.len(),
    ensures
        spec_take_until(s, quote, pos, acc) matches Ok((_, next)) ==> pos < next <= s.len(),
    decreases s.len() - pos,
{
    if pos < s.len() && s[pos] != quote {
        if s[pos] == '\\' {
            if pos + 1 < s.len() && spec_escape(s[pos + 1]) is Some {
                lemma_take_until_bounds(
                    s,
                    quote,
                    pos + 2,
                    acc.push(spec_escape(s[pos + 1])->Some_0),
                );
            }
        } else {
            lemma_take_until_bounds(s, quote, pos + 1, acc.push(s[pos]));
        }
    }
}

/// A token ends behind its start and not beyond the end.
pub proof fn lemma_advance_bounds(s: Seq<char>, pos: int)
    requires
        0 <= pos < s.len(),
    ensures
        spec_advance(s, pos) matches Ok((_, next)) ==> pos < next <= s.len(),
{
    lemma_take_until_bounds(s, s[pos], pos + 1, Seq::empty());
    lemma_run_end_bounds(s, pos + 1, true);
    lemma_run_end_bounds(s, pos + 1, false);
}

/// A position lies no further down or right than characters were read.
proof fn lemma_advance_loc_bounds(loc: Location, s: Seq<char>, from: int, to: int)
    requires
        from <= to,
    ensures
        spec_advance_loc(loc, s, from, to).line <= loc.line + (to - from),
        spec_advance_loc(loc, s, from, to).column <= loc.column + (to - from),
    decreases to - from,
{
    if from < to {
        lemma_advance_loc_bounds(loc, s, from, to - 1);
    }
}

impl Location {
    /// Moves the position over the characters of `chars` from `from`
    /// up to `to`.
    pub(crate) fn advance(&mut self, chars: &[char], from: usize, to: usize)
        requires
            from <= to <= chars@.len(),
            old(self).line + (to - from) <= usize::MAX,
            old(self).column + (to - from) <= usize::MAX,
        ensures
            *final(self) == spec_advance_loc(*old(self), chars@, from as int, to as int),
    {
        let mut i = from;
        while i < to
            invariant
                from <= i <= to <= chars@.len(),
                old(self).line + (to - from) <= usize::MAX,
                old(self).column + (to - from) <= usize::MAX,
                *self == spec_advance_loc(*old(self), chars@, from as int, i as int),
            decreases to - i,
        {
            proof {
                lemma_advance_loc_bounds(*old(self), chars@, from as int, i as int);
            }
            if chars[i] == '\n' {
                self.line = self.line + 1;
                self.column = 0;
            } else {
                self.column = self.column + 1;
            }
            i = i + 1;
        }
    }
}

/// Whether a character can follow a backslash in a quoted literal.
pub fn is_escapable(c: char) -> (r: bool)
    ensures
        r == spec_escape(c) is Some,
{
    c == '\'' || c == '"' || c == '\\' || c == 'n' || c == 'r' || c == 't' || c == '0'
}

/// Whether a character separates tokens.
pub fn is_whitespace(c: char) -> (r: bool)
    ensures
        r == spec_is_whitespace(c),
{
    c == ' ' || c == '\t' || c == '\n'
}

/// Whether a character can stand in an identifier.
pub fn is_ident_char(c: char) -> (r: bool)
    ensures
        r == spec_is_ident_char(c),
{
    ('a' <= c && c <= 'z') || ('A' <= c && c <= 'Z') || c == '_' || c == '.'
}

/// Whether a character can stand in a number.
pub fn is_number_char(c: char) -> (r: bool)
    ensures
        r == spec_is_number_char(c),
{
    ('0' <= c && c <= '9') || ('a' <= c && c <= 'f') || ('A' <= c && c <= 'F')
}

/// The character that a backslash and `c` stand for.
pub fn to_escape_char(c: char) -> (r: Result<char, AsmError>)
    ensures
        match spec_escape(c) {
            Some(e) => r == Ok::<char, AsmError>(e),
            None => r == Err::<char, AsmError>(
                AsmError { kind: ErrorKind::UnsupportedEscape, loc: None },
            ),
        },
{
    if c == '\'' {
        Ok('\'')
    } else if c == '"' {
        Ok('\"')
    } else if c == '\\' {
        Ok('\\')
    } else if c == 'n' {
        Ok('\n')
    } else if c == 'r' {
        Ok('\r')
    } else if c == 't' {
        Ok('\t')
    } else if c == '0' {
        Ok('\0')
    } else {
        Err(AsmError::new(ErrorKind::UnsupportedEscape))
    }
}

/// Moves `pos` over whitespace.
pub fn skip_ws(chars: &[char], pos: &mut usize)
    requires
        *old(pos) <= chars@.len(),
    ensures
        *final(pos) == spec_skip_ws(chars@, *old(pos) as int),
        *old(pos) <= *final(pos) <= chars@.len(),
{
    while *pos < chars.len() && is_whitespace(chars[*pos])
        invariant
            *old(pos) <= *pos <= chars@.len(),
            spec_skip_ws(chars@, *old(pos) as int) == spec_skip_ws(chars@, *pos as int),
        decreases chars@.len() - *pos,
    {
        *pos = *pos + 1;
    }
}

/// Moves `pos` over a comment, if one starts there.
pub fn skip_comment(chars: &[char], pos: &mut usize)
    requires
        *old(pos) <= chars@.len(),
    ensures
        *final(pos) == spec_skip_comment(chars@, *old(pos) as int),
        *old(pos) <= *final(pos) <= chars@.len(),
{
    if *pos < chars.len() && chars[*pos] == '#' {
        while *pos < chars.len() && chars[*pos] != '\n'
            invariant
                *old(pos) <= *pos <= chars@.len(),
                spec_skip_line(chars@, *old(pos) as int) == spec_skip_line(chars@, *pos as int),
            decreases chars@.len() - *pos,
        {
            *pos = *pos + 1;
        }
        if *pos < chars.len() {
            *pos = *pos + 1;
        }
    }
}

/// Create TokenKind::Token: reads a quoted literal up to the closing
/// quote `ch`, from behind the opening one, and moves `pos` behind the
/// closing quote. Where the literal is not closed or holds an escape
/// that is not supported, `pos` stays where it is.
pub fn take_until(ch: char, chars: &[char], pos: &mut usize) -> (r: Result<TokenKind, AsmError>)
    requires
        *old(pos) <= chars@.len(),
    ensures
        match spec_take_until(chars@, ch, *old(pos) as int, Seq::empty()) {
            Ok((text, next)) => r is Ok && r->Ok_0@ == TokenKindView::Token(text) && *final(pos)
                == next,
            Err(e) => *final(pos) == *old(pos) && r == Err::<TokenKind, AsmError>(
                AsmError { kind: e, loc: None },
            ),
        },
{
    let mut buf = String::new();
    let mut next = *pos;
    loop
        invariant
            next <= chars@.len(),
            *pos == *old(pos),
            spec_take_until(chars@, ch, *old(pos) as int, Seq::empty()) == spec_take_until(
                chars@,
                ch,
                next as int,
                buf@,
            ),
        decreases chars@.len() - next,
    {
        if next >= chars.len() {
            return Err(AsmError::new(ErrorKind::UnclosedLiteral));
        }
        let c = chars[next];
        if c == ch {
            *pos = next + 1;
            return Ok(TokenKind::Token(buf));
        }
        if c == '\\' {
            if next + 1 < chars.len() && is_escapable(chars[next + 1]) {
                match to_escape_char(chars[next + 1]) {
                    Ok(e) => buf.push(e),
                    Err(e) => {
                        return Err(e);
                    },
                }
                next = next + 2;
            } else {
                return Err(AsmError::new(ErrorKind::UnsupportedEscape));
            }
        } else {
            buf.push(c);
            next = next + 1;
        }
    }
}

/// Whether a character continues a number, or an identifier.
fn in_run(c: char, number: bool) -> (r: bool)
    ensures
        r == (if number {
            spec_is_number_char(c)
        } else {
            spec_is_ident_char(c)
        }),
{
    if number {
        is_number_char(c)
    } else {
        is_ident_char(c)
    }
}

/// Reads the run of number or identifier characters that starts at
/// `start` and goes on at `pos`.
fn take_run(chars: &[char], start: usize, pos: &mut usize, number: bool) -> (buf: String)
    requires
        start < *old(pos) <= chars@.len(),
        *old(pos) == start + 1,
    ensures
        *final(pos) == spec_run_end(chars@, *old(pos) as int, number),
        buf@ == chars@.subrange(start as int, *final(pos) as int),
        *old(pos) <= *final(pos) <= chars@.len(),
{
    let mut buf = String::new();
    buf.push(chars[start]);
    assert(buf@ =~= chars@.subrange(start as int, *pos as int));
    while *pos < chars.len() && in_run(chars[*pos], number)
        invariant
            start < *pos <= chars@.len(),
            *old(pos) <= *pos,
            buf@ == chars@.subrange(start as int, *pos as int),
            spec_run_end(chars@, *old(pos) as int, number) == spec_run_end(
                chars@,
                *pos as int,
                number,
            ),
        decreases chars@.len() - *pos,
    {
        buf.push(chars[*pos]);
        *pos = *pos + 1;
        assert(buf@ =~= chars@.subrange(start as int, *pos as int));
    }
    buf
}

/// Reads the token that starts at `pos` and moves `pos` behind it.
/// Where no token starts there, `pos` stays where it is.
pub fn advance(chars: &[char], pos: &mut usize) -> (r: Result<TokenKind, AsmError>)
    requires
        *old(pos) < chars@.len(),
    ensures
        match spec_advance(chars@, *old(pos) as int) {
            Ok((kind, next)) => r is Ok && r->Ok_0@ == kind && *final(pos) == next && *old(pos)
                < *final(pos) <= chars@.len(),
            Err(e) => *final(pos) == *old(pos) && r == Err::<TokenKind, AsmError>(
                AsmError { kind: e, loc: None },
            ),
        },
{
    proof {
        lemma_advance_bounds(chars@, *pos as int);
    }
    let len = chars.len();
    let start = *pos;
    let c = chars[start];
    let mut next = start + 1;
    let kind = if c == ',' {
        TokenKind::Comma
    } else if c == '+' {
        TokenKind::Plus
    } else if c == '-' {
        TokenKind::Minus
    } else if c == '*' {
        TokenKind::Mul
    } else if c == '/' {
        TokenKind::Div
    } else if c == '%' {
        TokenKind::Percent
    } else if c == '$' {
        TokenKind::Dolor
    } else if c == ':' {
        TokenKind::Colon
    } else if c == '(' {
        TokenKind::LParen
    } else if c == ')' {
        TokenKind::RParen
    } else if c == '\'' || c == '"' {
        take_until(c, chars, &mut next)?
    } else if '0' <= c && c <= '9' {
        TokenKind::Number(take_run(chars, start, &mut next, true))
    } else if is_ident_char(c) {
        TokenKind::Ident(take_run(chars, start, &mut next, false))
    } else if c == '\r' {
        return Err(AsmError::new(ErrorKind::CarriageReturn));
    } else {
        return Err(AsmError::new(ErrorKind::UnexpectedChar(c)));
    };
    *pos = next;
    Ok(kind)
}

/// Splits a source text into tokens.
pub fn tokenize(input: &str) -> (r: Result<Vec<Token>, AsmError>)
    ensures
        match spec_tokenize(input@) {
            Ok(tokens) => r is Ok && token_views(r->Ok_0@) == tokens,
            Err(e) => r is Err && r->Err_0 == e,
        },
{
    let chars = chars_of(input);
    let text = chars.as_slice();
    let mut res: Vec<Token> = Vec::new();
    let mut loc = Location { line: 0, column: 0 };
    let mut pos: usize = 0;
    assert(token_views(res@) =~= Seq::<TokenView>::empty());
    while pos < text.len()
        invariant
            pos <= text@.len(),
            text@ == input@,
            loc.line <= pos,
            loc.column <= pos,
            spec_tokenize(input@) == spec_tokenize_from(text@, pos as int, loc, token_views(res@)),
        decreases text@.len() - pos,
    {
        let old_pos = pos;
        skip_ws(text, &mut pos);
        skip_comment(text, &mut pos);
        proof {
            lemma_advance_bounds(text@, old_pos as int);
            lemma_advance_loc_bounds(loc, text@, old_pos as int, pos as int);
        }
        if old_pos == pos {
            match advance(text, &mut pos) {
                Ok(kind) => {
                    let ghost before = token_views(res@);
                    let ghost view = kind@;
                    res.push(Token { kind, loc });
                    assert(token_views(res@) =~= before.push(TokenView { kind: view, loc }));
                },
                Err(err) => {
                    return Err(err.with_location(loc));
                },
            }
        }
        proof {
            lemma_advance_loc_bounds(loc, text@, old_pos as int, pos as int);
        }
        loc.advance(text, old_pos, pos);
    }
    Ok(res)
}

} // verus!
