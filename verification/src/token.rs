//! Token kinds without their text, and the punctuation each stands for.

use crate::text::{decimal, decimal_string};
use vstd::prelude::*;
use vstd::std_specs::convert::TryFromSpecImpl;
use vstd::string::*;

verus! {

/// A place in a source file.
#[derive(Clone, Copy, Debug, PartialEq, Eq, PartialOrd, Ord)]
pub struct Position<'a> {
    /// The name of the file that the text was read from.
    pub file_name: &'a str,
    /// The line in the text (1 based index)
    pub line: usize,
}

impl Default for Position<'_> {
    /// The first line of a file without a name.
    fn default() -> (p: Self)
        ensures
            p.file_name@ == ""@,
            p.line == 1,
    {
        Self { file_name: "", line: 1 }
    }
}

impl<'a> Position<'a> {
    /// The position as text: the file name, a colon and a blank, and
    /// the line in decimal digits.
    pub fn describe(&self) -> (s: String)
        ensures
            s@ == self.file_name@ + ": "@ + decimal(self.line as nat),
    {
        let mut s = String::from_str(self.file_name);
        s.append(": ");
        let digits = decimal_string(self.line);
        s.append(digits.as_str());
        s
    }
}

/// The kind of a token.
#[derive(Clone, Copy, Debug, PartialEq, Eq, PartialOrd, Ord, Structural)]
pub enum TokenKind {
    Ident,
    Number,
    String,
    Comma,
    Colon,
    Lpar,
    Rpar,
    Plus,
    Minus,
    Mul,
    Div,
    Percent,
    Dolor,
    /// end of line
    Eol,
    /// end of file
    Eof,
}

/// Why a conversion from or to a token kind failed.
#[derive(Clone, Copy, Debug, PartialEq, Eq, PartialOrd, Ord)]
pub enum TokenKindError {
    /// The character stands for no token kind.
    UnexpectedChar(char),
    /// The token kind is no punctuation.
    UnexpectedKind(TokenKind),
}

/// The token kind that a character stands for. A colon counts as a
/// comma.
pub open spec fn kind_of_char(s: char) -> Result<TokenKind, TokenKindError> {
    if s == ',' {
        Ok(TokenKind::Comma)
    } else if s == ':' {
        Ok(TokenKind::Comma)
    } else if s == '(' {
        Ok(TokenKind::Lpar)
    } else if s == ')' {
        Ok(TokenKind::Rpar)
    } else if s == '+' {
        Ok(TokenKind::Plus)
    } else if s == '-' {
        Ok(TokenKind::Minus)
    } else if s == '*' {
        Ok(TokenKind::Mul)
    } else if s == '/' {
        Ok(TokenKind::Div)
    } else if s == '%' {
        Ok(TokenKind::Percent)
    } else if s == '$' {
        Ok(TokenKind::Dolor)
    } else if s == '\n' {
        Ok(TokenKind::Eol)
    } else if s == '\0' {
        Ok(TokenKind::Eof)
    } else {
        Err(TokenKindError::UnexpectedChar(s))
    }
}

/// The text of a punctuation token kind.
pub open spec fn text_of_kind(s: TokenKind) -> Result<&'static str, TokenKindError> {
    match s {
        TokenKind::Comma => Ok(","),
        TokenKind::Colon => Ok(":"),
        TokenKind::Lpar => Ok("("),
        TokenKind::Rpar => Ok(")"),
        TokenKind::Plus => Ok("+"),
        TokenKind::Minus => Ok("-"),
        TokenKind::Mul => Ok("*"),
        TokenKind::Div => Ok("/"),
        TokenKind::Percent => Ok("%"),
        TokenKind::Dolor => Ok("$"),
        TokenKind::Eol => Ok("\n"),
        TokenKind::Eof => Ok("\0"),
        _ => Err(TokenKindError::UnexpectedKind(s)),
    }
}

impl TryFrom<char> for TokenKind {
    type Error = TokenKindError;

    fn try_from(s: char) -> (r: Result<Self, Self::Error>) {
        if s == ',' {
            Ok(TokenKind::Comma)
        } else if s == ':' {
            Ok(TokenKind::Comma)
        } else if s == '(' {
            Ok(TokenKind::Lpar)
        } else if s == ')' {
            Ok(TokenKind::Rpar)
        } else if s == '+' {
            Ok(TokenKind::Plus)
        } else if s == '-' {
            Ok(TokenKind::Minus)
        } else if s == '*' {
            Ok(TokenKind::Mul)
        } else if s == '/' {
            Ok(TokenKind::Div)
        } else if s == '%' {
            Ok(TokenKind::Percent)
        } else if s == '$' {
            Ok(TokenKind::Dolor)
        } else if s == '\n' {
            Ok(TokenKind::Eol)
        } else if s == '\0' {
            Ok(TokenKind::Eof)
        } else {
            Err(TokenKindError::UnexpectedChar(s))
        }
    }
}

impl TryFromSpecImpl<char> for TokenKind {
    open spec fn obeys_try_from_spec() -> bool {
        true
    }

    open spec fn try_from_spec(s: char) -> Result<Self, Self::Error> {
        kind_of_char(s)
    }
}

impl<'a> TryFrom<TokenKind> for &'a str {
    type Error = TokenKindError;

    fn try_from(s: TokenKind) -> (r: Result<Self, Self::Error>) {
        match s {
            TokenKind::Comma => Ok(","),
            TokenKind::Colon => Ok(":"),
            TokenKind::Lpar => Ok("("),
            TokenKind::Rpar => Ok(")"),
            TokenKind::Plus => Ok("+"),
            TokenKind::Minus => Ok("-"),
            TokenKind::Mul => Ok("*"),
            TokenKind::Div => Ok("/"),
            TokenKind::Percent => Ok("%"),
            TokenKind::Dolor => Ok("$"),
            TokenKind::Eol => Ok("\n"),
            TokenKind::Eof => Ok("\0"),
            _ => Err(TokenKindError::UnexpectedKind(s)),
        }
    }
}

impl<'a> TryFromSpecImpl<TokenKind> for &'a str {
    open spec fn obeys_try_from_spec() -> bool {
        true
    }

    open spec fn try_from_spec(s: TokenKind) -> Result<Self, Self::Error> {
        text_of_kind(s)
    }
}

/// A token: its kind, where it was read, and its text.
#[derive(Clone, Copy, Debug, PartialEq, Eq, PartialOrd, Ord)]
pub struct Token<'a> {
    pub kind: TokenKind,
    pub pos: Position<'a>,
    pub lit: &'a str,
}

} // verus!
