use x86asm::error::{AsmError, ErrorKind};
use x86asm::lexer::{
    advance, is_escapable, is_ident_char, is_number_char, is_whitespace, take_until,
    to_escape_char, tokenize, Location, Token, TokenKind,
};

#[test]
fn debug_tokenize() -> Result<(), AsmError> {
    let asm_code = r#"# This line is comment. Should be skipped.
.text
.global _start
_start:
    mov eax, eax
    lea e, 0x10
"#;

    let actual = tokenize(asm_code)?;
    assert_eq!(
        vec![
            Token {
                kind: TokenKind::Ident(".text".to_owned()),
                loc: Location { line: 1, column: 0 },
            },
            Token {
                kind: TokenKind::Ident(".global".to_owned()),
                loc: Location { line: 2, column: 0 },
            },
            Token {
                kind: TokenKind::Ident("_start".to_owned()),
                loc: Location { line: 2, column: 8 },
            },
            Token {
                kind: TokenKind::Ident("_start".to_owned()),
                loc: Location { line: 3, column: 0 },
            },
            Token {
                kind: TokenKind::Colon,
                loc: Location { line: 3, column: 6 },
            },
            Token {
                kind: TokenKind::Ident("mov".to_owned()),
                loc: Location { line: 4, column: 4 },
            },
            Token {
                kind: TokenKind::Ident("eax".to_owned()),
                loc: Location { line: 4, column: 8 },
            },
            Token {
                kind: TokenKind::Comma,
                loc: Location {
                    line: 4,
                    column: 11,
                },
            },
            Token {
                kind: TokenKind::Ident("eax".to_owned()),
                loc: Location {
                    line: 4,
                    column: 13,
                },
            },
            Token {
                kind: TokenKind::Ident("lea".to_owned()),
                loc: Location { line: 5, column: 4 },
            },
            Token {
                kind: TokenKind::Ident("e".to_owned()),
                loc: Location { line: 5, column: 8 },
            },
            Token {
                kind: TokenKind::Comma,
                loc: Location { line: 5, column: 9 },
            },
            Token {
                kind: TokenKind::Number("0".to_owned()),
                loc: Location {
                    line: 5,
                    column: 11,
                },
            },
            Token {
                kind: TokenKind::Ident("x".to_owned()),
                loc: Location {
                    line: 5,
                    column: 12,
                },
            },
            Token {
                kind: TokenKind::Number("10".to_owned()),
                loc: Location {
                    line: 5,
                    column: 13,
                },
            },
        ],
        actual
    );
    Ok(())
}

#[test]
fn tokenize_empty_text_has_no_tokens() {
    assert_eq!(tokenize(""), Ok(vec![]));
    assert_eq!(tokenize("  \t\n\n"), Ok(vec![]));
    assert_eq!(tokenize("# only a comment"), Ok(vec![]));
}

#[test]
fn tokenize_punctuation() {
    let kinds: Vec<TokenKind> = tokenize(",+-*/%$:()")
        .unwrap()
        .into_iter()
        .map(|t| t.kind)
        .collect();
    assert_eq!(
        kinds,
        vec![
            TokenKind::Comma,
            TokenKind::Plus,
            TokenKind::Minus,
            TokenKind::Mul,
            TokenKind::Div,
            TokenKind::Percent,
            TokenKind::Dolor,
            TokenKind::Colon,
            TokenKind::LParen,
            TokenKind::RParen,
        ]
    );
}

#[test]
fn tokenize_quoted_literal_with_escapes() {
    let tokens = tokenize("\"a\\n\\tb\\\\\" 'it\\'s'").unwrap();
    assert_eq!(
        tokens,
        vec![
            Token {
                kind: TokenKind::Token("a\n\tb\\".to_owned()),
                loc: Location { line: 0, column: 0 },
            },
            Token {
                kind: TokenKind::Token("it's".to_owned()),
                loc: Location {
                    line: 0,
                    column: 11,
                },
            },
        ]
    );
}

#[test]
fn tokenize_number_takes_hex_digits() {
    let tokens = tokenize("1f9 g").unwrap();
    assert_eq!(tokens[0].kind, TokenKind::Number("1f9".to_owned()));
    assert_eq!(tokens[1].kind, TokenKind::Ident("g".to_owned()));
    assert_eq!(tokens[1].loc, Location { line: 0, column: 4 });
}

#[test]
fn tokenize_rejects_carriage_return() {
    assert_eq!(
        tokenize("ret\r\n"),
        Err(AsmError {
            kind: ErrorKind::CarriageReturn,
            loc: Some(Location { line: 0, column: 3 }),
        })
    );
}

#[test]
fn tokenize_rejects_unknown_character() {
    assert_eq!(
        tokenize("\n  @"),
        Err(AsmError {
            kind: ErrorKind::UnexpectedChar('@'),
            loc: Some(Location { line: 1, column: 2 }),
        })
    );
}

#[test]
fn tokenize_rejects_unclosed_literal() {
    assert_eq!(
        tokenize("\"abc"),
        Err(AsmError {
            kind: ErrorKind::UnclosedLiteral,
            loc: Some(Location { line: 0, column: 0 }),
        })
    );
}

#[test]
fn tokenize_rejects_unsupported_escape() {
    assert_eq!(
        tokenize("nop \"a\\q\""),
        Err(AsmError {
            kind: ErrorKind::UnsupportedEscape,
            loc: Some(Location { line: 0, column: 4 }),
        })
    );
    assert_eq!(
        tokenize("'\\"),
        Err(AsmError {
            kind: ErrorKind::UnsupportedEscape,
            loc: Some(Location { line: 0, column: 0 }),
        })
    );
}

#[test]
fn character_classes() {
    assert!(is_whitespace(' ') && is_whitespace('\t') && is_whitespace('\n'));
    assert!(!is_whitespace('\r') && !is_whitespace('a'));
    assert!(is_ident_char('a') && is_ident_char('Z') && is_ident_char('_') && is_ident_char('.'));
    assert!(!is_ident_char('0') && !is_ident_char('-'));
    assert!(is_number_char('0') && is_number_char('9') && is_number_char('a'));
    assert!(is_number_char('F') && !is_number_char('g') && !is_number_char('x'));
    assert!(is_escapable('n') && is_escapable('0') && is_escapable('\\'));
    assert!(!is_escapable('q'));
}

#[test]
fn escape_characters() {
    assert_eq!(to_escape_char('n'), Ok('\n'));
    assert_eq!(to_escape_char('r'), Ok('\r'));
    assert_eq!(to_escape_char('t'), Ok('\t'));
    assert_eq!(to_escape_char('0'), Ok('\0'));
    assert_eq!(to_escape_char('\''), Ok('\''));
    assert_eq!(to_escape_char('"'), Ok('"'));
    assert_eq!(to_escape_char('\\'), Ok('\\'));
    assert_eq!(
        to_escape_char('x'),
        Err(AsmError {
            kind: ErrorKind::UnsupportedEscape,
            loc: None
        })
    );
}

#[test]
fn advance_moves_behind_the_token_or_not_at_all() {
    let chars: Vec<char> = "10, 2 @ \"open \\q".chars().collect();
    let mut pos = 0;
    assert_eq!(advance(&chars, &mut pos), Ok(TokenKind::Number("10".to_owned())));
    assert_eq!(pos, 2);
    assert_eq!(advance(&chars, &mut pos), Ok(TokenKind::Comma));
    assert_eq!(pos, 3);
    // no token starts at a blank
    assert_eq!(
        advance(&chars, &mut pos),
        Err(AsmError {
            kind: ErrorKind::UnexpectedChar(' '),
            loc: None
        })
    );
    assert_eq!(pos, 3);
    pos = 6;
    assert_eq!(
        advance(&chars, &mut pos),
        Err(AsmError {
            kind: ErrorKind::UnexpectedChar('@'),
            loc: None
        })
    );
    assert_eq!(pos, 6);
    // a literal that fails leaves the position at its opening quote
    pos = 8;
    assert_eq!(
        advance(&chars, &mut pos),
        Err(AsmError {
            kind: ErrorKind::UnsupportedEscape,
            loc: None
        })
    );
    assert_eq!(pos, 8);
    let chars: Vec<char> = "'abc".chars().collect();
    let mut pos = 0;
    assert_eq!(
        advance(&chars, &mut pos),
        Err(AsmError {
            kind: ErrorKind::UnclosedLiteral,
            loc: None
        })
    );
    assert_eq!(pos, 0);
}

#[test]
fn take_until_reads_to_the_closing_quote() {
    let chars: Vec<char> = "ab\\n'c' rest".chars().collect();
    let mut pos = 0;
    assert_eq!(
        take_until('\'', &chars, &mut pos),
        Ok(TokenKind::Token("ab\n".to_owned()))
    );
    assert_eq!(pos, 5);
    // the other quote is not there
    assert_eq!(
        take_until('"', &chars, &mut pos),
        Err(AsmError {
            kind: ErrorKind::UnclosedLiteral,
            loc: None
        })
    );
    assert_eq!(pos, 5);
}
