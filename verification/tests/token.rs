use x86asm::token::{Position, Token, TokenKind, TokenKindError};

#[test]
fn position_default_is_first_line() {
    let p = Position::default();
    assert_eq!(p.file_name, "");
    assert_eq!(p.line, 1);
}

#[test]
fn token_kind_from_char() {
    assert_eq!(TokenKind::try_from(','), Ok(TokenKind::Comma));
    assert_eq!(TokenKind::try_from(':'), Ok(TokenKind::Comma));
    assert_eq!(TokenKind::try_from('('), Ok(TokenKind::Lpar));
    assert_eq!(TokenKind::try_from(')'), Ok(TokenKind::Rpar));
    assert_eq!(TokenKind::try_from('+'), Ok(TokenKind::Plus));
    assert_eq!(TokenKind::try_from('-'), Ok(TokenKind::Minus));
    assert_eq!(TokenKind::try_from('*'), Ok(TokenKind::Mul));
    assert_eq!(TokenKind::try_from('/'), Ok(TokenKind::Div));
    assert_eq!(TokenKind::try_from('%'), Ok(TokenKind::Percent));
    assert_eq!(TokenKind::try_from('$'), Ok(TokenKind::Dolor));
    assert_eq!(TokenKind::try_from('\n'), Ok(TokenKind::Eol));
    assert_eq!(TokenKind::try_from('\0'), Ok(TokenKind::Eof));
    assert_eq!(
        TokenKind::try_from('a'),
        Err(TokenKindError::UnexpectedChar('a'))
    );
}

#[test]
fn token_kind_to_text() {
    assert_eq!(<&str>::try_from(TokenKind::Comma), Ok(","));
    assert_eq!(<&str>::try_from(TokenKind::Colon), Ok(":"));
    assert_eq!(<&str>::try_from(TokenKind::Lpar), Ok("("));
    assert_eq!(<&str>::try_from(TokenKind::Eol), Ok("\n"));
    assert_eq!(<&str>::try_from(TokenKind::Eof), Ok("\0"));
    assert_eq!(
        <&str>::try_from(TokenKind::Ident),
        Err(TokenKindError::UnexpectedKind(TokenKind::Ident))
    );
    assert_eq!(
        <&str>::try_from(TokenKind::Number),
        Err(TokenKindError::UnexpectedKind(TokenKind::Number))
    );
}

#[test]
fn token_holds_kind_position_and_text() {
    let t = Token {
        kind: TokenKind::Ident,
        pos: Position {
            file_name: "a.s",
            line: 3,
        },
        lit: "mov",
    };
    assert_eq!(t.clone(), t);
    assert_eq!(t.pos.line, 3);
    assert_eq!(t.lit, "mov");
}

#[test]
fn position_as_text() {
    let p = Position {
        file_name: "main.s",
        line: 120,
    };
    assert_eq!(p.describe(), "main.s: 120");
    assert_eq!(Position::default().describe(), ": 1");
    let p = Position {
        file_name: "a",
        line: 0,
    };
    assert_eq!(p.describe(), "a: 0");
    let p = Position {
        file_name: "a",
        line: 9,
    };
    assert_eq!(p.describe(), "a: 9");
    let p = Position {
        file_name: "a",
        line: 10,
    };
    assert_eq!(p.describe(), "a: 10");
    let p = Position {
        file_name: "a",
        line: 18446744073709551615,
    };
    assert_eq!(p.describe(), "a: 18446744073709551615");
}
