use x86asm::encoder::arch::x86_64::registers::{DataSizeSuffix, Register};
use x86asm::encoder::arch::x86_64::Expr;
use x86asm::encoder::eval::{eval_expr, eval_expr_get_symbol_64, parse_i64};
use x86asm::encoder::parser::{
    expect, parse_expr, parse_factor, parse_indirect, parse_operand, parse_register,
    parse_two_operand, peek_n, peek_next,
};
use x86asm::error::{AsmError, ErrorKind};
use x86asm::lexer::{tokenize, Location, Token, TokenKind};

fn num(s: &str) -> Expr {
    Expr::Number(s.to_owned())
}

fn ident(s: &str) -> Expr {
    Expr::Ident(s.to_owned())
}

fn binop(l: Expr, op: TokenKind, r: Expr) -> Expr {
    Expr::Binop {
        left_hs: Box::new(l),
        right_hs: Box::new(r),
        op,
    }
}

fn reg(lit: &'static str, size: DataSizeSuffix, base_offset: u8) -> Register {
    Register {
        lit,
        size,
        base_offset,
        rex_required: false,
    }
}

#[test]
fn peek_and_expect() {
    let tokens = tokenize("a , b").unwrap();
    assert_eq!(peek_n(1, &tokens).unwrap().kind, TokenKind::Comma);
    assert_eq!(
        peek_n(3, &tokens),
        Err(AsmError {
            kind: ErrorKind::MissingToken,
            loc: None
        })
    );
    let mut index = 1;
    assert_eq!(expect(TokenKind::Comma, &mut index, &tokens), Ok(()));
    assert_eq!(index, 2);
    assert_eq!(
        expect(TokenKind::Comma, &mut index, &tokens),
        Err(AsmError {
            kind: ErrorKind::UnexpectedToken,
            loc: Some(Location { line: 0, column: 4 }),
        })
    );
    let mut end = 3;
    assert_eq!(
        expect(TokenKind::Comma, &mut end, &tokens),
        Err(AsmError {
            kind: ErrorKind::MissingToken,
            loc: None
        })
    );
}

#[test]
fn register_names_are_looked_up_in_upper_case() {
    let at = |column| Location { line: 0, column };
    let tokens = vec![
        Token { kind: TokenKind::Percent, loc: at(0) },
        Token { kind: TokenKind::Ident("r12".to_owned()), loc: at(1) },
        Token { kind: TokenKind::Percent, loc: at(5) },
        Token { kind: TokenKind::Ident("Xmm3".to_owned()), loc: at(6) },
        Token { kind: TokenKind::Percent, loc: at(11) },
        Token { kind: TokenKind::Ident("spl".to_owned()), loc: at(12) },
    ];
    let mut index = 0;
    assert_eq!(
        parse_register(&mut index, &tokens),
        Ok(Expr::Register(reg("R12", DataSizeSuffix::Quad, 12)))
    );
    assert_eq!(index, 2);
    assert_eq!(
        parse_register(&mut index, &tokens),
        Ok(Expr::Xmm(reg("XMM3", DataSizeSuffix::Unknown, 3)))
    );
    assert_eq!(
        parse_register(&mut index, &tokens),
        Ok(Expr::Register(Register {
            lit: "SPL",
            size: DataSizeSuffix::Byte,
            base_offset: 4,
            rex_required: true
        }))
    );
    assert_eq!(index, 6);
}

#[test]
fn unknown_register_names_the_offending_token() {
    let tokens = tokenize("%foo").unwrap();
    let mut index = 0;
    assert_eq!(
        parse_register(&mut index, &tokens),
        Err(AsmError {
            kind: ErrorKind::UnknownRegister,
            loc: Some(Location { line: 0, column: 1 }),
        })
    );
    let tokens = tokenize("% 1").unwrap();
    let mut index = 0;
    assert_eq!(
        parse_register(&mut index, &tokens),
        Err(AsmError {
            kind: ErrorKind::UnexpectedToken,
            loc: Some(Location { line: 0, column: 0 }),
        })
    );
    let tokens = tokenize("%").unwrap();
    let mut index = 0;
    assert_eq!(
        parse_register(&mut index, &tokens),
        Err(AsmError {
            kind: ErrorKind::UnexpectedToken,
            loc: Some(Location { line: 0, column: 0 }),
        })
    );
}

#[test]
fn factor_is_number_identifier_or_negation() {
    let tokens = tokenize("- - 5 foo").unwrap();
    let mut index = 0;
    assert_eq!(
        parse_factor(&mut index, &tokens),
        Ok(Expr::Neg(Box::new(Expr::Neg(Box::new(num("5"))))))
    );
    assert_eq!(index, 3);
    assert_eq!(parse_factor(&mut index, &tokens), Ok(ident("foo")));
    assert_eq!(index, 4);
    assert_eq!(
        parse_factor(&mut index, &tokens),
        Err(AsmError {
            kind: ErrorKind::MissingToken,
            loc: None
        })
    );
}

#[test]
fn binary_operators_group_to_the_left() {
    let tokens = tokenize("1 - 2 - 3").unwrap();
    let mut index = 0;
    assert_eq!(
        parse_expr(&mut index, &tokens),
        Ok(binop(
            binop(num("1"), TokenKind::Minus, num("2")),
            TokenKind::Minus,
            num("3")
        ))
    );
    assert_eq!(index, 5);

    let tokens = tokenize("1 + 2 * 3 ,").unwrap();
    let mut index = 0;
    let e = parse_expr(&mut index, &tokens).unwrap();
    assert_eq!(
        e,
        binop(
            binop(num("1"), TokenKind::Plus, num("2")),
            TokenKind::Mul,
            num("3")
        )
    );
    assert_eq!(index, 5);
    let mut names = Vec::new();
    assert_eq!(eval_expr_get_symbol_64(&e, &mut names), Ok(9));
}

#[test]
fn expression_needs_a_factor_after_an_operator() {
    let tokens = tokenize("1 + )").unwrap();
    let mut index = 0;
    assert_eq!(
        parse_expr(&mut index, &tokens),
        Err(AsmError {
            kind: ErrorKind::UnexpectedToken,
            loc: Some(Location { line: 0, column: 4 }),
        })
    );
}

#[test]
fn indirect_with_base_index_and_scale() {
    let tokens = tokenize("8(%rbx, %rdi, 4)").unwrap();
    let mut index = 0;
    assert_eq!(
        parse_indirect(&mut index, &tokens),
        Ok(Expr::Indirection {
            disp: Some(Box::new(num("8"))),
            base: Some(Box::new(Expr::Register(reg("RBX", DataSizeSuffix::Quad, 3)))),
            index: Some(Box::new(Expr::Register(reg("RDI", DataSizeSuffix::Quad, 7)))),
            scale: Some(Box::new(num("4"))),
            has_base: true,
            has_index_scale: true,
        })
    );
    assert_eq!(index, tokens.len());
}

#[test]
fn indirect_defaults() {
    // no displacement: 0
    let tokens = tokenize("(%rax)").unwrap();
    let mut index = 0;
    assert_eq!(
        parse_operand(&mut index, &tokens),
        Ok(Expr::Indirection {
            disp: Some(Box::new(num("0"))),
            base: Some(Box::new(Expr::Register(reg("RAX", DataSizeSuffix::Quad, 0)))),
            index: None,
            scale: None,
            has_base: true,
            has_index_scale: false,
        })
    );
    assert_eq!(index, 4);

    // no scale: 1; no base
    let tokens = tokenize("foo+4(,%rcx)").unwrap();
    let mut index = 0;
    assert_eq!(
        parse_operand(&mut index, &tokens),
        Ok(Expr::Indirection {
            disp: Some(Box::new(binop(ident("foo"), TokenKind::Plus, num("4")))),
            base: None,
            index: Some(Box::new(Expr::Register(reg("RCX", DataSizeSuffix::Quad, 1)))),
            scale: Some(Box::new(num("1"))),
            has_base: false,
            has_index_scale: true,
        })
    );
    assert_eq!(index, tokens.len());
}

#[test]
fn indirect_without_parenthesis_is_the_expression() {
    let tokens = tokenize("foo - 4 , x").unwrap();
    let mut index = 0;
    assert_eq!(
        parse_indirect(&mut index, &tokens),
        Ok(binop(ident("foo"), TokenKind::Minus, num("4")))
    );
    assert_eq!(index, 3);
}

#[test]
fn indirect_needs_closing_parenthesis() {
    let tokens = tokenize("(%rax").unwrap();
    let mut index = 0;
    assert_eq!(
        parse_indirect(&mut index, &tokens),
        Err(AsmError {
            kind: ErrorKind::MissingToken,
            loc: None
        })
    );
    let tokens = tokenize("(%rax %rbx)").unwrap();
    let mut index = 0;
    assert_eq!(
        parse_indirect(&mut index, &tokens),
        Err(AsmError {
            kind: ErrorKind::UnexpectedToken,
            loc: Some(Location { line: 0, column: 6 }),
        })
    );
    let tokens = tokenize("(rax)").unwrap();
    let mut index = 0;
    assert_eq!(
        parse_indirect(&mut index, &tokens),
        Err(AsmError {
            kind: ErrorKind::UnexpectedToken,
            loc: Some(Location { line: 0, column: 1 }),
        })
    );
}

#[test]
fn operand_kinds() {
    let tokens = tokenize("$-1, *rax").unwrap();
    let mut index = 0;
    assert_eq!(
        parse_operand(&mut index, &tokens),
        Ok(Expr::Immediate(Box::new(Expr::Neg(Box::new(num("1"))))))
    );
    assert_eq!(index, 3);
    index = 4;
    assert_eq!(
        parse_operand(&mut index, &tokens),
        Ok(Expr::Star(Box::new(Expr::Register(reg(
            "RAX",
            DataSizeSuffix::Quad,
            0
        )))))
    );
    assert_eq!(index, 6);

    // an operator behind an expression belongs to the expression
    let tokens = tokenize("$-1 *rax").unwrap();
    let mut index = 0;
    assert_eq!(
        parse_operand(&mut index, &tokens),
        Ok(Expr::Immediate(Box::new(binop(
            Expr::Neg(Box::new(num("1"))),
            TokenKind::Mul,
            ident("rax")
        ))))
    );
    assert_eq!(index, 5);

    let tokens = tokenize(",").unwrap();
    let mut index = 0;
    assert_eq!(
        parse_operand(&mut index, &tokens),
        Err(AsmError {
            kind: ErrorKind::UnexpectedToken,
            loc: Some(Location { line: 0, column: 0 }),
        })
    );
}

#[test]
fn two_operands_are_source_then_destination() {
    let tokens = tokenize("%rsi, %rdi").unwrap();
    let mut index = 0;
    assert_eq!(
        parse_two_operand(&mut index, &tokens),
        Ok((
            Expr::Register(reg("RSI", DataSizeSuffix::Quad, 6)),
            Expr::Register(reg("RDI", DataSizeSuffix::Quad, 7))
        ))
    );
    assert_eq!(index, 5);

    let tokens = tokenize("%rsi %rdi").unwrap();
    let mut index = 0;
    assert_eq!(
        parse_two_operand(&mut index, &tokens),
        Err(AsmError {
            kind: ErrorKind::UnexpectedToken,
            loc: Some(Location { line: 0, column: 5 }),
        })
    );
}

#[test]
fn decimal_numbers() {
    assert_eq!(parse_i64("0"), Some(0));
    assert_eq!(parse_i64("0042"), Some(42));
    assert_eq!(parse_i64("+7"), Some(7));
    assert_eq!(parse_i64("-7"), Some(-7));
    assert_eq!(parse_i64("9223372036854775807"), Some(i64::MAX));
    assert_eq!(parse_i64("-9223372036854775808"), Some(i64::MIN));
    assert_eq!(parse_i64("9223372036854775808"), None);
    assert_eq!(parse_i64("-9223372036854775809"), None);
    assert_eq!(parse_i64("99999999999999999999999999999999999999999"), None);
    assert_eq!(parse_i64(""), None);
    assert_eq!(parse_i64("-"), None);
    assert_eq!(parse_i64("1f"), None);
    assert_eq!(parse_i64(" 1"), None);
    assert_eq!(parse_i64("1_0"), None);
}

#[test]
fn evaluation_collects_identifiers_as_zero() {
    let e = binop(
        binop(ident("foo"), TokenKind::Plus, num("8")),
        TokenKind::Minus,
        ident("bar"),
    );
    let mut names = vec!["first".to_owned()];
    assert_eq!(eval_expr_get_symbol_64(&e, &mut names), Ok(8));
    assert_eq!(
        names,
        vec!["first".to_owned(), "foo".to_owned(), "bar".to_owned()]
    );
}

#[test]
fn evaluation_arithmetic() {
    let mut names = Vec::new();
    let e = binop(num("7"), TokenKind::Div, Expr::Neg(Box::new(num("2"))));
    assert_eq!(eval_expr_get_symbol_64(&e, &mut names), Ok(-3));
    let e = binop(Expr::Neg(Box::new(num("7"))), TokenKind::Div, num("2"));
    assert_eq!(eval_expr_get_symbol_64(&e, &mut names), Ok(-3));
    let e = binop(num("6"), TokenKind::Mul, num("7"));
    assert_eq!(eval_expr_get_symbol_64(&e, &mut names), Ok(42));
    let e = Expr::Immediate(Box::new(binop(num("3"), TokenKind::Minus, num("5"))));
    assert_eq!(eval_expr_get_symbol_64(&e, &mut names), Ok(-2));
    assert!(names.is_empty());
}

#[test]
fn evaluation_errors() {
    let mut names = Vec::new();
    let arithmetic = Err(AsmError {
        kind: ErrorKind::Arithmetic,
        loc: None,
    });
    let e = binop(num("1"), TokenKind::Div, num("0"));
    assert_eq!(eval_expr_get_symbol_64(&e, &mut names), arithmetic);
    let e = binop(num("9223372036854775807"), TokenKind::Plus, num("1"));
    assert_eq!(eval_expr_get_symbol_64(&e, &mut names), arithmetic);
    let e = binop(num("-9223372036854775808"), TokenKind::Div, num("-1"));
    assert_eq!(eval_expr_get_symbol_64(&e, &mut names), arithmetic);
    let e = Expr::Neg(Box::new(num("-9223372036854775808")));
    assert_eq!(eval_expr_get_symbol_64(&e, &mut names), arithmetic);
    let e = binop(num("4294967296"), TokenKind::Mul, num("4294967296"));
    assert_eq!(eval_expr_get_symbol_64(&e, &mut names), arithmetic);

    assert_eq!(
        eval_expr_get_symbol_64(&num("1f"), &mut names),
        Err(AsmError {
            kind: ErrorKind::InvalidNumber,
            loc: None
        })
    );
    let e = binop(num("1"), TokenKind::Comma, num("2"));
    assert_eq!(
        eval_expr_get_symbol_64(&e, &mut names),
        Err(AsmError {
            kind: ErrorKind::InvalidOperand,
            loc: None
        })
    );
    let e = Expr::Register(reg("RAX", DataSizeSuffix::Quad, 0));
    assert_eq!(
        eval_expr_get_symbol_64(&e, &mut names),
        Err(AsmError {
            kind: ErrorKind::InvalidOperand,
            loc: None
        })
    );
}

#[test]
fn peek_next_moves_the_cursor_first() {
    let tokens = tokenize("a , b").unwrap();
    let mut index = 0;
    assert_eq!(
        peek_next(&mut index, &tokens)
            .unwrap()
            .kind,
        TokenKind::Comma
    );
    assert_eq!(index, 1);
    index = 2;
    assert_eq!(
        peek_next(&mut index, &tokens),
        Err(AsmError {
            kind: ErrorKind::MissingToken,
            loc: None
        })
    );
    assert_eq!(index, 3);
}

#[test]
fn evaluation_to_32_bits() {
    assert_eq!(eval_expr(&num("5")), Ok(5));
    assert_eq!(eval_expr(&Expr::Neg(Box::new(num("5")))), Ok(-5));
    assert_eq!(eval_expr(&ident("foo")), Ok(0));
    // 2^32 + 7
    assert_eq!(eval_expr(&num("4294967303")), Ok(7));
    // 2^31
    assert_eq!(eval_expr(&num("2147483648")), Ok(i32::MIN));
    assert_eq!(
        eval_expr(&num("x")),
        Err(AsmError {
            kind: ErrorKind::InvalidNumber,
            loc: None
        })
    );
}

#[test]
fn expect_compares_the_text_too() {
    let tokens = tokenize("foo 12").unwrap();
    let mut index = 0;
    assert_eq!(
        expect(TokenKind::Ident("foo".to_owned()), &mut index, &tokens),
        Ok(())
    );
    assert_eq!(index, 1);
    assert_eq!(
        expect(TokenKind::Number("13".to_owned()), &mut index, &tokens),
        Err(AsmError {
            kind: ErrorKind::UnexpectedToken,
            loc: Some(Location { line: 0, column: 4 }),
        })
    );
    assert_eq!(
        expect(TokenKind::Number("12".to_owned()), &mut index, &tokens),
        Ok(())
    );
    assert_eq!(index, 2);
}

#[test]
fn failed_parse_leaves_the_cursor() {
    // the error comes after several tokens were read
    let tokens = tokenize("x 8(%rbx, %rdi, 4 , y").unwrap();
    let mut index = 1;
    assert!(parse_operand(&mut index, &tokens).is_err());
    assert_eq!(index, 1);
    assert!(parse_indirect(&mut index, &tokens).is_err());
    assert_eq!(index, 1);

    let tokens = tokenize("- - ,").unwrap();
    let mut index = 0;
    assert!(parse_factor(&mut index, &tokens).is_err());
    assert_eq!(index, 0);
    assert!(parse_expr(&mut index, &tokens).is_err());
    assert_eq!(index, 0);

    let tokens = tokenize("$1 + , %rax").unwrap();
    let mut index = 0;
    assert!(parse_operand(&mut index, &tokens).is_err());
    assert_eq!(index, 0);

    let tokens = tokenize("%rax, %nothing").unwrap();
    let mut index = 0;
    assert!(parse_two_operand(&mut index, &tokens).is_err());
    assert_eq!(index, 0);
    index = 3;
    assert!(parse_register(&mut index, &tokens).is_err());
    assert_eq!(index, 3);
    assert!(expect(TokenKind::Comma, &mut index, &tokens).is_err());
    assert_eq!(index, 3);
}
