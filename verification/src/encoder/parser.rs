//! The operand parser: from tokens to expressions.
//!
//! An operand is an immediate `$expr`, a register `%name`, an indirect
//! jump target `*name`, a memory reference `disp(%base,%index,scale)`
//! with every part optional, or a bare expression. Expressions are
//! numbers and identifiers under unary minus and the four binary
//! operators, which all bind alike and group to the left.
//!
//! Every parsing function starts at the token under the cursor and
//! leaves the cursor behind the last token it used. Where it fails, it
//! leaves the cursor where it was.

use crate::encoder::arch::x86_64::registers::{
    get_reg_info_by, get_xmm_by, lookup_register, spec_general_registers, spec_xmm_registers,
};
use crate::encoder::arch::x86_64::{Expr, ExprView};
use crate::error::{AsmError, ErrorKind};
use crate::lexer::{token_views, Token, TokenKind, TokenKindView, TokenView};
use crate::text::{to_uppercase, uppercase_of};
use vstd::prelude::*;

verus! {

/// What a parsing function returns: the expression and the next cursor.
pub type Parsed = Result<(ExprView, int), AsmError>;

/// The error for a token sequence that ends too early.
pub open spec fn missing_token() -> AsmError {
    AsmError { kind: ErrorKind::MissingToken, loc: None }
}

/// The error for the token at `i`, which the grammar does not allow there.
pub open spec fn unexpected_token(tokens: Seq<TokenView>, i: int) -> AsmError {
    AsmError { kind: ErrorKind::UnexpectedToken, loc: Some(tokens[i].loc) }
}

/// Whether a token kind is one of the four binary operators.
pub open spec fn is_operator(k: TokenKindView) -> bool {
    k is Plus || k is Minus || k is Mul || k is Div
}

/// The token at `n`, or the error for its absence.
pub open spec fn spec_peek_n(tokens: Seq<TokenView>, n: int) -> Result<TokenView, AsmError> {
    if 0 <= n < tokens.len() {
        Ok(tokens[n])
    } else {
        Err(missing_token())
    }
}

/// Checks that the token at `i` has the kind `kind` and steps over it.
pub open spec fn spec_expect(tokens: Seq<TokenView>, kind: TokenKindView, i: int) -> Result<
    int,
    AsmError,
> {
    if !(0 <= i < tokens.len()) {
        Err(missing_token())
    } else if tokens[i].kind == kind {
        Ok(i + 1)
    } else {
        Err(unexpected_token(tokens, i))
    }
}

/// A register written as a sigil at `i` and a name at `i + 1`. The name
/// is upper-cased and looked up among the XMM registers first, then
/// among the general ones.
pub open spec fn spec_parse_register(tokens: Seq<TokenView>, i: int) -> Parsed {
    if !(0 <= i < tokens.len()) {
        Err(missing_token())
    } else if i + 1 >= tokens.len() {
        Err(unexpected_token(tokens, i))
    } else {
        match tokens[i + 1].kind {
            TokenKindView::Ident(name) => {
                let upper = uppercase_of(name);
                match lookup_register(spec_xmm_registers(), upper) {
                    Some(r) => Ok((ExprView::Xmm(r), i + 2)),
                    None => match lookup_register(spec_general_registers(), upper) {
                        Some(r) => Ok((ExprView::Register(r), i + 2)),
                        None => Err(
                            AsmError {
                                kind: ErrorKind::UnknownRegister,
                                loc: Some(tokens[i + 1].loc),
                            },
                        ),
                    },
                }
            },
            _ => Err(unexpected_token(tokens, i)),
        }
    }
}

/// A number, an identifier, or a factor under unary minus.
pub open spec fn spec_parse_factor(tokens: Seq<TokenView>, i: int) -> Parsed
    decreases tokens.len() - i,
{
    if !(0 <= i < tokens.len()) {
        Err(missing_token())
    } else {
        match tokens[i].kind {
            TokenKindView::Number(num) => Ok((ExprView::Number(num), i + 1)),
            TokenKindView::Ident(ident) => Ok((ExprView::Ident(ident), i + 1)),
            TokenKindView::Minus => match spec_parse_factor(tokens, i + 1) {
                Ok((e, j)) => Ok((ExprView::Neg(Box::new(e)), j)),
                Err(e) => Err(e),
            },
            _ => Err(unexpected_token(tokens, i)),
        }
    }
}

/// The expression that starts with `left` and goes on at `i`: as long
/// as an operator follows, it takes the next factor as its right side.
pub open spec fn spec_parse_binops(tokens: Seq<TokenView>, left: ExprView, i: int) -> Parsed
    decreases tokens.len() - i,
{
    if 0 <= i < tokens.len() && is_operator(tokens[i].kind) {
        match spec_parse_factor(tokens, i + 1) {
            Ok((right, j)) => if i < j <= tokens.len() {
                spec_parse_binops(
                    tokens,
                    ExprView::Binop {
                        left_hs: Box::new(left),
                        right_hs: Box::new(right),
                        op: tokens[i].kind,
                    },
                    j,
                )
            } else {
                Ok((left, i))
            },
            Err(e) => Err(e),
        }
    } else {
        Ok((left, i))
    }
}

/// An arithmetic expression: factors joined by binary operators,
/// grouped to the left.
pub open spec fn spec_parse_expr(tokens: Seq<TokenView>, i: int) -> Parsed {
    match spec_parse_factor(tokens, i) {
        Ok((left, j)) => spec_parse_binops(tokens, left, j),
        Err(e) => Err(e),
    }
}

/// A register inside a memory reference: `%` at `i`, then the name.
pub open spec fn spec_parse_percent_register(tokens: Seq<TokenView>, i: int) -> Parsed {
    if !(0 <= i < tokens.len()) {
        Err(missing_token())
    } else if tokens[i].kind is Percent {
        spec_parse_register(tokens, i)
    } else {
        Err(unexpected_token(tokens, i))
    }
}

/// The part of a memory reference behind the base register, from `i`:
/// either `)`, or `,%index)`, or `,%index,scale)`. The scale is 1 where
/// none is written.
pub open spec fn spec_parse_index_scale(
    tokens: Seq<TokenView>,
    disp: ExprView,
    base: Option<Box<ExprView>>,
    i: int,
) -> Parsed {
    if 0 <= i < tokens.len() && tokens[i].kind is Comma {
        match spec_parse_percent_register(tokens, i + 1) {
            Err(e) => Err(e),
            Ok((index, j)) => {
                let scale = if 0 <= j < tokens.len() && tokens[j].kind is Comma {
                    spec_parse_expr(tokens, j + 1)
                } else {
                    Ok((ExprView::Number("1"@), j))
                };
                match scale {
                    Err(e) => Err(e),
                    Ok((scale, k)) => match spec_expect(tokens, TokenKindView::RParen, k) {
                        Err(e) => Err(e),
                        Ok(end) => Ok(
                            (
                                ExprView::Indirection {
                                    disp: Some(Box::new(disp)),
                                    base,
                                    index: Some(Box::new(index)),
                                    scale: Some(Box::new(scale)),
                                    has_base: base is Some,
                                    has_index_scale: true,
                                },
                                end,
                            ),
                        ),
                    },
                }
            },
        }
    } else {
        match spec_expect(tokens, TokenKindView::RParen, i) {
            Err(e) => Err(e),
            Ok(end) => Ok(
                (
                    ExprView::Indirection {
                        disp: Some(Box::new(disp)),
                        base,
                        index: None,
                        scale: None,
                        has_base: base is Some,
                        has_index_scale: false,
                    },
                    end,
                ),
            ),
        }
    }
}

/// A memory reference or a bare expression. The displacement is 0 where
/// the operand opens with `(`. Where no `(` follows the displacement,
/// the operand is the displacement expression itself.
pub open spec fn spec_parse_indirect(tokens: Seq<TokenView>, i: int) -> Parsed {
    if !(0 <= i < tokens.len()) {
        Err(missing_token())
    } else {
        let disp = if tokens[i].kind is LParen {
            Ok((ExprView::Number("0"@), i))
        } else {
            spec_parse_expr(tokens, i)
        };
        match disp {
            Err(e) => Err(e),
            Ok((disp, j)) => if !(0 <= j < tokens.len() && tokens[j].kind is LParen) {
                Ok((disp, j))
            } else if j + 1 < tokens.len() && (tokens[j + 1].kind is Comma || tokens[j + 1].kind
                is RParen) {
                spec_parse_index_scale(tokens, disp, None, j + 1)
            } else {
                match spec_parse_percent_register(tokens, j + 1) {
                    Err(e) => Err(e),
                    Ok((base, k)) => spec_parse_index_scale(
                        tokens,
                        disp,
                        Some(Box::new(base)),
                        k,
                    ),
                }
            },
        }
    }
}

/// One operand.
pub open spec fn spec_parse_operand(tokens: Seq<TokenView>, i: int) -> Parsed {
    if !(0 <= i < tokens.len()) {
        Err(missing_token())
    } else {
        match tokens[i].kind {
            TokenKindView::Dolor => match spec_parse_expr(tokens, i + 1) {
                Ok((e, j)) => Ok((ExprView::Immediate(Box::new(e)), j)),
                Err(e) => Err(e),
            },
            TokenKindView::Percent => spec_parse_register(tokens, i),
            TokenKindView::Mul => match spec_parse_register(tokens, i) {
                Ok((e, j)) => Ok((ExprView::Star(Box::new(e)), j)),
                Err(e) => Err(e),
            },
            _ => spec_parse_indirect(tokens, i),
        }
    }
}

/// Two operands with a comma between them: the source, then the destination.
pub open spec fn spec_parse_two_operand(tokens: Seq<TokenView>, i: int) -> Result<
    (ExprView, ExprView, int),
    AsmError,
> {
    match spec_parse_operand(tokens, i) {
        Err(e) => Err(e),
        Ok((src, j)) => match spec_expect(tokens, TokenKindView::Comma, j) {
            Err(e) => Err(e),
            Ok(k) => match spec_parse_operand(tokens, k) {
                Err(e) => Err(e),
                Ok((dst, end)) => Ok((src, dst, end)),
            },
        },
    }
}

/// Whether an exec result is the one the grammar gives: on success the
/// expression, with the cursor `index` behind it; on failure the error,
/// with the cursor where it was, at `start`.
pub open spec fn parsed_as(
    r: Result<Expr, AsmError>,
    index: usize,
    start: usize,
    expected: Parsed,
) -> bool {
    match expected {
        Ok((e, j)) => r is Ok && r->Ok_0@ == e && index == j,
        Err(err) => r == Err::<Expr, AsmError>(err) && index == start,
    }
}

/// A factor uses at least one token and stays within the tokens.
pub proof fn lemma_factor_advances(tokens: Seq<TokenView>, i: int)
    ensures
        spec_parse_factor(tokens, i) matches Ok((_, j)) ==> i < j <= tokens.len(),
    decreases tokens.len() - i,
{
    if 0 <= i < tokens.len() && tokens[i].kind is Minus {
        lemma_factor_advances(tokens, i + 1);
    }
}

/// An expression uses at least one token and stays within the tokens.
pub proof fn lemma_binops_advance(tokens: Seq<TokenView>, left: ExprView, i: int)
    requires
        0 <= i <= tokens.len(),
    ensures
        spec_parse_binops(tokens, left, i) matches Ok((_, j)) ==> i <= j <= tokens.len(),
    decreases tokens.len() - i,
{
    if 0 <= i < tokens.len() && is_operator(tokens[i].kind) {
        lemma_factor_advances(tokens, i + 1);
        match spec_parse_factor(tokens, i + 1) {
            Ok((right, j)) => {
                lemma_binops_advance(
                    tokens,
                    ExprView::Binop {
                        left_hs: Box::new(left),
                        right_hs: Box::new(right),
                        op: tokens[i].kind,
                    },
                    j,
                );
            },
            Err(_) => {},
        }
    }
}

/// An expression uses at least one token and stays within the tokens.
pub proof fn lemma_expr_advances(tokens: Seq<TokenView>, i: int)
    ensures
        spec_parse_expr(tokens, i) matches Ok((_, j)) ==> i < j <= tokens.len(),
{
    lemma_factor_advances(tokens, i);
    if let Ok((left, j)) = spec_parse_factor(tokens, i) {
        lemma_binops_advance(tokens, left, j);
    }
}

/// The rest of a memory reference uses at least one token and stays
/// within the tokens.
pub proof fn lemma_index_scale_advances(
    tokens: Seq<TokenView>,
    disp: ExprView,
    base: Option<Box<ExprView>>,
    i: int,
)
    ensures
        spec_parse_index_scale(tokens, disp, base, i) matches Ok((_, j)) ==> i < j
            <= tokens.len(),
{
    if 0 <= i < tokens.len() && tokens[i].kind is Comma {
        if let Ok((_, j)) = spec_parse_percent_register(tokens, i + 1) {
            if 0 <= j < tokens.len() && tokens[j].kind is Comma {
                lemma_expr_advances(tokens, j + 1);
            }
        }
    }
}

/// An operand uses at least one token and stays within the tokens.
pub proof fn lemma_operand_advances(tokens: Seq<TokenView>, i: int)
    ensures
        spec_parse_operand(tokens, i) matches Ok((_, j)) ==> i < j <= tokens.len(),
{
    if 0 <= i < tokens.len() {
        lemma_expr_advances(tokens, i + 1);
        lemma_expr_advances(tokens, i);
        if tokens[i].kind is LParen {
            if i + 1 < tokens.len() && (tokens[i + 1].kind is Comma || tokens[i + 1].kind
                is RParen) {
                lemma_index_scale_advances(tokens, ExprView::Number("0"@), None, i + 1);
            } else if let Ok((base, k)) = spec_parse_percent_register(tokens, i + 1) {
                lemma_index_scale_advances(
                    tokens,
                    ExprView::Number("0"@),
                    Some(Box::new(base)),
                    k,
                );
            }
        } else if let Ok((disp, j)) = spec_parse_expr(tokens, i) {
            if 0 <= j < tokens.len() && tokens[j].kind is LParen {
                if j + 1 < tokens.len() && (tokens[j + 1].kind is Comma || tokens[j + 1].kind
                    is RParen) {
                    lemma_index_scale_advances(tokens, disp, None, j + 1);
                } else if let Ok((base, k)) = spec_parse_percent_register(tokens, j + 1) {
                    lemma_index_scale_advances(tokens, disp, Some(Box::new(base)), k);
                }
            }
        }
    }
}

/// Two operands use at least three tokens and stay within the tokens.
pub proof fn lemma_two_operand_advances(tokens: Seq<TokenView>, i: int)
    ensures
        spec_parse_two_operand(tokens, i) matches Ok((_, _, j)) ==> i < j <= tokens.len(),
{
    lemma_operand_advances(tokens, i);
    if let Ok((_, j)) = spec_parse_operand(tokens, i) {
        if let Ok(k) = spec_expect(tokens, TokenKindView::Comma, j) {
            lemma_operand_advances(tokens, k);
        }
    }
}

/// The token at `n`.
pub fn peek_n(n: usize, tokens: &[Token]) -> (r: Result<&Token, AsmError>)
    ensures
        match r {
            Ok(t) => n < tokens@.len() && tokens@.len() <= usize::MAX && *t == tokens@[n as int],
            Err(e) => n >= tokens@.len() && e == missing_token(),
        },
{
    if n < tokens.len() {
        Ok(&tokens[n])
    } else {
        Err(AsmError::new(ErrorKind::MissingToken))
    }
}

/// Moves the cursor one token on and returns the token there.
pub fn peek_next<'a>(index: &mut usize, tokens: &'a [Token]) -> (r: Result<&'a Token, AsmError>)
    requires
        *old(index) < usize::MAX,
    ensures
        *final(index) == *old(index) + 1,
        match r {
            Ok(t) => *final(index) < tokens@.len() && *t == tokens@[*final(index) as int],
            Err(e) => *final(index) >= tokens@.len() && e == missing_token(),
        },
{
    *index = *index + 1;
    peek_n(*index, tokens)
}

/// Whether the token at `n` exists and is of the kind `kind`.
fn at_kind(n: usize, tokens: &[Token], kind: &TokenKind) -> (r: bool)
    ensures
        r == (n < tokens@.len() && token_views(tokens@)[n as int].kind == kind@),
        r ==> tokens@.len() <= usize::MAX,
{
    if n < tokens.len() {
        same_kind(&tokens[n].kind, kind)
    } else {
        false
    }
}

/// Whether two token kinds are the same, text included.
fn same_kind(a: &TokenKind, kind: &TokenKind) -> (r: bool)
    ensures
        r == (a@ == kind@),
{
    match (a, kind) {
        (TokenKind::Ident(x), TokenKind::Ident(y)) => *x == *y,
        (TokenKind::Token(x), TokenKind::Token(y)) => *x == *y,
        (TokenKind::Number(x), TokenKind::Number(y)) => *x == *y,
        (TokenKind::Plus, TokenKind::Plus) => true,
        (TokenKind::Mul, TokenKind::Mul) => true,
        (TokenKind::Minus, TokenKind::Minus) => true,
        (TokenKind::Div, TokenKind::Div) => true,
        (TokenKind::Dolor, TokenKind::Dolor) => true,
        (TokenKind::Percent, TokenKind::Percent) => true,
        (TokenKind::Colon, TokenKind::Colon) => true,
        (TokenKind::Comma, TokenKind::Comma) => true,
        (TokenKind::LParen, TokenKind::LParen) => true,
        (TokenKind::RParen, TokenKind::RParen) => true,
        _ => false,
    }
}

/// Is the token under the cursor of the expected kind? Steps over it if so.
///
/// # Parameters:
/// - `token_kind`: expected kind, with its text if it has one
/// - `index`: current index for tokens. This index is incremented.
/// - `tokens`: list of tokens
pub fn expect(token_kind: TokenKind, index: &mut usize, tokens: &[Token]) -> (r: Result<
    (),
    AsmError,
>)
    ensures
        match spec_expect(token_views(tokens@), token_kind@, *old(index) as int) {
            Ok(j) => r is Ok && *final(index) == j,
            Err(e) => r == Err::<(), AsmError>(e) && *final(index) == *old(index),
        },
{
    let token = peek_n(*index, tokens)?;
    if same_kind(&token.kind, &token_kind) {
        *index = *index + 1;
        Ok(())
    } else {
        Err(AsmError::at(ErrorKind::UnexpectedToken, token.loc))
    }
}

/// Parses a register: the sigil under the cursor, then the name, which
/// is looked up in upper case. Returns an XMM or a general register.
pub fn parse_register(index: &mut usize, tokens: &[Token]) -> (r: Result<Expr, AsmError>)
    ensures
        parsed_as(
            r,
            *final(index),
            *old(index),
            spec_parse_register(token_views(tokens@), *old(index) as int),
        ),
{
    let current_loc = peek_n(*index, tokens)?.loc;
    if *index + 1 >= tokens.len() {
        return Err(AsmError::at(ErrorKind::UnexpectedToken, current_loc));
    }
    let next_token = &tokens[*index + 1];
    match &next_token.kind {
        TokenKind::Ident(reg_name) => {
            let upper = to_uppercase(reg_name.as_str());
            match get_xmm_by(upper.as_str()) {
                Ok(xmm) => {
                    *index = *index + 2;
                    Ok(Expr::Xmm(xmm))
                },
                Err(_) => match get_reg_info_by(upper.as_str()) {
                    Ok(reg) => {
                        *index = *index + 2;
                        Ok(Expr::Register(reg))
                    },
                    Err(e) => Err(e.with_location(next_token.loc)),
                },
            }
        },
        _ => Err(AsmError::at(ErrorKind::UnexpectedToken, current_loc)),
    }
}

/// Parse Number | Identifier | Unary minus
pub fn parse_factor(index: &mut usize, tokens: &[Token]) -> (r: Result<Expr, AsmError>)
    ensures
        parsed_as(
            r,
            *final(index),
            *old(index),
            spec_parse_factor(token_views(tokens@), *old(index) as int),
        ),
    decreases tokens@.len() - *old(index),
{
    let len = tokens.len();
    let current_token = peek_n(*index, tokens)?;
    match &current_token.kind {
        TokenKind::Number(num) => {
            *index = *index + 1;
            Ok(Expr::Number(num.clone()))
        },
        TokenKind::Ident(ident) => {
            *index = *index + 1;
            Ok(Expr::Ident(ident.clone()))
        },
        TokenKind::Minus => {
            let mut next = *index + 1;
            let inner = parse_factor(&mut next, tokens)?;
            *index = next;
            Ok(Expr::Neg(Box::new(inner)))
        },
        _ => Err(AsmError::at(ErrorKind::UnexpectedToken, current_token.loc)),
    }
}

/// A copy of a token kind.
fn copy_kind(kind: &TokenKind) -> (r: TokenKind)
    ensures
        r@ == kind@,
{
    match kind {
        TokenKind::Ident(s) => TokenKind::Ident(s.clone()),
        TokenKind::Token(s) => TokenKind::Token(s.clone()),
        TokenKind::Number(s) => TokenKind::Number(s.clone()),
        TokenKind::Plus => TokenKind::Plus,
        TokenKind::Mul => TokenKind::Mul,
        TokenKind::Minus => TokenKind::Minus,
        TokenKind::Div => TokenKind::Div,
        TokenKind::Dolor => TokenKind::Dolor,
        TokenKind::Percent => TokenKind::Percent,
        TokenKind::Colon => TokenKind::Colon,
        TokenKind::Comma => TokenKind::Comma,
        TokenKind::LParen => TokenKind::LParen,
        TokenKind::RParen => TokenKind::RParen,
    }
}

/// Whether there is a binary operator at `n`.
fn at_operator(n: usize, tokens: &[Token]) -> (r: bool)
    ensures
        r == (n < tokens@.len() && is_operator(token_views(tokens@)[n as int].kind)),
        r ==> tokens@.len() <= usize::MAX,
{
    if n < tokens.len() {
        match &tokens[n].kind {
            TokenKind::Div | TokenKind::Minus | TokenKind::Mul | TokenKind::Plus => true,
            _ => false,
        }
    } else {
        false
    }
}

/// Parse binary expression
pub fn parse_expr(index: &mut usize, tokens: &[Token]) -> (r: Result<Expr, AsmError>)
    ensures
        parsed_as(
            r,
            *final(index),
            *old(index),
            spec_parse_expr(token_views(tokens@), *old(index) as int),
        ),
{
    let ghost ts = token_views(tokens@);
    let ghost start = *index as int;
    let mut next = *index;
    let mut left = parse_factor(&mut next, tokens)?;
    proof {
        lemma_factor_advances(ts, start);
    }
    while at_operator(next, tokens)
        invariant
            ts == token_views(tokens@),
            start == *old(index) as int,
            *index == *old(index),
            next <= tokens@.len(),
            spec_parse_expr(ts, start) == spec_parse_binops(ts, left@, next as int),
        decreases tokens@.len() - next,
    {
        let ghost at = next as int;
        let op = copy_kind(&tokens[next].kind);
        next = next + 1;
        proof {
            lemma_factor_advances(ts, at + 1);
        }
        let right = parse_factor(&mut next, tokens)?;
        left = Expr::Binop { left_hs: Box::new(left), right_hs: Box::new(right), op };
    }
    *index = next;
    Ok(left)
}

/// A register inside a memory reference: `%`, then the name.
fn parse_percent_register(index: &mut usize, tokens: &[Token]) -> (r: Result<Expr, AsmError>)
    ensures
        parsed_as(
            r,
            *final(index),
            *old(index),
            spec_parse_percent_register(token_views(tokens@), *old(index) as int),
        ),
{
    let token = peek_n(*index, tokens)?;
    match &token.kind {
        TokenKind::Percent => parse_register(index, tokens),
        _ => Err(AsmError::at(ErrorKind::UnexpectedToken, token.loc)),
    }
}

/// The value of a boxed sub-expression that is present.
proof fn lemma_some_view(e: Option<Box<Expr>>, v: ExprView)
    requires
        e is Some,
        (*e->Some_0)@ == v,
    ensures
        crate::encoder::arch::x86_64::opt_expr_view(e) == Some(Box::new(v)),
{
}

/// The rest of a memory reference behind its base register.
fn parse_index_scale(
    disp: Expr,
    base: Option<Box<Expr>>,
    index: &mut usize,
    tokens: &[Token],
) -> (r: Result<Expr, AsmError>)
    ensures
        parsed_as(
            r,
            *final(index),
            *old(index),
            spec_parse_index_scale(
                token_views(tokens@),
                disp@,
                crate::encoder::arch::x86_64::opt_expr_view(base),
                *old(index) as int,
            ),
        ),
{
    let ghost ts = token_views(tokens@);
    let has_base = base.is_some();
    let mut next = *index;
    if at_kind(next, tokens, &TokenKind::Comma) {
        next = next + 1;
        let index_reg = parse_percent_register(&mut next, tokens)?;
        let scale = if at_kind(next, tokens, &TokenKind::Comma) {
            next = next + 1;
            parse_expr(&mut next, tokens)?
        } else {
            Expr::Number("1".to_owned())
        };
        expect(TokenKind::RParen, &mut next, tokens)?;
        *index = next;
        let ghost dv = disp@;
        let ghost iv = index_reg@;
        let ghost sv = scale@;
        let disp = Some(Box::new(disp));
        let index_reg = Some(Box::new(index_reg));
        let scale = Some(Box::new(scale));
        proof {
            lemma_some_view(disp, dv);
            lemma_some_view(index_reg, iv);
            lemma_some_view(scale, sv);
        }
        Ok(
            Expr::Indirection {
                disp,
                base,
                index: index_reg,
                scale,
                has_base,
                has_index_scale: true,
            },
        )
    } else {
        expect(TokenKind::RParen, index, tokens)?;
        let ghost dv = disp@;
        let disp = Some(Box::new(disp));
        let none: Option<Box<Expr>> = None;
        proof {
            lemma_some_view(disp, dv);
            assert(crate::encoder::arch::x86_64::opt_expr_view(none) is None);
        }
        Ok(
            Expr::Indirection {
                disp,
                base,
                index: None,
                scale: None,
                has_base,
                has_index_scale: false,
            },
        )
    }
}

/// Parses a memory reference, or the bare expression that stands where
/// no parenthesis follows.
///
/// - indirect expression
///   displacement(base, index, scale)
/// e.g.         8(%rbx, %rdi, 8)
pub fn parse_indirect(index: &mut usize, tokens: &[Token]) -> (r: Result<Expr, AsmError>)
    ensures
        parsed_as(
            r,
            *final(index),
            *old(index),
            spec_parse_indirect(token_views(tokens@), *old(index) as int),
        ),
{
    let ghost ts = token_views(tokens@);
    let ghost start = *index as int;
    let mut next = *index;
    let first = peek_n(next, tokens)?;
    let expr = match &first.kind {
        // Starting with '(' means displacement is omitted.
        TokenKind::LParen => Expr::Number("0".to_owned()),
        _ => {
            proof {
                lemma_factor_advances(ts, start);
                if spec_parse_factor(ts, start) is Ok {
                    lemma_binops_advance(
                        ts,
                        spec_parse_factor(ts, start)->Ok_0.0,
                        spec_parse_factor(ts, start)->Ok_0.1,
                    );
                }
            }
            parse_expr(&mut next, tokens)?
        },
    };
    if !at_kind(next, tokens, &TokenKind::LParen) {
        *index = next;
        return Ok(expr);
    }
    next = next + 1;
    let base = if at_kind(next, tokens, &TokenKind::Comma) || at_kind(
        next,
        tokens,
        &TokenKind::RParen,
    ) {
        None
    } else {
        Some(Box::new(parse_percent_register(&mut next, tokens)?))
    };
    let operand = parse_index_scale(expr, base, &mut next, tokens)?;
    *index = next;
    Ok(operand)
}

/// Parses one operand.
pub fn parse_operand(index: &mut usize, tokens: &[Token]) -> (r: Result<Expr, AsmError>)
    ensures
        parsed_as(
            r,
            *final(index),
            *old(index),
            spec_parse_operand(token_views(tokens@), *old(index) as int),
        ),
{
    let token = peek_n(*index, tokens)?;
    match &token.kind {
        // Dolor is immediate prefix. e.g. $1
        TokenKind::Dolor => {
            let mut next = *index + 1;
            let inner = parse_expr(&mut next, tokens)?;
            *index = next;
            Ok(Expr::Immediate(Box::new(inner)))
        },
        TokenKind::Percent => parse_register(index, tokens),
        TokenKind::Mul => {
            let inner = parse_register(index, tokens)?;
            Ok(Expr::Star(Box::new(inner)))
        },
        _ => parse_indirect(index, tokens),
    }
}

/// Parse e.g. (movq `%rsi, %rdi` )
pub fn parse_two_operand(index: &mut usize, tokens: &[Token]) -> (r: Result<(Expr, Expr), AsmError>)
    ensures
        match spec_parse_two_operand(token_views(tokens@), *old(index) as int) {
            Ok((src, dst, end)) => r is Ok && r->Ok_0.0@ == src && r->Ok_0.1@ == dst
                && *final(index) == end,
            Err(e) => r == Err::<(Expr, Expr), AsmError>(e) && *final(index) == *old(index),
        },
{
    let mut next = *index;
    let src = parse_operand(&mut next, tokens)?;
    expect(TokenKind::Comma, &mut next, tokens)?;
    let dst = parse_operand(&mut next, tokens)?;
    *index = next;
    Ok((src, dst))
}

} // verus!
