//! Evaluation of operand expressions to integers and the symbols they
//! leave open.

use crate::encoder::arch::x86_64::{Expr, ExprView};
use crate::error::{AsmError, ErrorKind};
use crate::lexer::{TokenKind, TokenKindView};
use crate::text::{chars_of, string_views};
use vstd::prelude::*;

verus! {

/// The value of the first `n` characters read as decimal digits, if all
/// of them are digits.
pub open spec fn spec_digits(s: Seq<char>, n: int) -> Option<int>
    decreases n,
{
    if n <= 0 {
        Some(0)
    } else {
        match spec_digits(s, n - 1) {
            Some(v) => if '0' <= s[n - 1] <= '9' {
                Some(v * 10 + (s[n - 1] as int - '0' as int))
            } else {
                None
            },
            None => None,
        }
    }
}

/// The signed 64-bit integer that a string denotes: an optional `+` or
/// `-`, then one or more decimal digits and nothing else, with a value
/// in range.
pub open spec fn spec_parse_i64(s: Seq<char>) -> Option<i64> {
    let signed = s.len() > 0 && (s[0] == '-' || s[0] == '+');
    let body = if signed {
        s.subrange(1, s.len() as int)
    } else {
        s
    };
    if body.len() == 0 {
        None
    } else {
        match spec_digits(body, body.len() as int) {
            None => None,
            Some(v) => {
                let x = if s[0] == '-' {
                    -v
                } else {
                    v
                };
                if i64::MIN <= x <= i64::MAX {
                    Some(x as i64)
                } else {
                    None
                }
            },
        }
    }
}

/// More digits never make the value smaller, and a prefix that is no
/// number makes the whole no number.
proof fn lemma_digits_grow(s: Seq<char>, m: int, n: int)
    requires
        0 <= m <= n,
    ensures
        spec_digits(s, m) is None ==> spec_digits(s, n) is None,
        spec_digits(s, n) matches Some(v) ==> spec_digits(s, m) is Some && 0 <= spec_digits(
            s,
            m,
        )->Some_0 <= v,
    decreases n - m,
{
    lemma_digits_nonnegative(s, m);
    if m < n {
        lemma_digits_grow(s, m, n - 1);
    }
}

/// A digit string has no negative value.
proof fn lemma_digits_nonnegative(s: Seq<char>, n: int)
    ensures
        spec_digits(s, n) matches Some(v) ==> v >= 0,
    decreases n,
{
    if n > 0 {
        lemma_digits_nonnegative(s, n - 1);
    }
}

/// Reads a decimal 64-bit integer.
pub fn parse_i64(s: &str) -> (r: Option<i64>)
    ensures
        r == spec_parse_i64(s@),
{
    let chars = chars_of(s);
    let n = chars.len();
    let negative = n > 0 && chars[0] == '-';
    let start: usize = if n > 0 && (chars[0] == '-' || chars[0] == '+') {
        1
    } else {
        0
    };
    if start == n {
        return None;
    }
    let ghost body = if start == 1 {
        s@.subrange(1, s@.len() as int)
    } else {
        s@
    };
    let mut acc: u128 = 0;
    let mut i: usize = start;
    while i < n
        invariant
            start <= i <= n,
            n == chars@.len(),
            chars@ == s@,
            body.len() == n - start,
            body == (if start == 1 {
                s@.subrange(1, s@.len() as int)
            } else {
                s@
            }),
            (start == 1) == (n > 0 && (chars@[0] == '-' || chars@[0] == '+')),
            start == 0 || start == 1,
            forall|k: int| 0 <= k < body.len() ==> body[k] == chars@[k + start],
            spec_digits(body, i - start) == Some(acc as int),
            acc <= 0x8000_0000_0000_0000,
        decreases n - i,
    {
        let c = chars[i];
        if c < '0' || c > '9' {
            proof {
                lemma_digits_grow(body, i - start + 1, body.len() as int);
            }
            return None;
        }
        let d: u128 = (c as u32 - '0' as u32) as u128;
        acc = acc * 10 + d;
        if acc > 0x8000_0000_0000_0000 {
            proof {
                lemma_digits_grow(body, i - start + 1, body.len() as int);
            }
            return None;
        }
        i = i + 1;
    }
    if negative {
        if acc == 0x8000_0000_0000_0000 {
            Some(i64::MIN)
        } else {
            Some(-(acc as i64))
        }
    } else if acc == 0x8000_0000_0000_0000 {
        None
    } else {
        Some(acc as i64)
    }
}

/// The quotient of two integers, rounded toward zero.
pub open spec fn trunc_div(a: int, b: int) -> int {
    let ua = if a < 0 {
        -a
    } else {
        a
    };
    let ub = if b < 0 {
        -b
    } else {
        b
    };
    if (a < 0) == (b < 0) {
        ua / ub
    } else {
        -(ua / ub)
    }
}

/// What a binary operator makes of two values, before any range check.
/// `None` for a token that is no operator, and for a division by zero.
pub open spec fn apply_operator(op: TokenKindView, a: int, b: int) -> Option<int> {
    match op {
        TokenKindView::Plus => Some(a + b),
        TokenKindView::Minus => Some(a - b),
        TokenKindView::Mul => Some(a * b),
        TokenKindView::Div => if b == 0 {
            None
        } else {
            Some(trunc_div(a, b))
        },
        _ => None,
    }
}

/// The value of an expression and the identifiers in it, from left to
/// right. An identifier counts as zero. The arithmetic is that of signed
/// 64-bit integers; a result out of range, like a division by zero, is
/// an error. Registers and memory references have no value.
pub open spec fn spec_eval(e: ExprView) -> Result<(i64, Seq<Seq<char>>), ErrorKind>
    decreases e,
{
    match e {
        ExprView::Number(s) => match spec_parse_i64(s) {
            Some(v) => Ok((v, Seq::empty())),
            None => Err(ErrorKind::InvalidNumber),
        },
        ExprView::Binop { left_hs, right_hs, op } => match spec_eval(*left_hs) {
            Err(e) => Err(e),
            Ok((a, left_names)) => match spec_eval(*right_hs) {
                Err(e) => Err(e),
                Ok((b, right_names)) => if !crate::encoder::parser::is_operator(op) {
                    Err(ErrorKind::InvalidOperand)
                } else {
                    match apply_operator(op, a as int, b as int) {
                        Some(v) => if i64::MIN <= v <= i64::MAX {
                            Ok((v as i64, left_names + right_names))
                        } else {
                            Err(ErrorKind::Arithmetic)
                        },
                        None => Err(ErrorKind::Arithmetic),
                    }
                },
            },
        },
        ExprView::Ident(ident) => Ok((0, seq![ident])),
        ExprView::Neg(inner) => match spec_eval(*inner) {
            Err(e) => Err(e),
            Ok((v, names)) => if v == i64::MIN {
                Err(ErrorKind::Arithmetic)
            } else {
                Ok(((-v) as i64, names))
            },
        },
        ExprView::Immediate(inner) => spec_eval(*inner),
        _ => Err(ErrorKind::InvalidOperand),
    }
}

/// The magnitude of a signed 64-bit integer.
fn magnitude(a: i64) -> (r: u64)
    ensures
        r == (if a < 0 {
            -(a as int)
        } else {
            a as int
        }),
{
    if a >= 0 {
        a as u64
    } else {
        (-(a + 1)) as u64 + 1
    }
}

/// Applies a binary operator in 64-bit arithmetic.
fn apply(op: &TokenKind, a: i64, b: i64) -> (r: Result<i64, AsmError>)
    ensures
        r == (if !crate::encoder::parser::is_operator(op@) {
            Err::<i64, AsmError>(AsmError { kind: ErrorKind::InvalidOperand, loc: None })
        } else {
            match apply_operator(op@, a as int, b as int) {
                Some(v) => if i64::MIN <= v <= i64::MAX {
                    Ok::<i64, AsmError>(v as i64)
                } else {
                    Err::<i64, AsmError>(AsmError { kind: ErrorKind::Arithmetic, loc: None })
                },
                None => Err::<i64, AsmError>(AsmError { kind: ErrorKind::Arithmetic, loc: None }),
            }
        }),
{
    let wide: i128 = match op {
        TokenKind::Plus => a as i128 + b as i128,
        TokenKind::Minus => a as i128 - b as i128,
        TokenKind::Mul => {
            assert(-0x4000_0000_0000_0000_0000_0000_0000_0000 <= (a as int) * (b as int)
                <= 0x4000_0000_0000_0000_0000_0000_0000_0000) by (nonlinear_arith)
                requires
                    -0x8000_0000_0000_0000 <= a as int <= 0x8000_0000_0000_0000,
                    -0x8000_0000_0000_0000 <= b as int <= 0x8000_0000_0000_0000,
            ;
            a as i128 * b as i128
        },
        TokenKind::Div => {
            if b == 0 {
                return Err(AsmError::new(ErrorKind::Arithmetic));
            }
            let q = magnitude(a) / magnitude(b);
            if (a < 0) == (b < 0) {
                q as i128
            } else {
                -(q as i128)
            }
        },
        _ => {
            return Err(AsmError::new(ErrorKind::InvalidOperand));
        },
    };
    if wide < i64::MIN as i128 || wide > i64::MAX as i128 {
        Err(AsmError::new(ErrorKind::Arithmetic))
    } else {
        Ok(wide as i64)
    }
}

/// Evaluates an expression. Returns its value and appends the
/// identifiers it meets to `arr`, each counted as zero.
pub fn eval_expr_get_symbol_64(expr: &Expr, arr: &mut Vec<String>) -> (r: Result<i64, AsmError>)
    ensures
        match spec_eval(expr@) {
            Ok((v, names)) => r == Ok::<i64, AsmError>(v) && string_views(final(arr)@)
                == string_views(old(arr)@) + names,
            Err(e) => r == Err::<i64, AsmError>(AsmError { kind: e, loc: None }),
        },
    decreases expr,
{
    match expr {
        Expr::Number(string) => match parse_i64(string.as_str()) {
            Some(value) => {
                assert(string_views(arr@) + Seq::<Seq<char>>::empty() =~= string_views(arr@));
                Ok(value)
            },
            None => Err(AsmError::new(ErrorKind::InvalidNumber)),
        },
        Expr::Binop { left_hs, right_hs, op } => {
            let ghost before = string_views(arr@);
            let a = eval_expr_get_symbol_64(left_hs, arr)?;
            let ghost middle = string_views(arr@);
            let b = eval_expr_get_symbol_64(right_hs, arr)?;
            proof {
                let l = spec_eval(left_hs@)->Ok_0.1;
                let r = spec_eval(right_hs@)->Ok_0.1;
                assert(before + l + r =~= before + (l + r));
            }
            apply(op, a, b)
        },
        Expr::Ident(ident) => {
            let ghost before = string_views(arr@);
            arr.push(ident.clone());
            assert(string_views(arr@) =~= before + seq![ident@]);
            Ok(0)
        },
        Expr::Neg(num_stmt) => {
            let v = eval_expr_get_symbol_64(num_stmt, arr)?;
            if v == i64::MIN {
                Err(AsmError::new(ErrorKind::Arithmetic))
            } else {
                Ok(-v)
            }
        },
        Expr::Immediate(stmt) => eval_expr_get_symbol_64(stmt, arr),
        _ => Err(AsmError::new(ErrorKind::InvalidOperand)),
    }
}

/// Evaluates an expression to its low 32 bits, read as a signed
/// number. Identifiers count as zero.
pub fn eval_expr(expr: &Expr) -> (r: Result<i32, AsmError>)
    ensures
        match spec_eval(expr@) {
            Ok((v, _)) => r == Ok::<i32, AsmError>(v as i32),
            Err(e) => r == Err::<i32, AsmError>(AsmError { kind: e, loc: None }),
        },
{
    let mut arr = Vec::new();
    let v = eval_expr_get_symbol_64(expr, &mut arr)?;
    Ok(#[verifier::truncate] (v as i32))
}

} // verus!
