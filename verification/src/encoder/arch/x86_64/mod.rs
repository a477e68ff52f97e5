//! The x86-64 target: registers, instruction kinds and operand expressions.

pub mod bin_const;
pub mod instructions;
pub mod registers;

use crate::encoder::arch::x86_64::registers::Register;
use crate::lexer::{TokenKind, TokenKindView};
use vstd::prelude::*;

verus! {

/// An operand, parsed.
#[derive(Debug, PartialEq, Eq)]
pub enum Expr {
    Ident(String),
    Number(String),
    /// unary minus
    Neg(Box<Expr>),
    Binop { left_hs: Box<Expr>, right_hs: Box<Expr>, op: TokenKind },
    /// e.g. movq $1, rax
    Immediate(Box<Expr>),
    /// displacement(base, index, scale)
    Indirection {
        disp: Option<Box<Expr>>,
        /// Expected Register
        base: Option<Box<Expr>>,
        /// Expected Register
        index: Option<Box<Expr>>,
        /// Expected a number
        scale: Option<Box<Expr>>,
        has_base: bool,
        has_index_scale: bool,
    },
    /// General purpose registers
    Register(Register),
    /// Single instruction, multiple data registers
    Xmm(Register),
    /// The target of an indirect jump or call. Expected Register
    Star(Box<Expr>),
}

/// The mathematical value of an `Expr`.
pub enum ExprView {
    Ident(Seq<char>),
    Number(Seq<char>),
    Neg(Box<ExprView>),
    Binop { left_hs: Box<ExprView>, right_hs: Box<ExprView>, op: TokenKindView },
    Immediate(Box<ExprView>),
    Indirection {
        disp: Option<Box<ExprView>>,
        base: Option<Box<ExprView>>,
        index: Option<Box<ExprView>>,
        scale: Option<Box<ExprView>>,
        has_base: bool,
        has_index_scale: bool,
    },
    Register(Register),
    Xmm(Register),
    Star(Box<ExprView>),
}

/// The value of an optional sub-expression.
pub open spec fn opt_expr_view(e: Option<Box<Expr>>) -> Option<Box<ExprView>>
    decreases e,
{
    match e {
        Some(inner) => Some(Box::new(expr_view(*inner))),
        None => None,
    }
}

/// The value of an expression.
pub open spec fn expr_view(e: Expr) -> ExprView
    decreases e,
{
    match e {
        Expr::Ident(s) => ExprView::Ident(s@),
        Expr::Number(s) => ExprView::Number(s@),
        Expr::Neg(inner) => ExprView::Neg(Box::new(expr_view(*inner))),
        Expr::Binop { left_hs, right_hs, op } => ExprView::Binop {
            left_hs: Box::new(expr_view(*left_hs)),
            right_hs: Box::new(expr_view(*right_hs)),
            op: op@,
        },
        Expr::Immediate(inner) => ExprView::Immediate(Box::new(expr_view(*inner))),
        Expr::Indirection { disp, base, index, scale, has_base, has_index_scale } => {
            ExprView::Indirection {
                disp: opt_expr_view(disp),
                base: opt_expr_view(base),
                index: opt_expr_view(index),
                scale: opt_expr_view(scale),
                has_base,
                has_index_scale,
            }
        },
        Expr::Register(r) => ExprView::Register(r),
        Expr::Xmm(r) => ExprView::Xmm(r),
        Expr::Star(inner) => ExprView::Star(Box::new(expr_view(*inner))),
    }
}

impl View for Expr {
    type V = ExprView;

    open spec fn view(&self) -> ExprView {
        expr_view(*self)
    }
}

} // verus!
