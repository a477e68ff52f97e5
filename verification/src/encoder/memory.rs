//! Memory operands: from `disp(%base,%index,scale)` to the ModRM byte,
//! the SIB byte and the displacement.

use crate::elf::constants::{R_X86_64_32S, R_X86_64_PC32};
use crate::encoder::arch::x86_64::bin_const::{
    MOD_INDIRECTION_WITH_DISP32, MOD_INDIRECTION_WITH_DISP8, MOD_INDIRECTION_WITH_NO_DISP,
};
use crate::encoder::arch::x86_64::registers::{no_register, DataSizeSuffix, Register};
use crate::encoder::arch::x86_64::{expr_view, opt_expr_view, Expr, ExprView};
use crate::encoder::compose_mod_rm;
use crate::encoder::encode::{Encoded, Reloc, RelocView};
use crate::encoder::eval::{eval_expr_get_symbol_64, spec_eval};
use crate::error::{AsmError, ErrorKind};
use crate::layout::{le_bytes, lemma_le_bytes_len, push_le, twos_complement_64};
use crate::text::{str_eq, string_views};
use vstd::prelude::*;

verus! {

/// A memory operand, checked and evaluated: the base and index
/// registers, the scale as a power of two, the displacement, and the
/// symbol that the displacement is relative to, if any.
#[derive(Clone, Debug, PartialEq, Eq)]
pub struct MemOperand {
    pub base: Option<Register>,
    pub index: Option<Register>,
    /// 0, 1, 2 or 3 for the scales 1, 2, 4 and 8
    pub scale: u8,
    pub disp: i32,
    pub symbol: Option<String>,
}

/// The mathematical value of a `MemOperand`.
pub struct MemOperandView {
    pub base: Option<Register>,
    pub index: Option<Register>,
    pub scale: u8,
    pub disp: i32,
    pub symbol: Option<Seq<char>>,
}

impl View for MemOperand {
    type V = MemOperandView;

    open spec fn view(&self) -> MemOperandView {
        MemOperandView {
            base: self.base,
            index: self.index,
            scale: self.scale,
            disp: self.disp,
            symbol: match self.symbol {
                Some(s) => Some(s@),
                None => None,
            },
        }
    }
}

/// Whether a register is the instruction pointer.
pub open spec fn is_rip(r: Register) -> bool {
    r.lit@ == "RIP"@
}

/// The register of an optional address part: none, or a 64-bit general
/// register.
pub open spec fn address_register(e: Option<Box<ExprView>>) -> Result<Option<Register>, ErrorKind> {
    match e {
        None => Ok(None),
        Some(b) => match *b {
            ExprView::Register(r) => if r.size == DataSizeSuffix::Quad {
                Ok(Some(r))
            } else {
                Err(ErrorKind::InvalidOperand)
            },
            _ => Err(ErrorKind::InvalidOperand),
        },
    }
}

/// The two bits that stand for a scale of 1, 2, 4 or 8. The scale must
/// be a number without identifiers.
pub open spec fn scale_bits(e: Option<Box<ExprView>>) -> Result<u8, ErrorKind> {
    match e {
        None => Ok(0),
        Some(s) => match spec_eval(*s) {
            Err(k) => Err(k),
            Ok((v, names)) => if names.len() != 0 {
                Err(ErrorKind::InvalidOperand)
            } else if v == 1 {
                Ok(0)
            } else if v == 2 {
                Ok(1)
            } else if v == 4 {
                Ok(2)
            } else if v == 8 {
                Ok(3)
            } else {
                Err(ErrorKind::InvalidOperand)
            },
        },
    }
}

/// The displacement of a memory operand and the symbol it is relative
/// to: the value must fit 32 bits, and at most one identifier may occur.
pub open spec fn displacement_of(e: Option<Box<ExprView>>) -> Result<
    (i32, Option<Seq<char>>),
    ErrorKind,
> {
    match e {
        None => Ok((0, None)),
        Some(d) => match spec_eval(*d) {
            Err(k) => Err(k),
            Ok((v, names)) => if names.len() >= 2 {
                Err(ErrorKind::AmbiguousRelocation)
            } else if !(i32::MIN <= v <= i32::MAX) {
                Err(ErrorKind::TooLarge)
            } else if names.len() == 1 {
                Ok((v as i32, Some(names[0])))
            } else {
                Ok((v as i32, None))
            },
        },
    }
}

/// The memory operand that an expression denotes. The base and index
/// must be 64-bit general registers; the stack pointer and the
/// instruction pointer cannot be an index, and the instruction pointer
/// as base takes no index.
pub open spec fn mem_operand(e: ExprView) -> Result<MemOperandView, ErrorKind> {
    match e {
        ExprView::Indirection { disp, base, index, scale, .. } => match address_register(base) {
            Err(k) => Err(k),
            Ok(base) => match address_register(index) {
                Err(k) => Err(k),
                Ok(index) => if index matches Some(x) && (x.base_offset == 4 || is_rip(x) || (
                base matches Some(b) && is_rip(b))) {
                    Err(ErrorKind::InvalidOperand)
                } else {
                    match (if index is Some {
                        scale_bits(scale)
                    } else {
                        Ok(0u8)
                    }) {
                        Err(k) => Err(k),
                        Ok(scale) => match displacement_of(disp) {
                            Err(k) => Err(k),
                            Ok((disp, symbol)) => Ok(
                                MemOperandView { base, index, scale, disp, symbol },
                            ),
                        },
                    }
                },
            },
        },
        _ => Err(ErrorKind::InvalidOperand),
    }
}

/// The register that stands for an absent address part in the prefix.
pub open spec fn or_none(r: Option<Register>) -> Register {
    match r {
        Some(r) => r,
        None => no_register(),
    }
}

/// The addressing mode of an operand with a base register: 32-bit
/// displacement for a symbol; no displacement for zero, unless the base
/// is RBP or R13, which need one; 8-bit displacement where it fits;
/// else 32-bit displacement.
pub open spec fn addressing_mode(m: MemOperandView, base: Register) -> u8 {
    if m.symbol is Some {
        MOD_INDIRECTION_WITH_DISP32
    } else if m.disp == 0 && base.base_offset % 8 != 5 {
        MOD_INDIRECTION_WITH_NO_DISP
    } else if -128 <= m.disp <= 127 {
        MOD_INDIRECTION_WITH_DISP8
    } else {
        MOD_INDIRECTION_WITH_DISP32
    }
}

/// The displacement bytes for an addressing mode: none, one or four; a
/// symbol's displacement is left zero for the relocation.
pub open spec fn disp_bytes(m: MemOperandView, mode: u8) -> Seq<u8> {
    if mode == MOD_INDIRECTION_WITH_NO_DISP {
        Seq::empty()
    } else if mode == MOD_INDIRECTION_WITH_DISP8 {
        le_bytes(twos_complement_64(m.disp as int), 1)
    } else if m.symbol is Some {
        le_bytes(0, 4)
    } else {
        le_bytes(twos_complement_64(m.disp as int), 4)
    }
}

/// The ModRM byte, the SIB byte and the displacement of a memory
/// operand, with `reg` in the reg field, behind `at` bytes of the
/// instruction.
///
/// - Relative to the instruction pointer: mode 0 with r/m 5 and a 32-bit
///   displacement; a symbol asks for a PC32 relocation.
/// - Without a base: mode 0, an SIB byte with base 5, and a 32-bit
///   displacement.
/// - With a base: the mode that the displacement asks for; an SIB byte
///   when there is an index or the base is RSP or R12.
///
/// A symbol other than relative to the instruction pointer asks for a
/// signed 32-bit relocation.
pub open spec fn mem_code(reg: u8, m: MemOperandView, at: int) -> Encoded {
    let scale = m.scale % 4;
    let index_bits = match m.index {
        Some(x) => x.base_offset % 8,
        None => 4,
    };
    match m.base {
        Some(b) => if is_rip(b) {
            Encoded {
                code: seq![(reg * 8 + 5) as u8] + disp_bytes(m, MOD_INDIRECTION_WITH_DISP32),
                reloc: match m.symbol {
                    Some(name) => Some(
                        RelocView {
                            uses: name,
                            offset: (at + 1) as usize,
                            rtype: R_X86_64_PC32,
                            adjust: m.disp,
                        },
                    ),
                    None => None,
                },
            }
        } else {
            let mode = addressing_mode(m, b);
            let sib = m.index is Some || b.base_offset % 8 == 4;
            let head = if sib {
                seq![
                    (mode * 64 + reg * 8 + 4) as u8,
                    (scale * 64 + index_bits * 8 + b.base_offset % 8) as u8,
                ]
            } else {
                seq![(mode * 64 + reg * 8 + b.base_offset % 8) as u8]
            };
            Encoded {
                code: head + disp_bytes(m, mode),
                reloc: match m.symbol {
                    Some(name) => Some(
                        RelocView {
                            uses: name,
                            offset: (at + head.len()) as usize,
                            rtype: R_X86_64_32S,
                            adjust: m.disp,
                        },
                    ),
                    None => None,
                },
            }
        },
        None => Encoded {
            code: seq![(reg * 8 + 4) as u8, (scale * 64 + index_bits * 8 + 5) as u8] + disp_bytes(
                m,
                MOD_INDIRECTION_WITH_DISP32,
            ),
            reloc: match m.symbol {
                Some(name) => Some(
                    RelocView {
                        uses: name,
                        offset: (at + 2) as usize,
                        rtype: R_X86_64_32S,
                        adjust: m.disp,
                    },
                ),
                None => None,
            },
        },
    }
}

/// The register of an optional address part.
fn address_register_of(e: &Option<Box<Expr>>) -> (r: Result<Option<Register>, AsmError>)
    ensures
        match address_register(opt_expr_view(*e)) {
            Ok(reg) => r == Ok::<Option<Register>, AsmError>(reg),
            Err(k) => r == Err::<Option<Register>, AsmError>(AsmError { kind: k, loc: None }),
        },
{
    match e {
        None => Ok(None),
        Some(b) => {
            assert(opt_expr_view(*e) == Some(Box::new(expr_view(**b))));
            match &**b {
                Expr::Register(r) => {
                    if r.size == DataSizeSuffix::Quad {
                        Ok(Some(*r))
                    } else {
                        Err(AsmError::new(ErrorKind::InvalidOperand))
                    }
                },
                _ => Err(AsmError::new(ErrorKind::InvalidOperand)),
            }
        },
    }
}

/// The scale bits of an optional scale expression.
fn scale_bits_of(e: &Option<Box<Expr>>) -> (r: Result<u8, AsmError>)
    ensures
        match scale_bits(opt_expr_view(*e)) {
            Ok(bits) => r == Ok::<u8, AsmError>(bits),
            Err(k) => r == Err::<u8, AsmError>(AsmError { kind: k, loc: None }),
        },
{
    match e {
        None => Ok(0),
        Some(s) => {
            assert(opt_expr_view(*e) == Some(Box::new(expr_view(**s))));
            let mut names: Vec<String> = Vec::new();
            let v = eval_expr_get_symbol_64(s, &mut names)?;
            assert(string_views(names@) =~= spec_eval(s@)->Ok_0.1);
            if names.len() != 0 {
                Err(AsmError::new(ErrorKind::InvalidOperand))
            } else if v == 1 {
                Ok(0)
            } else if v == 2 {
                Ok(1)
            } else if v == 4 {
                Ok(2)
            } else if v == 8 {
                Ok(3)
            } else {
                Err(AsmError::new(ErrorKind::InvalidOperand))
            }
        },
    }
}

/// The displacement of an optional displacement expression and its symbol.
fn displacement_from(e: &Option<Box<Expr>>) -> (r: Result<(i32, Option<String>), AsmError>)
    ensures
        match displacement_of(opt_expr_view(*e)) {
            Ok((v, symbol)) => r is Ok && r->Ok_0.0 == v && (match r->Ok_0.1 {
                Some(s) => symbol == Some(s@),
                None => symbol is None,
            }),
            Err(k) => r == Err::<(i32, Option<String>), AsmError>(AsmError { kind: k, loc: None }),
        },
{
    match e {
        None => Ok((0, None)),
        Some(d) => {
            assert(opt_expr_view(*e) == Some(Box::new(expr_view(**d))));
            let mut names: Vec<String> = Vec::new();
            let v = eval_expr_get_symbol_64(d, &mut names)?;
            assert(string_views(names@) =~= spec_eval(d@)->Ok_0.1);
            if names.len() >= 2 {
                Err(AsmError::new(ErrorKind::AmbiguousRelocation))
            } else if v < i32::MIN as i64 || v > i32::MAX as i64 {
                Err(AsmError::new(ErrorKind::TooLarge))
            } else if names.len() == 1 {
                Ok((v as i32, Some(names[0].clone())))
            } else {
                Ok((v as i32, None))
            }
        },
    }
}

/// Checks and evaluates a memory operand.
pub fn memory_operand(e: &Expr) -> (r: Result<MemOperand, AsmError>)
    ensures
        match mem_operand(e@) {
            Ok(m) => r is Ok && r->Ok_0@ == m && m.scale <= 3,
            Err(k) => r == Err::<MemOperand, AsmError>(AsmError { kind: k, loc: None }),
        },
{
    match e {
        Expr::Indirection { disp, base, index, scale, has_base: _, has_index_scale: _ } => {
            let base = address_register_of(base)?;
            let index = address_register_of(index)?;
            let forbidden = match index {
                Some(x) => x.base_offset == 4 || str_eq(x.lit, "RIP") || (match base {
                    Some(b) => str_eq(b.lit, "RIP"),
                    None => false,
                }),
                None => false,
            };
            if forbidden {
                return Err(AsmError::new(ErrorKind::InvalidOperand));
            }
            let scale = if index.is_some() {
                scale_bits_of(scale)?
            } else {
                0
            };
            let (disp, symbol) = displacement_from(disp)?;
            Ok(MemOperand { base, index, scale, disp, symbol })
        },
        _ => Err(AsmError::new(ErrorKind::InvalidOperand)),
    }
}

/// The two's-complement image of a signed 32-bit value in 64 bits.
fn unsigned_of(v: i32) -> (r: u64)
    ensures
        r == twos_complement_64(v as int),
{
    if v >= 0 {
        v as u64
    } else {
        u64::MAX - ((-(v as i64 + 1)) as u64)
    }
}

/// Appends the displacement bytes for an addressing mode.
fn push_disp(code: &mut Vec<u8>, m: &MemOperand, mode: u8)
    requires
        mode <= 2,
    ensures
        final(code)@ == old(code)@ + disp_bytes(m@, mode),
        final(code)@.len() == old(code)@.len() + (if mode == 0 {
            0int
        } else if mode == 1 {
            1int
        } else {
            4int
        }),
{
    proof {
        lemma_le_bytes_len(twos_complement_64(m.disp as int), 1);
        lemma_le_bytes_len(twos_complement_64(m.disp as int), 4);
        lemma_le_bytes_len(0, 4);
    }
    if mode == MOD_INDIRECTION_WITH_NO_DISP {
        assert(code@ + Seq::<u8>::empty() =~= code@);
    } else if mode == MOD_INDIRECTION_WITH_DISP8 {
        push_le(code, unsigned_of(m.disp), 1);
    } else if m.symbol.is_some() {
        push_le(code, 0, 4);
    } else {
        push_le(code, unsigned_of(m.disp), 4);
    }
}

/// The relocation of a memory operand whose displacement stands at
/// `offset`, if the operand has a symbol.
fn mem_reloc(m: &MemOperand, offset: usize, rtype: u64) -> (r: Option<Reloc>)
    ensures
        crate::encoder::encode::reloc_view(r) == (match m@.symbol {
            Some(name) => Some(RelocView { uses: name, offset, rtype, adjust: m.disp }),
            None => None,
        }),
{
    match &m.symbol {
        Some(name) => Some(Reloc { uses: name.clone(), offset, rtype, adjust: m.disp }),
        None => None,
    }
}

/// Appends the ModRM byte, the SIB byte and the displacement of a
/// memory operand to `code`, with `reg` in the reg field.
pub fn push_mem(code: &mut Vec<u8>, reg: u8, m: &MemOperand) -> (r: Option<Reloc>)
    requires
        reg <= 7,
        m.scale <= 3,
    ensures
        final(code)@ == old(code)@ + mem_code(reg, m@, old(code)@.len() as int).code,
        crate::encoder::encode::reloc_view(r) == mem_code(reg, m@, old(code)@.len() as int).reloc,
        r matches Some(rel) ==> rel.offset <= final(code)@.len(),
{
    let ghost start = code@;
    let ghost expected = mem_code(reg, m@, start.len() as int);
    let index_bits: u8 = match m.index {
        Some(x) => x.base_offset % 8,
        None => 4,
    };
    match m.base {
        Some(b) => {
            if str_eq(b.lit, "RIP") {
                code.push(compose_mod_rm(MOD_INDIRECTION_WITH_NO_DISP, reg, 5));
                let offset = code.len();
                push_disp(code, m, MOD_INDIRECTION_WITH_DISP32);
                assert(code@ =~= start + expected.code);
                mem_reloc(m, offset, R_X86_64_PC32)
            } else {
                let mode: u8 = if m.symbol.is_some() {
                    MOD_INDIRECTION_WITH_DISP32
                } else if m.disp == 0 && b.base_offset % 8 != 5 {
                    MOD_INDIRECTION_WITH_NO_DISP
                } else if -128 <= m.disp && m.disp <= 127 {
                    MOD_INDIRECTION_WITH_DISP8
                } else {
                    MOD_INDIRECTION_WITH_DISP32
                };
                assert(mode == addressing_mode(m@, b));
                let sib = m.index.is_some() || b.base_offset % 8 == 4;
                if sib {
                    code.push(compose_mod_rm(mode, reg, 4));
                    code.push(compose_mod_rm(m.scale, index_bits, b.base_offset % 8));
                } else {
                    code.push(compose_mod_rm(mode, reg, b.base_offset % 8));
                }
                let offset = code.len();
                push_disp(code, m, mode);
                assert(code@ =~= start + expected.code);
                mem_reloc(m, offset, R_X86_64_32S)
            }
        },
        None => {
            code.push(compose_mod_rm(MOD_INDIRECTION_WITH_NO_DISP, reg, 4));
            code.push(compose_mod_rm(m.scale, index_bits, 5));
            let offset = code.len();
            push_disp(code, m, MOD_INDIRECTION_WITH_DISP32);
            assert(code@ =~= start + expected.code);
            mem_reloc(m, offset, R_X86_64_32S)
        },
    }
}

} // verus!
