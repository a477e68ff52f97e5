//! The machine code of the instructions the encoder knows: `mov`
//! between registers, memory and immediates, `lea`, the scalar moves
//! `movss` and `movsd`, `push` and `pop`, `call` and `jmp`.

use crate::elf::constants::{
    R_X86_64_16, R_X86_64_32, R_X86_64_32S, R_X86_64_8, R_X86_64_PC32, STB_GLOBAL,
};
use crate::encoder::arch::x86_64::bin_const::MOD_REGI;
use crate::encoder::arch::x86_64::registers::{no_register, DataSizeSuffix, Register};
use crate::encoder::arch::x86_64::{Expr, ExprView};
use crate::encoder::eval::{eval_expr_get_symbol_64, spec_eval};
use crate::encoder::{
    compose_mod_rm, error_at, find_section, find_symbol, prefix_bytes, symbol_names, Encoder,
    EncoderView, InstrView, Rela, RelaView,
};
use crate::encoder::memory::{mem_code, mem_operand, memory_operand, or_none, push_mem};
use crate::layout::{lemma_le_bytes_len, twos_complement_32};
use crate::error::{AsmError, ErrorKind};
use crate::layout::{le_bytes, push_le, twos_complement_64};
use crate::text::string_views;
use vstd::prelude::*;

verus! {

/// A relocation that an instruction asks for: the symbol, the place in
/// the instruction's code, the type and the adjustment.
#[derive(Clone, Debug, PartialEq, Eq)]
pub struct Reloc {
    pub uses: String,
    pub offset: usize,
    pub rtype: u64,
    pub adjust: i32,
}

/// The mathematical value of a `Reloc`.
pub struct RelocView {
    pub uses: Seq<char>,
    pub offset: usize,
    pub rtype: u64,
    pub adjust: i32,
}

impl View for Reloc {
    type V = RelocView;

    open spec fn view(&self) -> RelocView {
        RelocView { uses: self.uses@, offset: self.offset, rtype: self.rtype, adjust: self.adjust }
    }
}

/// The code of an instruction and the relocation it asks for, if any.
pub struct Encoded {
    pub code: Seq<u8>,
    pub reloc: Option<RelocView>,
}

/// The value of an optional relocation request.
pub open spec fn reloc_view(r: Option<Reloc>) -> Option<RelocView> {
    match r {
        Some(r) => Some(r@),
        None => None,
    }
}

/// The number of bytes of an immediate operand of the given size. A
/// 64-bit `mov` takes a 32-bit immediate and extends its sign.
pub open spec fn imm_width(size: DataSizeSuffix) -> nat {
    match size {
        DataSizeSuffix::Byte => 1,
        DataSizeSuffix::Word => 2,
        _ => 4,
    }
}

/// Whether a value can be an immediate operand of the given size: as a
/// signed or as an unsigned number of that width, and for 64 bits as a
/// signed 32-bit number.
pub open spec fn fits_imm(size: DataSizeSuffix, v: int) -> bool {
    match size {
        DataSizeSuffix::Byte => -0x80 <= v < 0x100,
        DataSizeSuffix::Word => -0x8000 <= v < 0x1_0000,
        DataSizeSuffix::Long => -0x8000_0000 <= v < 0x1_0000_0000,
        _ => -0x8000_0000 <= v < 0x8000_0000,
    }
}

/// The relocation type for an absolute value of the given size.
pub open spec fn abs_reloc_type(size: DataSizeSuffix) -> u64 {
    match size {
        DataSizeSuffix::Byte => R_X86_64_8,
        DataSizeSuffix::Word => R_X86_64_16,
        DataSizeSuffix::Long => R_X86_64_32,
        _ => R_X86_64_32S,
    }
}

/// Whether a size is one of the four integer operand sizes.
pub open spec fn is_integer_size(size: DataSizeSuffix) -> bool {
    size is Byte || size is Word || size is Long || size is Quad
}

/// What an immediate operand adds to the `at` bytes before it: its
/// value in little-endian order. An operand with one identifier is left
/// zero and asks for a relocation against that symbol, with the rest of
/// the expression as adjustment. More than one identifier cannot be
/// relocated.
pub open spec fn imm_code(size: DataSizeSuffix, e: ExprView, at: int) -> Result<
    Encoded,
    ErrorKind,
> {
    match spec_eval(e) {
        Err(k) => Err(k),
        Ok((v, names)) => if names.len() >= 2 {
            Err(ErrorKind::AmbiguousRelocation)
        } else if names.len() == 1 {
            if !(i32::MIN <= v <= i32::MAX) {
                Err(ErrorKind::TooLarge)
            } else {
                Ok(
                    Encoded {
                        code: le_bytes(0, imm_width(size)),
                        reloc: Some(
                            RelocView {
                                uses: names[0],
                                offset: at as usize,
                                rtype: abs_reloc_type(size),
                                adjust: v as i32,
                            },
                        ),
                    },
                )
            }
        } else if !fits_imm(size, v as int) {
            Err(ErrorKind::InvalidOperand)
        } else {
            Ok(
                Encoded {
                    code: le_bytes(twos_complement_64(v as int), imm_width(size)),
                    reloc: None,
                },
            )
        },
    }
}

/// The code of `mov src, dst` with operands of the given size.
///
/// - Between registers: the prefixes, opcode 0x88 for bytes and 0x89
///   otherwise, and a ModRM byte with the source in the reg field.
/// - From an immediate to a register: the prefixes, opcode 0xc6 for
///   bytes and 0xc7 otherwise, a ModRM byte with the destination, and
///   the immediate.
/// - From a register to memory: as between registers, with the memory
///   operand in place of the destination register.
/// - From memory to a register: opcode 0x8a for bytes and 0x8b
///   otherwise, with the destination in the reg field.
/// - From an immediate to memory.
///
/// Registers must have the operand size. No other operands are encoded.
pub open spec fn mov_code(size: DataSizeSuffix, src: ExprView, dst: ExprView) -> Result<
    Encoded,
    ErrorKind,
> {
    if !is_integer_size(size) {
        Err(ErrorKind::InvalidOperand)
    } else {
        match (src, dst) {
            (ExprView::Register(s), ExprView::Register(d)) => if s.size != size || d.size
                != size {
                Err(ErrorKind::InvalidOperand)
            } else {
                Ok(
                    Encoded {
                        code: prefix_bytes(s, no_register(), d, seq![size]) + seq![
                            if size is Byte {
                                0x88u8
                            } else {
                                0x89u8
                            },
                            (MOD_REGI * 64 + (s.base_offset % 8) * 8 + d.base_offset % 8) as u8,
                        ],
                        reloc: None,
                    },
                )
            },
            (ExprView::Immediate(e), ExprView::Register(d)) => if d.size != size {
                Err(ErrorKind::InvalidOperand)
            } else {
                let head = prefix_bytes(no_register(), no_register(), d, seq![size]) + seq![
                    if size is Byte {
                        0xc6u8
                    } else {
                        0xc7u8
                    },
                    (MOD_REGI * 64 + d.base_offset % 8) as u8,
                ];
                match imm_code(size, *e, head.len() as int) {
                    Err(k) => Err(k),
                    Ok(imm) => Ok(Encoded { code: head + imm.code, reloc: imm.reloc }),
                }
            },
            (ExprView::Register(s), ExprView::Indirection { .. }) => if s.size != size {
                Err(ErrorKind::InvalidOperand)
            } else {
                reg_mem_code(seq![
                    if size is Byte {
                        0x88u8
                    } else {
                        0x89u8
                    },
                ], size, s, dst)
            },
            (ExprView::Indirection { .. }, ExprView::Register(d)) => if d.size != size {
                Err(ErrorKind::InvalidOperand)
            } else {
                reg_mem_code(seq![
                    if size is Byte {
                        0x8au8
                    } else {
                        0x8bu8
                    },
                ], size, d, src)
            },
            (ExprView::Immediate(e), ExprView::Indirection { .. }) => imm_mem_code(size, *e, dst),
            _ => Err(ErrorKind::InvalidOperand),
        }
    }
}

/// The code of an instruction with a register and a memory operand:
/// the prefixes, the opcode, and the memory operand with the register
/// in the reg field of its ModRM byte.
pub open spec fn reg_mem_code(
    opcode: Seq<u8>,
    size: DataSizeSuffix,
    r: Register,
    mem: ExprView,
) -> Result<Encoded, ErrorKind> {
    match mem_operand(mem) {
        Err(k) => Err(k),
        Ok(m) => {
            let head = prefix_bytes(r, or_none(m.index), or_none(m.base), seq![size]) + opcode;
            let tail = mem_code(r.base_offset % 8, m, head.len() as int);
            Ok(Encoded { code: head + tail.code, reloc: tail.reloc })
        },
    }
}

/// The code of `mov` from an immediate to memory: the prefixes, opcode
/// 0xc6 for bytes and 0xc7 otherwise, the memory operand, and the
/// immediate. Only one of the two operands can bring a symbol.
pub open spec fn imm_mem_code(size: DataSizeSuffix, e: ExprView, mem: ExprView) -> Result<
    Encoded,
    ErrorKind,
> {
    match mem_operand(mem) {
        Err(k) => Err(k),
        Ok(m) => {
            let head = prefix_bytes(
                no_register(),
                or_none(m.index),
                or_none(m.base),
                seq![size],
            ) + seq![
                if size is Byte {
                    0xc6u8
                } else {
                    0xc7u8
                },
            ];
            let middle = mem_code(0, m, head.len() as int);
            match imm_code(size, e, (head.len() + middle.code.len()) as int) {
                Err(k) => Err(k),
                Ok(imm) => if middle.reloc is Some && imm.reloc is Some {
                    Err(ErrorKind::AmbiguousRelocation)
                } else {
                    Ok(
                        Encoded {
                            code: head + middle.code + imm.code,
                            reloc: if middle.reloc is Some {
                                middle.reloc
                            } else {
                                imm.reloc
                            },
                        },
                    )
                },
            }
        },
    }
}

/// The code of `lea src, dst`: the address of a memory operand goes
/// into a register of 16, 32 or 64 bits.
pub open spec fn lea_code(size: DataSizeSuffix, src: ExprView, dst: ExprView) -> Result<
    Encoded,
    ErrorKind,
> {
    match dst {
        ExprView::Register(d) => if d.size != size || !(size is Word || size is Long || size
            is Quad) {
            Err(ErrorKind::InvalidOperand)
        } else {
            reg_mem_code(seq![0x8du8], size, d, src)
        },
        _ => Err(ErrorKind::InvalidOperand),
    }
}

/// The code of the scalar moves `movss` and `movsd` between XMM
/// registers and memory: the prefix 0xf3 or 0xf2, the REX prefix if
/// needed, 0x0f, then 0x10 to load a register or 0x11 to store it, and
/// the ModRM byte with the XMM register in the reg field.
pub open spec fn scalar_mov_code(size: DataSizeSuffix, src: ExprView, dst: ExprView) -> Result<
    Encoded,
    ErrorKind,
> {
    if !(size is Single || size is Double) {
        Err(ErrorKind::InvalidOperand)
    } else {
        match (src, dst) {
            (ExprView::Xmm(s), ExprView::Xmm(d)) => Ok(
                Encoded {
                    code: prefix_bytes(d, no_register(), s, seq![size]) + seq![
                        0x0fu8,
                        0x10u8,
                        (MOD_REGI * 64 + (d.base_offset % 8) * 8 + s.base_offset % 8) as u8,
                    ],
                    reloc: None,
                },
            ),
            (ExprView::Indirection { .. }, ExprView::Xmm(d)) => reg_mem_code(
                seq![0x0fu8, 0x10u8],
                size,
                d,
                src,
            ),
            (ExprView::Xmm(s), ExprView::Indirection { .. }) => reg_mem_code(
                seq![0x0fu8, 0x11u8],
                size,
                s,
                dst,
            ),
            _ => Err(ErrorKind::InvalidOperand),
        }
    }
}

/// The code of `push src`. A 64-bit register: the REX prefix if the
/// register needs one, then 0x50 plus the low three bits of its number.
/// An immediate: 0x6a and one byte if the value is a signed byte, else
/// 0x68 and four bytes; with an identifier, 0x68, four zero bytes and a
/// relocation.
pub open spec fn push_code(src: ExprView) -> Result<Encoded, ErrorKind> {
    match src {
        ExprView::Register(r) => if r.size != DataSizeSuffix::Quad {
            Err(ErrorKind::InvalidOperand)
        } else {
            Ok(
                Encoded {
                    code: prefix_bytes(no_register(), no_register(), r, Seq::empty()) + seq![
                        (0x50 + r.base_offset % 8) as u8,
                    ],
                    reloc: None,
                },
            )
        },
        ExprView::Immediate(e) => match spec_eval(*e) {
            Err(k) => Err(k),
            Ok((v, names)) => if names.len() == 0 && -0x80 <= v < 0x80 {
                Ok(Encoded { code: seq![0x6au8] + le_bytes(twos_complement_64(v as int), 1), reloc: None })
            } else {
                match imm_code(DataSizeSuffix::Quad, *e, 1) {
                    Err(k) => Err(k),
                    Ok(imm) => Ok(Encoded { code: seq![0x68u8] + imm.code, reloc: imm.reloc }),
                }
            },
        },
        _ => Err(ErrorKind::InvalidOperand),
    }
}

/// The code of `pop dst` for a 64-bit register: the REX prefix if the
/// register needs one, then 0x58 plus the low three bits of its number.
pub open spec fn pop_code(dst: ExprView) -> Result<Encoded, ErrorKind> {
    match dst {
        ExprView::Register(r) => if r.size != DataSizeSuffix::Quad {
            Err(ErrorKind::InvalidOperand)
        } else {
            Ok(
                Encoded {
                    code: prefix_bytes(no_register(), no_register(), r, Seq::empty()) + seq![
                        (0x58 + r.base_offset % 8) as u8,
                    ],
                    reloc: None,
                },
            )
        },
        _ => Err(ErrorKind::InvalidOperand),
    }
}

/// Whether the instruction under construction now holds `enc` behind
/// the code it started with, and the result is the relocation `enc`
/// asks for; or the result is the error.
pub open spec fn encoded_as(
    before: InstrView,
    after: InstrView,
    r: Result<Option<Reloc>, AsmError>,
    expected: Result<Encoded, ErrorKind>,
) -> bool {
    match expected {
        Ok(enc) => r is Ok && reloc_view(r->Ok_0) == enc.reloc && after == (InstrView {
            code: before.code + enc.code,
            ..before
        }) && (enc.reloc matches Some(rel) ==> rel.offset <= after.code.len()),
        Err(k) => r == Err::<Option<Reloc>, AsmError>(AsmError { kind: k, loc: None }),
    }
}

/// The index register of a memory operand, or the one that stands for none.
fn index_or_none(m: &crate::encoder::memory::MemOperand) -> (r: Register)
    ensures
        r == or_none(m@.index),
{
    match m.index {
        Some(x) => x,
        None => Register::default(),
    }
}

/// The base register of a memory operand, or the one that stands for none.
fn base_or_none(m: &crate::encoder::memory::MemOperand) -> (r: Register)
    ensures
        r == or_none(m@.base),
{
    match m.base {
        Some(b) => b,
        None => Register::default(),
    }
}

/// Whether a size is one of the four integer operand sizes.
fn integer_size(size: DataSizeSuffix) -> (r: bool)
    ensures
        r == is_integer_size(size),
{
    match size {
        DataSizeSuffix::Byte | DataSizeSuffix::Word | DataSizeSuffix::Long
        | DataSizeSuffix::Quad => true,
        _ => false,
    }
}

/// The two's-complement image of a signed 64-bit value.
fn as_unsigned(v: i64) -> (r: u64)
    ensures
        r == twos_complement_64(v as int),
{
    if v >= 0 {
        v as u64
    } else {
        u64::MAX - ((-(v + 1)) as u64)
    }
}

impl Encoder {
    /// Appends an immediate operand to the instruction under construction.
    fn imm(&mut self, size: DataSizeSuffix, e: &Expr) -> (r: Result<Option<Reloc>, AsmError>)
        ensures
            final(self)@ == old(self)@,
            encoded_as(
                old(self).current_instr@,
                final(self).current_instr@,
                r,
                imm_code(size, e@, old(self).current_instr@.code.len() as int),
            ),
    {
        let width: usize = match size {
            DataSizeSuffix::Byte => 1,
            DataSizeSuffix::Word => 2,
            _ => 4,
        };
        let mut used_symbols: Vec<String> = Vec::new();
        let value = eval_expr_get_symbol_64(e, &mut used_symbols)?;
        assert(string_views(used_symbols@) =~= spec_eval(e@)->Ok_0.1);
        if used_symbols.len() >= 2 {
            return Err(AsmError::new(ErrorKind::AmbiguousRelocation));
        }
        if used_symbols.len() == 1 {
            if value < i32::MIN as i64 || value > i32::MAX as i64 {
                return Err(AsmError::new(ErrorKind::TooLarge));
            }
            let at = self.current_instr.code.len();
            push_le(&mut self.current_instr.code, 0, width);
            proof {
                lemma_le_bytes_len(0, width as nat);
            }
            let rtype = match size {
                DataSizeSuffix::Byte => R_X86_64_8,
                DataSizeSuffix::Word => R_X86_64_16,
                DataSizeSuffix::Long => R_X86_64_32,
                _ => R_X86_64_32S,
            };
            return Ok(
                Some(Reloc { uses: used_symbols[0].clone(), offset: at, rtype, adjust: value as i32 }),
            );
        }
        let fits = match size {
            DataSizeSuffix::Byte => -0x80 <= value && value < 0x100,
            DataSizeSuffix::Word => -0x8000 <= value && value < 0x1_0000,
            DataSizeSuffix::Long => -0x8000_0000 <= value && value < 0x1_0000_0000,
            _ => -0x8000_0000 <= value && value < 0x8000_0000,
        };
        if !fits {
            return Err(AsmError::new(ErrorKind::InvalidOperand));
        }
        push_le(&mut self.current_instr.code, as_unsigned(value), width);
        Ok(None)
    }

    /// Appends the code of `mov src, dst` to the instruction under
    /// construction.
    pub(crate) fn mov(&mut self, size: DataSizeSuffix, src: &Expr, dst: &Expr) -> (r: Result<
        Option<Reloc>,
        AsmError,
    >)
        requires
            old(self).current_instr@.code.len() == 0,
        ensures
            final(self)@ == old(self)@,
            encoded_as(
                old(self).current_instr@,
                final(self).current_instr@,
                r,
                mov_code(size, src@, dst@),
            ),
    {
        if !integer_size(size) {
            return Err(AsmError::new(ErrorKind::InvalidOperand));
        }
        let ghost start = self.current_instr@;
        match (src, dst) {
            (Expr::Register(s), Expr::Register(d)) => {
                if s.size != size || d.size != size {
                    return Err(AsmError::new(ErrorKind::InvalidOperand));
                }
                let sizes = [size];
                assert(sizes@ =~= seq![size]);
                self.add_prefix(*s, Register::default(), *d, sizes.as_slice());
                let opcode: u8 = match size {
                    DataSizeSuffix::Byte => 0x88,
                    _ => 0x89,
                };
                self.current_instr.code.push(opcode);
                self.current_instr.code.push(
                    compose_mod_rm(MOD_REGI, s.base_offset % 8, d.base_offset % 8),
                );
                assert(self.current_instr@.code =~= start.code + mov_code(
                    size,
                    src@,
                    dst@,
                )->Ok_0.code);
                Ok(None)
            },
            (Expr::Immediate(e), Expr::Register(d)) => {
                if d.size != size {
                    return Err(AsmError::new(ErrorKind::InvalidOperand));
                }
                let sizes = [size];
                assert(sizes@ =~= seq![size]);
                self.add_prefix(Register::default(), Register::default(), *d, sizes.as_slice());
                let opcode: u8 = match size {
                    DataSizeSuffix::Byte => 0xc6,
                    _ => 0xc7,
                };
                self.current_instr.code.push(opcode);
                self.current_instr.code.push(compose_mod_rm(MOD_REGI, 0, d.base_offset % 8));
                let ghost head = prefix_bytes(no_register(), no_register(), *d, seq![size]) + seq![
                    opcode,
                    (MOD_REGI * 64 + d.base_offset % 8) as u8,
                ];
                assert(self.current_instr@.code =~= start.code + head);
                let ghost middle = self.current_instr@;
                let reloc = self.imm(size, e)?;
                proof {
                    let imm = imm_code(size, e@, middle.code.len() as int)->Ok_0;
                    assert(self.current_instr@.code =~= start.code + (head + imm.code));
                }
                Ok(reloc)
            },
            (Expr::Register(s), Expr::Indirection { .. }) => {
                if s.size != size {
                    return Err(AsmError::new(ErrorKind::InvalidOperand));
                }
                let opcode: [u8; 1] = match size {
                    DataSizeSuffix::Byte => [0x88],
                    _ => [0x89],
                };
                assert(opcode@ =~= seq![
                    if size is Byte {
                        0x88u8
                    } else {
                        0x89u8
                    },
                ]);
                self.reg_mem(opcode.as_slice(), size, *s, dst)
            },
            (Expr::Indirection { .. }, Expr::Register(d)) => {
                if d.size != size {
                    return Err(AsmError::new(ErrorKind::InvalidOperand));
                }
                let opcode: [u8; 1] = match size {
                    DataSizeSuffix::Byte => [0x8a],
                    _ => [0x8b],
                };
                assert(opcode@ =~= seq![
                    if size is Byte {
                        0x8au8
                    } else {
                        0x8bu8
                    },
                ]);
                self.reg_mem(opcode.as_slice(), size, *d, src)
            },
            (Expr::Immediate(e), Expr::Indirection { .. }) => self.imm_mem(size, e, dst),
            _ => Err(AsmError::new(ErrorKind::InvalidOperand)),
        }
    }

    /// Appends the code of an instruction with a register and a memory
    /// operand to the instruction under construction.
    pub(crate) fn reg_mem(
        &mut self,
        opcode: &[u8],
        size: DataSizeSuffix,
        r: Register,
        mem: &Expr,
    ) -> (res: Result<Option<Reloc>, AsmError>)
        requires
            old(self).current_instr@.code.len() == 0,
        ensures
            final(self)@ == old(self)@,
            encoded_as(
                old(self).current_instr@,
                final(self).current_instr@,
                res,
                reg_mem_code(opcode@, size, r, mem@),
            ),
    {
        let ghost start = self.current_instr@;
        let m = memory_operand(mem)?;
        let sizes = [size];
        assert(sizes@ =~= seq![size]);
        self.add_prefix(r, index_or_none(&m), base_or_none(&m), sizes.as_slice());
        crate::text::append_bytes(&mut self.current_instr.code, opcode);
        let ghost head = prefix_bytes(r, or_none(m@.index), or_none(m@.base), seq![size])
            + opcode@;
        assert(self.current_instr@.code =~= start.code + head);
        let reloc = push_mem(&mut self.current_instr.code, r.base_offset % 8, &m);
        proof {
            let tail = mem_code(r.base_offset % 8, m@, head.len() as int);
            assert(self.current_instr@.code =~= start.code + (head + tail.code));
        }
        Ok(reloc)
    }

    /// Appends the code of `mov` from an immediate to memory to the
    /// instruction under construction.
    pub(crate) fn imm_mem(&mut self, size: DataSizeSuffix, e: &Expr, mem: &Expr) -> (res: Result<
        Option<Reloc>,
        AsmError,
    >)
        requires
            old(self).current_instr@.code.len() == 0,
        ensures
            final(self)@ == old(self)@,
            encoded_as(
                old(self).current_instr@,
                final(self).current_instr@,
                res,
                imm_mem_code(size, e@, mem@),
            ),
    {
        let ghost start = self.current_instr@;
        let m = memory_operand(mem)?;
        let sizes = [size];
        assert(sizes@ =~= seq![size]);
        self.add_prefix(Register::default(), index_or_none(&m), base_or_none(&m), sizes.as_slice());
        let opcode: u8 = match size {
            DataSizeSuffix::Byte => 0xc6,
            _ => 0xc7,
        };
        self.current_instr.code.push(opcode);
        let ghost head = prefix_bytes(
            no_register(),
            or_none(m@.index),
            or_none(m@.base),
            seq![size],
        ) + seq![opcode];
        assert(self.current_instr@.code =~= start.code + head);
        let first = push_mem(&mut self.current_instr.code, 0, &m);
        let ghost middle = mem_code(0, m@, head.len() as int);
        assert(self.current_instr@.code =~= start.code + (head + middle.code));
        let second = self.imm(size, e)?;
        proof {
            let imm = imm_code(size, e@, (head.len() + middle.code.len()) as int)->Ok_0;
            assert(self.current_instr@.code =~= start.code + (head + middle.code + imm.code));
        }
        if first.is_some() && second.is_some() {
            return Err(AsmError::new(ErrorKind::AmbiguousRelocation));
        }
        if first.is_some() {
            Ok(first)
        } else {
            Ok(second)
        }
    }

    /// Appends the code of `lea src, dst` to the instruction under
    /// construction.
    pub(crate) fn lea(&mut self, size: DataSizeSuffix, src: &Expr, dst: &Expr) -> (res: Result<
        Option<Reloc>,
        AsmError,
    >)
        requires
            old(self).current_instr@.code.len() == 0,
        ensures
            final(self)@ == old(self)@,
            encoded_as(
                old(self).current_instr@,
                final(self).current_instr@,
                res,
                lea_code(size, src@, dst@),
            ),
    {
        match dst {
            Expr::Register(d) => {
                let sized = match size {
                    DataSizeSuffix::Word | DataSizeSuffix::Long | DataSizeSuffix::Quad => true,
                    _ => false,
                };
                if d.size != size || !sized {
                    return Err(AsmError::new(ErrorKind::InvalidOperand));
                }
                let opcode: [u8; 1] = [0x8d];
                assert(opcode@ =~= seq![0x8du8]);
                self.reg_mem(opcode.as_slice(), size, *d, src)
            },
            _ => Err(AsmError::new(ErrorKind::InvalidOperand)),
        }
    }

    /// Appends the code of `movss` or `movsd` to the instruction under
    /// construction.
    pub(crate) fn scalar_mov(&mut self, size: DataSizeSuffix, src: &Expr, dst: &Expr) -> (res:
        Result<Option<Reloc>, AsmError>)
        requires
            old(self).current_instr@.code.len() == 0,
        ensures
            final(self)@ == old(self)@,
            encoded_as(
                old(self).current_instr@,
                final(self).current_instr@,
                res,
                scalar_mov_code(size, src@, dst@),
            ),
    {
        let scalar = match size {
            DataSizeSuffix::Single | DataSizeSuffix::Double => true,
            _ => false,
        };
        if !scalar {
            return Err(AsmError::new(ErrorKind::InvalidOperand));
        }
        let ghost start = self.current_instr@;
        match (src, dst) {
            (Expr::Xmm(s), Expr::Xmm(d)) => {
                let sizes = [size];
                assert(sizes@ =~= seq![size]);
                self.add_prefix(*d, Register::default(), *s, sizes.as_slice());
                self.current_instr.code.push(0x0f);
                self.current_instr.code.push(0x10);
                self.current_instr.code.push(
                    compose_mod_rm(MOD_REGI, d.base_offset % 8, s.base_offset % 8),
                );
                assert(self.current_instr@.code =~= start.code + scalar_mov_code(
                    size,
                    src@,
                    dst@,
                )->Ok_0.code);
                Ok(None)
            },
            (Expr::Indirection { .. }, Expr::Xmm(d)) => {
                let opcode: [u8; 2] = [0x0f, 0x10];
                assert(opcode@ =~= seq![0x0fu8, 0x10u8]);
                self.reg_mem(opcode.as_slice(), size, *d, src)
            },
            (Expr::Xmm(s), Expr::Indirection { .. }) => {
                let opcode: [u8; 2] = [0x0f, 0x11];
                assert(opcode@ =~= seq![0x0fu8, 0x11u8]);
                self.reg_mem(opcode.as_slice(), size, *s, dst)
            },
            _ => Err(AsmError::new(ErrorKind::InvalidOperand)),
        }
    }

    /// Appends the code of `push src` to the instruction under
    /// construction.
    pub(crate) fn push(&mut self, src: &Expr) -> (r: Result<Option<Reloc>, AsmError>)
        requires
            old(self).current_instr@.code.len() == 0,
        ensures
            final(self)@ == old(self)@,
            encoded_as(old(self).current_instr@, final(self).current_instr@, r, push_code(src@)),
    {
        let ghost start = self.current_instr@;
        match src {
            Expr::Register(reg) => {
                if reg.size != DataSizeSuffix::Quad {
                    return Err(AsmError::new(ErrorKind::InvalidOperand));
                }
                let sizes: [DataSizeSuffix; 0] = [];
                assert(sizes@ =~= Seq::<DataSizeSuffix>::empty());
                self.add_prefix(Register::default(), Register::default(), *reg, sizes.as_slice());
                self.current_instr.code.push(0x50 + reg.base_offset % 8);
                assert(self.current_instr@.code =~= start.code + push_code(src@)->Ok_0.code);
                Ok(None)
            },
            Expr::Immediate(imm) => {
                let mut used_symbols: Vec<String> = Vec::new();
                let imm_val = eval_expr_get_symbol_64(imm, &mut used_symbols)?;
                assert(string_views(used_symbols@) =~= spec_eval(imm@)->Ok_0.1);
                if used_symbols.len() == 0 && -0x80 <= imm_val && imm_val < 0x80 {
                    self.current_instr.code.push(0x6a);
                    push_le(&mut self.current_instr.code, as_unsigned(imm_val), 1);
                    assert(self.current_instr@.code =~= start.code + (seq![0x6au8] + le_bytes(
                        twos_complement_64(imm_val as int),
                        1,
                    )));
                    return Ok(None);
                }
                self.current_instr.code.push(0x68);
                let reloc = self.imm(DataSizeSuffix::Quad, imm)?;
                proof {
                    let tail = imm_code(DataSizeSuffix::Quad, imm@, 1)->Ok_0;
                    assert(self.current_instr@.code =~= start.code + (seq![0x68u8] + tail.code));
                }
                Ok(reloc)
            },
            _ => Err(AsmError::new(ErrorKind::InvalidOperand)),
        }
    }

    /// Appends the code of `pop dst` to the instruction under
    /// construction.
    pub(crate) fn pop(&mut self, dst: &Expr) -> (r: Result<Option<Reloc>, AsmError>)
        requires
            old(self).current_instr@.code.len() == 0,
        ensures
            final(self)@ == old(self)@,
            encoded_as(old(self).current_instr@, final(self).current_instr@, r, pop_code(dst@)),
    {
        let ghost start = self.current_instr@;
        match dst {
            Expr::Register(reg) => {
                if reg.size != DataSizeSuffix::Quad {
                    return Err(AsmError::new(ErrorKind::InvalidOperand));
                }
                let sizes: [DataSizeSuffix; 0] = [];
                assert(sizes@ =~= Seq::<DataSizeSuffix>::empty());
                self.add_prefix(Register::default(), Register::default(), *reg, sizes.as_slice());
                self.current_instr.code.push(0x58 + reg.base_offset % 8);
                assert(self.current_instr@.code =~= start.code + pop_code(dst@)->Ok_0.code);
                Ok(None)
            },
            _ => Err(AsmError::new(ErrorKind::InvalidOperand)),
        }
    }
}

impl EncoderView {
    /// Whether the symbol `name` is known as a local label of the
    /// current section: it is defined, in this section, and not global.
    pub open spec fn local_target(self, name: Seq<char>) -> Option<InstrView> {
        match symbol_names(self.ctx.symbols).index_of_first(name) {
            Some(k) => if self.ctx.symbols[k].section == self.current_section_name
                && self.ctx.symbols[k].binding != STB_GLOBAL {
                Some(self.ctx.symbols[k])
            } else {
                None
            },
            None => None,
        }
    }

    /// The code of a jump or call. Through a register, `*reg`: the REX
    /// prefix if needed, 0xff and a ModRM byte with the opcode extension
    /// `ext`. To a symbol: the opcode and a 32-bit displacement. The
    /// displacement of a symbol that is already known as a local label
    /// of the current section is written out, counted from the end of
    /// the five-byte instruction. Any other symbol leaves it zero and
    /// asks for a PC32 relocation.
    pub open spec fn branch_code(self, opcode: u8, ext: u8, target: ExprView) -> Result<
        Encoded,
        ErrorKind,
    > {
        match target {
            ExprView::Star(inner) => match *inner {
                ExprView::Register(r) => if r.size != DataSizeSuffix::Quad {
                    Err(ErrorKind::InvalidOperand)
                } else {
                    Ok(
                        Encoded {
                            code: prefix_bytes(no_register(), no_register(), r, Seq::empty())
                                + seq![
                                0xffu8,
                                (MOD_REGI * 64 + ext * 8 + r.base_offset % 8) as u8,
                            ],
                            reloc: None,
                        },
                    )
                },
                _ => Err(ErrorKind::InvalidOperand),
            },
            ExprView::Ident(_) | ExprView::Number(_) | ExprView::Neg(_) | ExprView::Binop {
                ..
            } => match spec_eval(target) {
                Err(k) => Err(k),
                Ok((v, names)) => if names.len() >= 2 {
                    Err(ErrorKind::AmbiguousRelocation)
                } else if names.len() == 0 {
                    Err(ErrorKind::InvalidOperand)
                } else if !(i32::MIN <= v <= i32::MAX) {
                    Err(ErrorKind::TooLarge)
                } else {
                    match self.local_target(names[0]) {
                        Some(symbol) => {
                            let d = symbol.addr - (self.cursor() + 5) + v;
                            if !(i32::MIN <= d <= i32::MAX) {
                                Err(ErrorKind::TooLarge)
                            } else {
                                Ok(
                                    Encoded {
                                        code: seq![opcode] + le_bytes(twos_complement_32(d), 4),
                                        reloc: None,
                                    },
                                )
                            }
                        },
                        None => Ok(
                            Encoded {
                                code: seq![opcode] + le_bytes(0, 4),
                                reloc: Some(
                                    RelocView {
                                        uses: names[0],
                                        offset: 1,
                                        rtype: R_X86_64_PC32,
                                        adjust: v as i32,
                                    },
                                ),
                            },
                        ),
                    }
                },
            },
            _ => Err(ErrorKind::InvalidOperand),
        }
    }

    /// The state after an instruction was emitted together with the
    /// relocation it asks for.
    pub open spec fn finish(self, instr: InstrView, reloc: Option<RelocView>) -> Result<
        EncoderView,
        AsmError,
    > {
        match self.emit(instr) {
            Err(k) => Err(error_at(k, instr.loc)),
            Ok(v) => match reloc {
                None => Ok(v),
                Some(r) => Ok(
                    v.record_relocation(
                        RelaView {
                            uses: r.uses,
                            instr: self.placed(instr),
                            offset: r.offset,
                            rtype: r.rtype,
                            adjust: r.adjust,
                            is_already_resolved: false,
                        },
                    ),
                ),
            },
        }
    }
}

impl Encoder {
    /// Appends the code of a jump or call to the instruction under
    /// construction.
    pub(crate) fn branch(&mut self, opcode: u8, ext: u8, target: &Expr) -> (r: Result<Option<Reloc>, AsmError>)
        requires
            old(self).current_instr@.code.len() == 0,
            ext <= 7,
        ensures
            final(self)@ == old(self)@,
            encoded_as(
                old(self).current_instr@,
                final(self).current_instr@,
                r,
                old(self)@.branch_code(opcode, ext, target@),
            ),
    {
        let ghost start = self.current_instr@;
        let ghost ev = self@;
        match target {
            Expr::Star(inner) => match &**inner {
                Expr::Register(reg) => {
                    assert(crate::encoder::arch::x86_64::expr_view(**inner) == ExprView::Register(
                        *reg,
                    ));
                    if reg.size != DataSizeSuffix::Quad {
                        return Err(AsmError::new(ErrorKind::InvalidOperand));
                    }
                    let sizes: [DataSizeSuffix; 0] = [];
                    assert(sizes@ =~= Seq::<DataSizeSuffix>::empty());
                    self.add_prefix(
                        Register::default(),
                        Register::default(),
                        *reg,
                        sizes.as_slice(),
                    );
                    self.current_instr.code.push(0xff);
                    self.current_instr.code.push(compose_mod_rm(MOD_REGI, ext, reg.base_offset % 8));
                    assert(self.current_instr@.code =~= start.code + ev.branch_code(
                        opcode,
                        ext,
                        target@,
                    )->Ok_0.code);
                    Ok(None)
                },
                _ => {
                    assert(!(crate::encoder::arch::x86_64::expr_view(**inner) is Register));
                    Err(AsmError::new(ErrorKind::InvalidOperand))
                },
            },
            Expr::Ident(_) | Expr::Number(_) | Expr::Neg(_) | Expr::Binop { .. } => {
                let mut used_symbols: Vec<String> = Vec::new();
                let value = eval_expr_get_symbol_64(target, &mut used_symbols)?;
                assert(string_views(used_symbols@) =~= spec_eval(target@)->Ok_0.1);
                if used_symbols.len() >= 2 {
                    return Err(AsmError::new(ErrorKind::AmbiguousRelocation));
                }
                if used_symbols.len() == 0 {
                    return Err(AsmError::new(ErrorKind::InvalidOperand));
                }
                if value < i32::MIN as i64 || value > i32::MAX as i64 {
                    return Err(AsmError::new(ErrorKind::TooLarge));
                }
                let known = match find_symbol(&self.ctx.symbols, &used_symbols[0]) {
                    Some(k) => {
                        assert(ev.ctx.symbols[k as int] == self.ctx.symbols@[k as int]@);
                        if self.ctx.symbols[k].section == self.current_section_name
                            && self.ctx.symbols[k].binding != STB_GLOBAL {
                            Some(self.ctx.symbols[k].addr)
                        } else {
                            None
                        }
                    },
                    None => None,
                };
                match known {
                    Some(addr) => {
                        let cursor = match find_section(
                            &self.ctx.sections,
                            &self.current_section_name,
                        ) {
                            Some(s) => {
                                assert(ev.ctx.sections[s as int] == self.ctx.sections@[s as int]@);
                                self.ctx.sections[s].addr
                            },
                            None => 0,
                        };
                        let d: i128 = addr as i128 - (cursor as i128 + 5) + value as i128;
                        if d < i32::MIN as i128 || d > i32::MAX as i128 {
                            return Err(AsmError::new(ErrorKind::TooLarge));
                        }
                        let word: u64 = if d < 0 {
                            (d + 0x1_0000_0000) as u64
                        } else {
                            d as u64
                        };
                        self.current_instr.code.push(opcode);
                        push_le(&mut self.current_instr.code, word, 4);
                        assert(self.current_instr@.code =~= start.code + (seq![opcode] + le_bytes(
                            twos_complement_32(d as int),
                            4,
                        )));
                        Ok(None)
                    },
                    None => {
                        self.current_instr.code.push(opcode);
                        push_le(&mut self.current_instr.code, 0, 4);
                        proof {
                            lemma_le_bytes_len(0, 4);
                        }
                        assert(self.current_instr@.code =~= start.code + (seq![opcode] + le_bytes(
                            0,
                            4,
                        )));
                        Ok(
                            Some(
                                Reloc {
                                    uses: used_symbols[0].clone(),
                                    offset: 1,
                                    rtype: R_X86_64_PC32,
                                    adjust: value as i32,
                                },
                            ),
                        )
                    },
                }
            },
            _ => Err(AsmError::new(ErrorKind::InvalidOperand)),
        }
    }

    /// Emits the instruction under construction and records the
    /// relocation it asks for.
    pub(crate) fn finish(&mut self, reloc: Option<Reloc>) -> (r: Result<(), AsmError>)
        requires
            old(self).wf(),
            reloc matches Some(rel) ==> rel.offset <= old(self).current_instr@.code.len(),
        ensures
            final(self).wf(),
            match old(self)@.finish(old(self).current_instr@, reloc_view(reloc)) {
                Ok(v) => r is Ok && final(self)@ == v,
                Err(e) => r == Err::<(), AsmError>(e),
            },
    {
        self.emit()?;
        match reloc {
            None => Ok(()),
            Some(rel) => {
                let rela = Rela {
                    uses: rel.uses,
                    instr: self.current_instr.duplicate(),
                    offset: rel.offset,
                    rtype: rel.rtype,
                    adjust: rel.adjust,
                    is_already_resolved: false,
                };
                self.record_relocation(rela);
                Ok(())
            },
        }
    }
}

} // verus!
