//! The register table: every general-purpose register under its 8-,
//! 16-, 32- and 64-bit names, the instruction pointer, and the XMM
//! registers. Names are upper case.

use crate::error::{AsmError, ErrorKind};
use crate::text::str_eq;
use vstd::prelude::*;

verus! {

/// The operand size that a register or a mnemonic suffix selects.
#[derive(Clone, Debug, Copy, Default, PartialEq, Eq, PartialOrd, Ord, Structural)]
pub enum DataSizeSuffix {
    Byte,
    Word,
    Long,
    Quad,
    /// Scalar single-precision SIMD.
    Single,
    /// Scalar double-precision SIMD.
    Double,
    #[default]
    Unknown,
}

/// A register: its name, its width, its number and whether it can only
/// be encoded with a REX prefix.
#[derive(Clone, Copy, Debug, PartialEq, Eq)]
pub struct Register {
    pub lit: &'static str,
    pub size: DataSizeSuffix,
    pub base_offset: u8,
    /// Need rex prefix?
    pub rex_required: bool,
}

impl Default for Register {
    /// Stands for "no register": number 0, no width, no REX demand.
    fn default() -> (r: Register)
        ensures
            r == no_register(),
    {
        Register { lit: "", size: DataSizeSuffix::Unknown, base_offset: 0, rex_required: false }
    }
}

/// The value that stands for "no register".
pub open spec fn no_register() -> Register {
    Register { lit: "", size: DataSizeSuffix::Unknown, base_offset: 0, rex_required: false }
}

/// The general-purpose registers and the instruction pointer.
pub open spec fn spec_general_registers() -> Seq<Register> {
    seq![
        Register { lit: "RAX", size: DataSizeSuffix::Quad, base_offset: 0, rex_required: false },
        Register { lit: "RCX", size: DataSizeSuffix::Quad, base_offset: 1, rex_required: false },
        Register { lit: "RDX", size: DataSizeSuffix::Quad, base_offset: 2, rex_required: false },
        Register { lit: "RBX", size: DataSizeSuffix::Quad, base_offset: 3, rex_required: false },
        Register { lit: "RSP", size: DataSizeSuffix::Quad, base_offset: 4, rex_required: false },
        Register { lit: "RBP", size: DataSizeSuffix::Quad, base_offset: 5, rex_required: false },
        Register { lit: "RSI", size: DataSizeSuffix::Quad, base_offset: 6, rex_required: false },
        Register { lit: "RDI", size: DataSizeSuffix::Quad, base_offset: 7, rex_required: false },
        Register { lit: "R8", size: DataSizeSuffix::Quad, base_offset: 8, rex_required: false },
        Register { lit: "R9", size: DataSizeSuffix::Quad, base_offset: 9, rex_required: false },
        Register { lit: "R10", size: DataSizeSuffix::Quad, base_offset: 10, rex_required: false },
        Register { lit: "R11", size: DataSizeSuffix::Quad, base_offset: 11, rex_required: false },
        Register { lit: "R12", size: DataSizeSuffix::Quad, base_offset: 12, rex_required: false },
        Register { lit: "R13", size: DataSizeSuffix::Quad, base_offset: 13, rex_required: false },
        Register { lit: "R14", size: DataSizeSuffix::Quad, base_offset: 14, rex_required: false },
        Register { lit: "R15", size: DataSizeSuffix::Quad, base_offset: 15, rex_required: false },
        Register { lit: "EAX", size: DataSizeSuffix::Long, base_offset: 0, rex_required: false },
        Register { lit: "ECX", size: DataSizeSuffix::Long, base_offset: 1, rex_required: false },
        Register { lit: "EDX", size: DataSizeSuffix::Long, base_offset: 2, rex_required: false },
        Register { lit: "EBX", size: DataSizeSuffix::Long, base_offset: 3, rex_required: false },
        Register { lit: "ESP", size: DataSizeSuffix::Long, base_offset: 4, rex_required: false },
        Register { lit: "EBP", size: DataSizeSuffix::Long, base_offset: 5, rex_required: false },
        Register { lit: "ESI", size: DataSizeSuffix::Long, base_offset: 6, rex_required: false },
        Register { lit: "EDI", size: DataSizeSuffix::Long, base_offset: 7, rex_required: false },
        Register { lit: "R8D", size: DataSizeSuffix::Long, base_offset: 8, rex_required: false },
        Register { lit: "R9D", size: DataSizeSuffix::Long, base_offset: 9, rex_required: false },
        Register { lit: "R10D", size: DataSizeSuffix::Long, base_offset: 10, rex_required: false },
        Register { lit: "R11D", size: DataSizeSuffix::Long, base_offset: 11, rex_required: false },
        Register { lit: "R12D", size: DataSizeSuffix::Long, base_offset: 12, rex_required: false },
        Register { lit: "R13D", size: DataSizeSuffix::Long, base_offset: 13, rex_required: false },
        Register { lit: "R14D", size: DataSizeSuffix::Long, base_offset: 14, rex_required: false },
        Register { lit: "R15D", size: DataSizeSuffix::Long, base_offset: 15, rex_required: false },
        Register { lit: "AX", size: DataSizeSuffix::Word, base_offset: 0, rex_required: false },
        Register { lit: "CX", size: DataSizeSuffix::Word, base_offset: 1, rex_required: false },
        Register { lit: "DX", size: DataSizeSuffix::Word, base_offset: 2, rex_required: false },
        Register { lit: "BX", size: DataSizeSuffix::Word, base_offset: 3, rex_required: false },
        Register { lit: "SP", size: DataSizeSuffix::Word, base_offset: 4, rex_required: false },
        Register { lit: "BP", size: DataSizeSuffix::Word, base_offset: 5, rex_required: false },
        Register { lit: "SI", size: DataSizeSuffix::Word, base_offset: 6, rex_required: false },
        Register { lit: "DI", size: DataSizeSuffix::Word, base_offset: 7, rex_required: false },
        Register { lit: "R8W", size: DataSizeSuffix::Word, base_offset: 8, rex_required: false },
        Register { lit: "R9W", size: DataSizeSuffix::Word, base_offset: 9, rex_required: false },
        Register { lit: "R10W", size: DataSizeSuffix::Word, base_offset: 10, rex_required: false },
        Register { lit: "R11W", size: DataSizeSuffix::Word, base_offset: 11, rex_required: false },
        Register { lit: "R12W", size: DataSizeSuffix::Word, base_offset: 12, rex_required: false },
        Register { lit: "R13W", size: DataSizeSuffix::Word, base_offset: 13, rex_required: false },
        Register { lit: "R14W", size: DataSizeSuffix::Word, base_offset: 14, rex_required: false },
        Register { lit: "R15W", size: DataSizeSuffix::Word, base_offset: 15, rex_required: false },
        Register { lit: "AL", size: DataSizeSuffix::Byte, base_offset: 0, rex_required: false },
        Register { lit: "CL", size: DataSizeSuffix::Byte, base_offset: 1, rex_required: false },
        Register { lit: "DL", size: DataSizeSuffix::Byte, base_offset: 2, rex_required: false },
        Register { lit: "BL", size: DataSizeSuffix::Byte, base_offset: 3, rex_required: false },
        Register { lit: "AH", size: DataSizeSuffix::Byte, base_offset: 4, rex_required: false },
        Register { lit: "BP", size: DataSizeSuffix::Byte, base_offset: 5, rex_required: false },
        Register { lit: "CH", size: DataSizeSuffix::Byte, base_offset: 5, rex_required: false },
        Register { lit: "DH", size: DataSizeSuffix::Byte, base_offset: 6, rex_required: false },
        Register { lit: "BH", size: DataSizeSuffix::Byte, base_offset: 7, rex_required: false },
        Register { lit: "SPL", size: DataSizeSuffix::Byte, base_offset: 4, rex_required: true },
        Register { lit: "BPL", size: DataSizeSuffix::Byte, base_offset: 5, rex_required: true },
        Register { lit: "SIL", size: DataSizeSuffix::Byte, base_offset: 6, rex_required: true },
        Register { lit: "DIL", size: DataSizeSuffix::Byte, base_offset: 7, rex_required: true },
        Register { lit: "R8B", size: DataSizeSuffix::Byte, base_offset: 8, rex_required: false },
        Register { lit: "R9B", size: DataSizeSuffix::Byte, base_offset: 9, rex_required: false },
        Register { lit: "R10B", size: DataSizeSuffix::Byte, base_offset: 10, rex_required: false },
        Register { lit: "R11B", size: DataSizeSuffix::Byte, base_offset: 11, rex_required: false },
        Register { lit: "R12B", size: DataSizeSuffix::Byte, base_offset: 12, rex_required: false },
        Register { lit: "R13B", size: DataSizeSuffix::Byte, base_offset: 13, rex_required: false },
        Register { lit: "R14B", size: DataSizeSuffix::Byte, base_offset: 14, rex_required: false },
        Register { lit: "R15B", size: DataSizeSuffix::Byte, base_offset: 15, rex_required: false },
        Register { lit: "RIP", size: DataSizeSuffix::Quad, base_offset: 0, rex_required: false },
        Register { lit: "EIP", size: DataSizeSuffix::Long, base_offset: 0, rex_required: false },
        Register { lit: "IP", size: DataSizeSuffix::Word, base_offset: 0, rex_required: false },
    ]
}

/// The XMM registers.
pub open spec fn spec_xmm_registers() -> Seq<Register> {
    seq![
        Register { lit: "XMM0", size: DataSizeSuffix::Unknown, base_offset: 0, rex_required: false },
        Register { lit: "XMM1", size: DataSizeSuffix::Unknown, base_offset: 1, rex_required: false },
        Register { lit: "XMM2", size: DataSizeSuffix::Unknown, base_offset: 2, rex_required: false },
        Register { lit: "XMM3", size: DataSizeSuffix::Unknown, base_offset: 3, rex_required: false },
        Register { lit: "XMM4", size: DataSizeSuffix::Unknown, base_offset: 4, rex_required: false },
        Register { lit: "XMM5", size: DataSizeSuffix::Unknown, base_offset: 5, rex_required: false },
        Register { lit: "XMM6", size: DataSizeSuffix::Unknown, base_offset: 6, rex_required: false },
        Register { lit: "XMM7", size: DataSizeSuffix::Unknown, base_offset: 7, rex_required: false },
        Register { lit: "XMM8", size: DataSizeSuffix::Unknown, base_offset: 8, rex_required: false },
        Register { lit: "XMM9", size: DataSizeSuffix::Unknown, base_offset: 9, rex_required: false },
        Register { lit: "XMM10", size: DataSizeSuffix::Unknown, base_offset: 10, rex_required: false },
        Register { lit: "XMM11", size: DataSizeSuffix::Unknown, base_offset: 11, rex_required: false },
        Register { lit: "XMM12", size: DataSizeSuffix::Unknown, base_offset: 12, rex_required: false },
        Register { lit: "XMM13", size: DataSizeSuffix::Unknown, base_offset: 13, rex_required: false },
        Register { lit: "XMM14", size: DataSizeSuffix::Unknown, base_offset: 14, rex_required: false },
        Register { lit: "XMM15", size: DataSizeSuffix::Unknown, base_offset: 15, rex_required: false },
    ]
}

/// The first register of `table` whose name is `name`.
pub open spec fn lookup_register(table: Seq<Register>, name: Seq<char>) -> Option<Register> {
    match table.map_values(|r: Register| r.lit@).index_of_first(name) {
        Some(i) => Some(table[i]),
        None => None,
    }
}

/// The table of general-purpose registers.
pub fn general_registers() -> (table: Vec<Register>)
    ensures
        table@ == spec_general_registers(),
{
    let table = vec![
        Register { lit: "RAX", size: DataSizeSuffix::Quad, base_offset: 0, rex_required: false },
        Register { lit: "RCX", size: DataSizeSuffix::Quad, base_offset: 1, rex_required: false },
        Register { lit: "RDX", size: DataSizeSuffix::Quad, base_offset: 2, rex_required: false },
        Register { lit: "RBX", size: DataSizeSuffix::Quad, base_offset: 3, rex_required: false },
        Register { lit: "RSP", size: DataSizeSuffix::Quad, base_offset: 4, rex_required: false },
        Register { lit: "RBP", size: DataSizeSuffix::Quad, base_offset: 5, rex_required: false },
        Register { lit: "RSI", size: DataSizeSuffix::Quad, base_offset: 6, rex_required: false },
        Register { lit: "RDI", size: DataSizeSuffix::Quad, base_offset: 7, rex_required: false },
        Register { lit: "R8", size: DataSizeSuffix::Quad, base_offset: 8, rex_required: false },
        Register { lit: "R9", size: DataSizeSuffix::Quad, base_offset: 9, rex_required: false },
        Register { lit: "R10", size: DataSizeSuffix::Quad, base_offset: 10, rex_required: false },
        Register { lit: "R11", size: DataSizeSuffix::Quad, base_offset: 11, rex_required: false },
        Register { lit: "R12", size: DataSizeSuffix::Quad, base_offset: 12, rex_required: false },
        Register { lit: "R13", size: DataSizeSuffix::Quad, base_offset: 13, rex_required: false },
        Register { lit: "R14", size: DataSizeSuffix::Quad, base_offset: 14, rex_required: false },
        Register { lit: "R15", size: DataSizeSuffix::Quad, base_offset: 15, rex_required: false },
        Register { lit: "EAX", size: DataSizeSuffix::Long, base_offset: 0, rex_required: false },
        Register { lit: "ECX", size: DataSizeSuffix::Long, base_offset: 1, rex_required: false },
        Register { lit: "EDX", size: DataSizeSuffix::Long, base_offset: 2, rex_required: false },
        Register { lit: "EBX", size: DataSizeSuffix::Long, base_offset: 3, rex_required: false },
        Register { lit: "ESP", size: DataSizeSuffix::Long, base_offset: 4, rex_required: false },
        Register { lit: "EBP", size: DataSizeSuffix::Long, base_offset: 5, rex_required: false },
        Register { lit: "ESI", size: DataSizeSuffix::Long, base_offset: 6, rex_required: false },
        Register { lit: "EDI", size: DataSizeSuffix::Long, base_offset: 7, rex_required: false },
        Register { lit: "R8D", size: DataSizeSuffix::Long, base_offset: 8, rex_required: false },
        Register { lit: "R9D", size: DataSizeSuffix::Long, base_offset: 9, rex_required: false },
        Register { lit: "R10D", size: DataSizeSuffix::Long, base_offset: 10, rex_required: false },
        Register { lit: "R11D", size: DataSizeSuffix::Long, base_offset: 11, rex_required: false },
        Register { lit: "R12D", size: DataSizeSuffix::Long, base_offset: 12, rex_required: false },
        Register { lit: "R13D", size: DataSizeSuffix::Long, base_offset: 13, rex_required: false },
        Register { lit: "R14D", size: DataSizeSuffix::Long, base_offset: 14, rex_required: false },
        Register { lit: "R15D", size: DataSizeSuffix::Long, base_offset: 15, rex_required: false },
        Register { lit: "AX", size: DataSizeSuffix::Word, base_offset: 0, rex_required: false },
        Register { lit: "CX", size: DataSizeSuffix::Word, base_offset: 1, rex_required: false },
        Register { lit: "DX", size: DataSizeSuffix::Word, base_offset: 2, rex_required: false },
        Register { lit: "BX", size: DataSizeSuffix::Word, base_offset: 3, rex_required: false },
        Register { lit: "SP", size: DataSizeSuffix::Word, base_offset: 4, rex_required: false },
        Register { lit: "BP", size: DataSizeSuffix::Word, base_offset: 5, rex_required: false },
        Register { lit: "SI", size: DataSizeSuffix::Word, base_offset: 6, rex_required: false },
        Register { lit: "DI", size: DataSizeSuffix::Word, base_offset: 7, rex_required: false },
        Register { lit: "R8W", size: DataSizeSuffix::Word, base_offset: 8, rex_required: false },
        Register { lit: "R9W", size: DataSizeSuffix::Word, base_offset: 9, rex_required: false },
        Register { lit: "R10W", size: DataSizeSuffix::Word, base_offset: 10, rex_required: false },
        Register { lit: "R11W", size: DataSizeSuffix::Word, base_offset: 11, rex_required: false },
        Register { lit: "R12W", size: DataSizeSuffix::Word, base_offset: 12, rex_required: false },
        Register { lit: "R13W", size: DataSizeSuffix::Word, base_offset: 13, rex_required: false },
        Register { lit: "R14W", size: DataSizeSuffix::Word, base_offset: 14, rex_required: false },
        Register { lit: "R15W", size: DataSizeSuffix::Word, base_offset: 15, rex_required: false },
        Register { lit: "AL", size: DataSizeSuffix::Byte, base_offset: 0, rex_required: false },
        Register { lit: "CL", size: DataSizeSuffix::Byte, base_offset: 1, rex_required: false },
        Register { lit: "DL", size: DataSizeSuffix::Byte, base_offset: 2, rex_required: false },
        Register { lit: "BL", size: DataSizeSuffix::Byte, base_offset: 3, rex_required: false },
        Register { lit: "AH", size: DataSizeSuffix::Byte, base_offset: 4, rex_required: false },
        Register { lit: "BP", size: DataSizeSuffix::Byte, base_offset: 5, rex_required: false },
        Register { lit: "CH", size: DataSizeSuffix::Byte, base_offset: 5, rex_required: false },
        Register { lit: "DH", size: DataSizeSuffix::Byte, base_offset: 6, rex_required: false },
        Register { lit: "BH", size: DataSizeSuffix::Byte, base_offset: 7, rex_required: false },
        Register { lit: "SPL", size: DataSizeSuffix::Byte, base_offset: 4, rex_required: true },
        Register { lit: "BPL", size: DataSizeSuffix::Byte, base_offset: 5, rex_required: true },
        Register { lit: "SIL", size: DataSizeSuffix::Byte, base_offset: 6, rex_required: true },
        Register { lit: "DIL", size: DataSizeSuffix::Byte, base_offset: 7, rex_required: true },
        Register { lit: "R8B", size: DataSizeSuffix::Byte, base_offset: 8, rex_required: false },
        Register { lit: "R9B", size: DataSizeSuffix::Byte, base_offset: 9, rex_required: false },
        Register { lit: "R10B", size: DataSizeSuffix::Byte, base_offset: 10, rex_required: false },
        Register { lit: "R11B", size: DataSizeSuffix::Byte, base_offset: 11, rex_required: false },
        Register { lit: "R12B", size: DataSizeSuffix::Byte, base_offset: 12, rex_required: false },
        Register { lit: "R13B", size: DataSizeSuffix::Byte, base_offset: 13, rex_required: false },
        Register { lit: "R14B", size: DataSizeSuffix::Byte, base_offset: 14, rex_required: false },
        Register { lit: "R15B", size: DataSizeSuffix::Byte, base_offset: 15, rex_required: false },
        Register { lit: "RIP", size: DataSizeSuffix::Quad, base_offset: 0, rex_required: false },
        Register { lit: "EIP", size: DataSizeSuffix::Long, base_offset: 0, rex_required: false },
        Register { lit: "IP", size: DataSizeSuffix::Word, base_offset: 0, rex_required: false },
    ];
    assert(table@ =~= spec_general_registers());
    table
}

/// The table of XMM registers.
pub fn xmm_registers() -> (table: Vec<Register>)
    ensures
        table@ == spec_xmm_registers(),
{
    let table = vec![
        Register { lit: "XMM0", size: DataSizeSuffix::Unknown, base_offset: 0, rex_required: false },
        Register { lit: "XMM1", size: DataSizeSuffix::Unknown, base_offset: 1, rex_required: false },
        Register { lit: "XMM2", size: DataSizeSuffix::Unknown, base_offset: 2, rex_required: false },
        Register { lit: "XMM3", size: DataSizeSuffix::Unknown, base_offset: 3, rex_required: false },
        Register { lit: "XMM4", size: DataSizeSuffix::Unknown, base_offset: 4, rex_required: false },
        Register { lit: "XMM5", size: DataSizeSuffix::Unknown, base_offset: 5, rex_required: false },
        Register { lit: "XMM6", size: DataSizeSuffix::Unknown, base_offset: 6, rex_required: false },
        Register { lit: "XMM7", size: DataSizeSuffix::Unknown, base_offset: 7, rex_required: false },
        Register { lit: "XMM8", size: DataSizeSuffix::Unknown, base_offset: 8, rex_required: false },
        Register { lit: "XMM9", size: DataSizeSuffix::Unknown, base_offset: 9, rex_required: false },
        Register { lit: "XMM10", size: DataSizeSuffix::Unknown, base_offset: 10, rex_required: false },
        Register { lit: "XMM11", size: DataSizeSuffix::Unknown, base_offset: 11, rex_required: false },
        Register { lit: "XMM12", size: DataSizeSuffix::Unknown, base_offset: 12, rex_required: false },
        Register { lit: "XMM13", size: DataSizeSuffix::Unknown, base_offset: 13, rex_required: false },
        Register { lit: "XMM14", size: DataSizeSuffix::Unknown, base_offset: 14, rex_required: false },
        Register { lit: "XMM15", size: DataSizeSuffix::Unknown, base_offset: 15, rex_required: false },
    ];
    assert(table@ =~= spec_xmm_registers());
    table
}

/// The first register of a table that is called `reg_name`.
fn find_register(table: &Vec<Register>, reg_name: &str) -> (r: Option<Register>)
    ensures
        r == lookup_register(table@, reg_name@),
{
    let ghost names = table@.map_values(|r: Register| r.lit@);
    let mut i: usize = 0;
    while i < table.len()
        invariant
            i <= table.len(),
            names == table@.map_values(|r: Register| r.lit@),
            forall|j: int| 0 <= j < i ==> names[j] != reg_name@,
        decreases table.len() - i,
    {
        if str_eq(table[i].lit, reg_name) {
            proof {
                crate::text::lemma_first_index(names, reg_name@, i as int);
            }
            return Some(table[i]);
        }
        i = i + 1;
    }
    proof {
        crate::text::lemma_no_index(names, reg_name@);
    }
    None
}

/// Get(Copy) general register from the table by register name.
pub fn get_reg_info_by(reg_name: &str) -> (r: Result<Register, AsmError>)
    ensures
        match lookup_register(spec_general_registers(), reg_name@) {
            Some(reg) => r == Ok::<Register, AsmError>(reg),
            None => r == Err::<Register, AsmError>(
                AsmError { kind: ErrorKind::UnknownRegister, loc: None },
            ),
        },
{
    let table = general_registers();
    match find_register(&table, reg_name) {
        Some(v) => Ok(v),
        None => Err(AsmError::new(ErrorKind::UnknownRegister)),
    }
}

/// Get(Copy) XMM register from the table by register name.
pub fn get_xmm_by(reg_name: &str) -> (r: Result<Register, AsmError>)
    ensures
        match lookup_register(spec_xmm_registers(), reg_name@) {
            Some(reg) => r == Ok::<Register, AsmError>(reg),
            None => r == Err::<Register, AsmError>(
                AsmError { kind: ErrorKind::UnknownRegister, loc: None },
            ),
        },
{
    let table = xmm_registers();
    match find_register(&table, reg_name) {
        Some(v) => Ok(v),
        None => Err(AsmError::new(ErrorKind::UnknownRegister)),
    }
}

} // verus!
