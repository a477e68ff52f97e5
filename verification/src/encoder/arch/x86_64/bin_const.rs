//! Fixed bytes of the x86-64 instruction encoding.

use vstd::prelude::*;

verus! {

/// Operand-size override: selects 16-bit operands.
pub const OPERAND_SIZE_PREFIX16: u8 = 0x66;

/// Mandatory prefix of scalar single-precision SIMD instructions.
pub const SCALAR_SINGLE_PREFIX: u8 = 0xf3;

/// Mandatory prefix of scalar double-precision SIMD instructions.
pub const SCALAR_DOUBLE_PREFIX: u8 = 0xf2;

/// A REX prefix with no bit set.
pub const REX_BASE: u8 = 0x40;

/// ModRM `mod` field: the operand is in memory at the address in a register.
pub const MOD_INDIRECTION_WITH_NO_DISP: u8 = 0;

/// ModRM `mod` field: memory operand with an 8-bit displacement.
pub const MOD_INDIRECTION_WITH_DISP8: u8 = 1;

/// ModRM `mod` field: memory operand with a 32-bit displacement.
pub const MOD_INDIRECTION_WITH_DISP32: u8 = 2;

/// ModRM `mod` field: the operand is the register itself.
pub const MOD_REGI: u8 = 3;

} // verus!
