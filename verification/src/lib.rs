//! Backend of a small x86-64 assembler: operand parsing, instruction
//! encoding, symbol and relocation bookkeeping, and ELF64 relocatable
//! object serialisation.
//!
//! The way from source text to an object file:
//!
//! - [`lexer`] splits the text into tokens;
//! - [`encoder`] reads statements from the tokens, encodes instructions
//!   into the sections they stand in, defines symbols and records
//!   relocations; address assignment then lays the sections out and
//!   settles the relocations that stay within a section;
//! - [`elf`] builds the tables of the object file and lays out its bytes;
//! - [`assemble`] does all of this in one call.
//!
//! Every function states what it computes over the values of its
//! arguments, and the statements are proved.

pub mod assemble;
pub mod elf;
pub mod encoder;
pub mod error;
pub mod layout;
pub mod lexer;
pub mod text;
pub mod token;
