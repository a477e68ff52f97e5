//! The ELF64 relocatable object format.

pub mod constants;
pub mod elf64;
pub mod image;
pub mod laws;
pub mod tables;
