//! Target architectures.

pub mod x86_64;
