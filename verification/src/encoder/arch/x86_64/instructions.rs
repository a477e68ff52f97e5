//! The kinds of statement the encoder knows.

use vstd::prelude::*;

verus! {

/// What an instruction record stands for: a directive, a label or a
/// machine instruction.
#[derive(Clone, Copy, Debug, PartialEq, Eq, Structural)]
pub enum InstrKind {
    /// `.section` and its shorthands: declares a section and switches to it.
    Section,
    /// `.global`: gives a symbol global binding.
    Global,
    /// `.local`: gives a symbol local binding.
    Local,
    /// `.hidden`: gives a symbol hidden visibility.
    Hidden,
    /// `.internal`: gives a symbol internal visibility.
    Internal,
    /// `.protected`: gives a symbol protected visibility.
    Protected,
    /// `name:` defines a symbol at the current address.
    Label,
    Mov,
    Lea,
    /// `movss` and `movsd`
    ScalarMov,
    Push,
    Pop,
    Call,
    Jmp,
    Ret,
    Nop,
}

impl InstrKind {
    /// Directives emit no code; they only change the symbol table.
    pub open spec fn is_directive(self) -> bool {
        self is Section || self is Global || self is Local || self is Hidden || self is Internal
            || self is Protected
    }
}

} // verus!
