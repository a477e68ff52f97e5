//! Statements: labels, directives and instructions, read from the
//! tokens one after the other.
//!
//! A statement is `name:`, a directive with its arguments, or a
//! mnemonic with its operands. The directives are `.section name` with
//! optional `, "flags"`, its shorthands `.text` and `.data`, and
//! `.global`, `.globl`, `.local`, `.hidden`, `.internal` and
//! `.protected` with a symbol name.

use crate::elf::constants::STT_SECTION;
use crate::encoder::arch::x86_64::instructions::InstrKind;
use crate::encoder::arch::x86_64::registers::DataSizeSuffix;
use crate::encoder::arch::x86_64::{Expr, ExprView};
use crate::encoder::encode::{
    lea_code, mov_code, pop_code, push_code, scalar_mov_code, Encoded, Reloc,
};
use crate::encoder::parser::{
    lemma_operand_advances, lemma_two_operand_advances, missing_token, parse_operand,
    parse_two_operand, spec_parse_operand, spec_parse_two_operand, unexpected_token,
};
use crate::encoder::{
    blank_instr, error_at, find_symbol, initial_state, symbol_names, Encoder, EncoderView, Instr,
    InstrView,
};
use crate::error::{AsmError, ErrorKind};
use crate::lexer::{Location, Token, TokenKind, TokenKindView};
use crate::text::str_eq;
use vstd::prelude::*;

verus! {

/// What the first word of a statement asks for.
#[derive(Clone, Copy, Debug, PartialEq, Eq)]
pub enum Mnemonic {
    /// `.section`
    Section,
    /// `.text`
    Text,
    /// `.data`
    Data,
    /// A directive that names a symbol, with the kind of its record.
    Symbol(InstrKind),
    Ret,
    Nop,
    Call,
    Jmp,
    Push,
    Pop,
    /// `mov` with the operand size of its suffix, if it has one.
    Mov(Option<DataSizeSuffix>),
    /// `lea` with the operand size of its suffix, if it has one.
    Lea(Option<DataSizeSuffix>),
    /// `movss` or `movsd`, with its precision.
    ScalarMov(DataSizeSuffix),
}

/// The meaning of the first word of a statement.
pub open spec fn mnemonic_of(name: Seq<char>) -> Option<Mnemonic> {
    if name == ".section"@ {
        Some(Mnemonic::Section)
    } else if name == ".text"@ {
        Some(Mnemonic::Text)
    } else if name == ".data"@ {
        Some(Mnemonic::Data)
    } else if name == ".global"@ || name == ".globl"@ {
        Some(Mnemonic::Symbol(InstrKind::Global))
    } else if name == ".local"@ {
        Some(Mnemonic::Symbol(InstrKind::Local))
    } else if name == ".hidden"@ {
        Some(Mnemonic::Symbol(InstrKind::Hidden))
    } else if name == ".internal"@ {
        Some(Mnemonic::Symbol(InstrKind::Internal))
    } else if name == ".protected"@ {
        Some(Mnemonic::Symbol(InstrKind::Protected))
    } else if name == "ret"@ || name == "retq"@ {
        Some(Mnemonic::Ret)
    } else if name == "nop"@ {
        Some(Mnemonic::Nop)
    } else if name == "call"@ || name == "callq"@ {
        Some(Mnemonic::Call)
    } else if name == "jmp"@ || name == "jmpq"@ {
        Some(Mnemonic::Jmp)
    } else if name == "push"@ || name == "pushq"@ {
        Some(Mnemonic::Push)
    } else if name == "pop"@ || name == "popq"@ {
        Some(Mnemonic::Pop)
    } else if name == "mov"@ {
        Some(Mnemonic::Mov(None))
    } else if name == "movb"@ {
        Some(Mnemonic::Mov(Some(DataSizeSuffix::Byte)))
    } else if name == "movw"@ {
        Some(Mnemonic::Mov(Some(DataSizeSuffix::Word)))
    } else if name == "movl"@ {
        Some(Mnemonic::Mov(Some(DataSizeSuffix::Long)))
    } else if name == "movq"@ {
        Some(Mnemonic::Mov(Some(DataSizeSuffix::Quad)))
    } else if name == "lea"@ {
        Some(Mnemonic::Lea(None))
    } else if name == "leaw"@ {
        Some(Mnemonic::Lea(Some(DataSizeSuffix::Word)))
    } else if name == "leal"@ {
        Some(Mnemonic::Lea(Some(DataSizeSuffix::Long)))
    } else if name == "leaq"@ {
        Some(Mnemonic::Lea(Some(DataSizeSuffix::Quad)))
    } else if name == "movss"@ {
        Some(Mnemonic::ScalarMov(DataSizeSuffix::Single))
    } else if name == "movsd"@ {
        Some(Mnemonic::ScalarMov(DataSizeSuffix::Double))
    } else {
        None
    }
}

/// The meaning of the first word of a statement.
pub fn mnemonic(name: &str) -> (r: Option<Mnemonic>)
    ensures
        r == mnemonic_of(name@),
{
    if str_eq(name, ".section") {
        Some(Mnemonic::Section)
    } else if str_eq(name, ".text") {
        Some(Mnemonic::Text)
    } else if str_eq(name, ".data") {
        Some(Mnemonic::Data)
    } else if str_eq(name, ".global") || str_eq(name, ".globl") {
        Some(Mnemonic::Symbol(InstrKind::Global))
    } else if str_eq(name, ".local") {
        Some(Mnemonic::Symbol(InstrKind::Local))
    } else if str_eq(name, ".hidden") {
        Some(Mnemonic::Symbol(InstrKind::Hidden))
    } else if str_eq(name, ".internal") {
        Some(Mnemonic::Symbol(InstrKind::Internal))
    } else if str_eq(name, ".protected") {
        Some(Mnemonic::Symbol(InstrKind::Protected))
    } else if str_eq(name, "ret") || str_eq(name, "retq") {
        Some(Mnemonic::Ret)
    } else if str_eq(name, "nop") {
        Some(Mnemonic::Nop)
    } else if str_eq(name, "call") || str_eq(name, "callq") {
        Some(Mnemonic::Call)
    } else if str_eq(name, "jmp") || str_eq(name, "jmpq") {
        Some(Mnemonic::Jmp)
    } else if str_eq(name, "push") || str_eq(name, "pushq") {
        Some(Mnemonic::Push)
    } else if str_eq(name, "pop") || str_eq(name, "popq") {
        Some(Mnemonic::Pop)
    } else if str_eq(name, "mov") {
        Some(Mnemonic::Mov(None))
    } else if str_eq(name, "movb") {
        Some(Mnemonic::Mov(Some(DataSizeSuffix::Byte)))
    } else if str_eq(name, "movw") {
        Some(Mnemonic::Mov(Some(DataSizeSuffix::Word)))
    } else if str_eq(name, "movl") {
        Some(Mnemonic::Mov(Some(DataSizeSuffix::Long)))
    } else if str_eq(name, "movq") {
        Some(Mnemonic::Mov(Some(DataSizeSuffix::Quad)))
    } else if str_eq(name, "lea") {
        Some(Mnemonic::Lea(None))
    } else if str_eq(name, "leaw") {
        Some(Mnemonic::Lea(Some(DataSizeSuffix::Word)))
    } else if str_eq(name, "leal") {
        Some(Mnemonic::Lea(Some(DataSizeSuffix::Long)))
    } else if str_eq(name, "leaq") {
        Some(Mnemonic::Lea(Some(DataSizeSuffix::Quad)))
    } else if str_eq(name, "movss") {
        Some(Mnemonic::ScalarMov(DataSizeSuffix::Single))
    } else if str_eq(name, "movsd") {
        Some(Mnemonic::ScalarMov(DataSizeSuffix::Double))
    } else {
        None
    }
}

/// The operand size of an instruction with two operands: that of its
/// suffix; without a suffix, that of the destination register, or else
/// of the source register.
pub open spec fn operand_size(
    suffix: Option<DataSizeSuffix>,
    src: ExprView,
    dst: ExprView,
) -> DataSizeSuffix {
    match suffix {
        Some(s) => s,
        None => match dst {
            ExprView::Register(d) => d.size,
            _ => match src {
                ExprView::Register(s) => s.size,
                _ => DataSizeSuffix::Unknown,
            },
        },
    }
}

/// The code of an instruction with two operands.
pub open spec fn two_operand_code(
    kind: InstrKind,
    size: DataSizeSuffix,
    src: ExprView,
    dst: ExprView,
) -> Result<Encoded, ErrorKind> {
    match kind {
        InstrKind::Mov => mov_code(size, src, dst),
        InstrKind::Lea => lea_code(size, src, dst),
        InstrKind::ScalarMov => scalar_mov_code(size, src, dst),
        _ => Err(ErrorKind::InvalidOperand),
    }
}

/// The record of a machine instruction: its code, and the symbol of its
/// relocation as the symbol it refers to.
pub open spec fn code_instr(kind: InstrKind, loc: Location, enc: Encoded, jump: bool) -> InstrView {
    InstrView {
        code: enc.code,
        symbol_name: match enc.reloc {
            Some(r) => r.uses,
            None => Seq::empty(),
        },
        is_jmp_or_call: jump,
        ..blank_instr(kind, loc)
    }
}

impl EncoderView {
    /// The state with the cursor into the tokens at `idx`.
    pub open spec fn advance_to(self, idx: int) -> EncoderView {
        EncoderView { token_idx: idx, ..self }
    }

    /// `name:` defines the symbol `name` at the cursor of the current
    /// section, with local binding.
    pub open spec fn label(self, name: Seq<char>, loc: Location) -> Result<EncoderView, AsmError> {
        let record = InstrView { symbol_name: name, ..blank_instr(InstrKind::Label, loc) };
        match self.emit(record) {
            Err(k) => Err(error_at(k, loc)),
            Ok(v) => Ok(v.define(self.placed(record)).advance_to(self.token_idx + 2)),
        }
    }

    /// Makes `name` the current section. The directive joins the
    /// section's instructions, so that address assignment sets the
    /// section's flags from `flags`; and the section gets its symbol,
    /// unless the name is defined already.
    pub open spec fn enter_section(
        self,
        name: Seq<char>,
        flags: Seq<char>,
        loc: Location,
        next: int,
    ) -> Result<EncoderView, AsmError> {
        let entered = EncoderView { current_section_name: name, ..self };
        let record = InstrView {
            symbol_name: name,
            flags,
            symbol_type: STT_SECTION,
            ..blank_instr(InstrKind::Section, loc)
        };
        match entered.emit(record) {
            Err(k) => Err(error_at(k, loc)),
            Ok(v) => if symbol_names(v.ctx.symbols).index_of_first(name) is Some {
                Ok(v.advance_to(next))
            } else {
                Ok(v.define(entered.placed(record)).advance_to(next))
            },
        }
    }

    /// `.section name` or `.section name, "flags"`.
    pub open spec fn section_directive(self, loc: Location) -> Result<EncoderView, AsmError> {
        let i = self.token_idx;
        if i + 1 >= self.tokens.len() {
            Err(missing_token())
        } else {
            match self.tokens[i + 1].kind {
                TokenKindView::Ident(name) => if i + 2 < self.tokens.len() && self.tokens[i
                    + 2].kind is Comma {
                    if i + 3 >= self.tokens.len() {
                        Err(missing_token())
                    } else {
                        match self.tokens[i + 3].kind {
                            TokenKindView::Token(flags) => self.enter_section(
                                name,
                                flags,
                                loc,
                                i + 4,
                            ),
                            _ => Err(unexpected_token(self.tokens, i + 3)),
                        }
                    }
                } else {
                    self.enter_section(name, Seq::empty(), loc, i + 2)
                },
                _ => Err(unexpected_token(self.tokens, i + 1)),
            }
        }
    }

    /// A directive followed by the name of the symbol it changes. It
    /// joins the instructions of the current section; address
    /// assignment applies it.
    pub open spec fn symbol_directive(self, kind: InstrKind, loc: Location) -> Result<
        EncoderView,
        AsmError,
    > {
        let i = self.token_idx;
        if i + 1 >= self.tokens.len() {
            Err(missing_token())
        } else {
            match self.tokens[i + 1].kind {
                TokenKindView::Ident(name) => match self.emit(
                    InstrView { symbol_name: name, ..blank_instr(kind, loc) },
                ) {
                    Err(k) => Err(error_at(k, loc)),
                    Ok(v) => Ok(v.advance_to(i + 2)),
                },
                _ => Err(unexpected_token(self.tokens, i + 1)),
            }
        }
    }

    /// An instruction without operands.
    pub open spec fn plain(self, kind: InstrKind, code: Seq<u8>, loc: Location) -> Result<
        EncoderView,
        AsmError,
    > {
        match self.finish(InstrView { code, ..blank_instr(kind, loc) }, None) {
            Err(e) => Err(e),
            Ok(v) => Ok(v.advance_to(self.token_idx + 1)),
        }
    }

    /// The code of an instruction with one operand.
    pub open spec fn one_operand_code(self, kind: InstrKind, operand: ExprView) -> Result<
        Encoded,
        ErrorKind,
    > {
        match kind {
            InstrKind::Push => push_code(operand),
            InstrKind::Pop => pop_code(operand),
            InstrKind::Call => self.branch_code(0xe8, 2, operand),
            InstrKind::Jmp => self.branch_code(0xe9, 4, operand),
            _ => Err(ErrorKind::InvalidOperand),
        }
    }

    /// The state after an instruction with the given code was emitted,
    /// or the error of its encoding at the instruction's location.
    pub open spec fn encoded(
        self,
        kind: InstrKind,
        loc: Location,
        code: Result<Encoded, ErrorKind>,
        jump: bool,
    ) -> Result<EncoderView, AsmError> {
        match code {
            Err(k) => Err(error_at(k, loc)),
            Ok(enc) => self.finish(code_instr(kind, loc, enc, jump), enc.reloc),
        }
    }

    /// An instruction with one operand: `push`, `pop`, `call` or `jmp`.
    /// A jump or call that does not go through a register is marked as
    /// a direct one.
    pub open spec fn one_operand(self, kind: InstrKind, loc: Location) -> Result<
        EncoderView,
        AsmError,
    > {
        match spec_parse_operand(self.tokens, self.token_idx + 1) {
            Err(e) => Err(e),
            Ok((operand, next)) => {
                let jump = (kind == InstrKind::Call || kind == InstrKind::Jmp) && !(operand
                    is Star);
                match self.encoded(kind, loc, self.one_operand_code(kind, operand), jump) {
                    Err(e) => Err(e),
                    Ok(v) => Ok(v.advance_to(next)),
                }
            },
        }
    }

    /// `mov` or `lea` with its two operands.
    pub open spec fn two_operand(
        self,
        kind: InstrKind,
        suffix: Option<DataSizeSuffix>,
        loc: Location,
    ) -> Result<EncoderView, AsmError> {
        match spec_parse_two_operand(self.tokens, self.token_idx + 1) {
            Err(e) => Err(e),
            Ok((src, dst, next)) => {
                let size = operand_size(suffix, src, dst);
                match self.encoded(kind, loc, two_operand_code(kind, size, src, dst), false) {
                    Err(e) => Err(e),
                    Ok(v) => Ok(v.advance_to(next)),
                }
            },
        }
    }

    /// The state after the statement under the cursor. A word followed
    /// by a colon is a label. Any other word must be a known directive
    /// or mnemonic.
    pub open spec fn statement(self) -> Result<EncoderView, AsmError> {
        let i = self.token_idx;
        if !(0 <= i < self.tokens.len()) {
            Err(missing_token())
        } else {
            let loc = self.tokens[i].loc;
            match self.tokens[i].kind {
                TokenKindView::Ident(name) => if i + 1 < self.tokens.len() && self.tokens[i
                    + 1].kind is Colon {
                    self.label(name, loc)
                } else {
                    match mnemonic_of(name) {
                        None => Err(error_at(ErrorKind::UnknownMnemonic, loc)),
                        Some(Mnemonic::Section) => self.section_directive(loc),
                        Some(Mnemonic::Text) => self.enter_section(".text"@, "ax"@, loc, i + 1),
                        Some(Mnemonic::Data) => self.enter_section(".data"@, "aw"@, loc, i + 1),
                        Some(Mnemonic::Symbol(kind)) => self.symbol_directive(kind, loc),
                        Some(Mnemonic::Ret) => self.plain(InstrKind::Ret, seq![0xc3u8], loc),
                        Some(Mnemonic::Nop) => self.plain(InstrKind::Nop, seq![0x90u8], loc),
                        Some(Mnemonic::Call) => self.one_operand(InstrKind::Call, loc),
                        Some(Mnemonic::Jmp) => self.one_operand(InstrKind::Jmp, loc),
                        Some(Mnemonic::Push) => self.one_operand(InstrKind::Push, loc),
                        Some(Mnemonic::Pop) => self.one_operand(InstrKind::Pop, loc),
                        Some(Mnemonic::Mov(suffix)) => self.two_operand(
                            InstrKind::Mov,
                            suffix,
                            loc,
                        ),
                        Some(Mnemonic::Lea(suffix)) => self.two_operand(
                            InstrKind::Lea,
                            suffix,
                            loc,
                        ),
                        Some(Mnemonic::ScalarMov(size)) => self.two_operand(
                            InstrKind::ScalarMov,
                            Some(size),
                            loc,
                        ),
                    }
                },
                _ => Err(unexpected_token(self.tokens, i)),
            }
        }
    }

    /// The state after all statements from the cursor to the end of the
    /// tokens, or the first error.
    pub open spec fn encode(self) -> Result<EncoderView, AsmError>
        decreases self.tokens.len() - self.token_idx,
    {
        if self.token_idx >= self.tokens.len() {
            Ok(self)
        } else {
            match self.statement() {
                Err(e) => Err(e),
                Ok(next) => if next.tokens == self.tokens && self.token_idx < next.token_idx
                    <= next.tokens.len() {
                    next.encode()
                } else {
                    Ok(next)
                },
            }
        }
    }
}

/// What kind of token stands at a place: a word, a quoted literal, a
/// colon, a comma, or something else; or nothing.
enum Shape {
    Word(String),
    Literal(String),
    Colon,
    Comma,
    Other,
    Absent,
}

impl Encoder {
    /// The shape of the token at `n`.
    fn shape_at(&self, n: usize) -> (r: Shape)
        ensures
            n >= self@.tokens.len() <==> r is Absent,
            n < self@.tokens.len() ==> match self@.tokens[n as int].kind {
                TokenKindView::Ident(name) => r matches Shape::Word(s) && s@ == name,
                TokenKindView::Token(text) => r matches Shape::Literal(s) && s@ == text,
                TokenKindView::Colon => r is Colon,
                TokenKindView::Comma => r is Comma,
                _ => r is Other,
            },
    {
        if n >= self.tokens.len() {
            return Shape::Absent;
        }
        assert(self@.tokens[n as int] == self.tokens@[n as int]@);
        match &self.tokens[n].kind {
            TokenKind::Ident(name) => Shape::Word(name.clone()),
            TokenKind::Token(text) => Shape::Literal(text.clone()),
            TokenKind::Colon => Shape::Colon,
            TokenKind::Comma => Shape::Comma,
            _ => Shape::Other,
        }
    }

    /// The error for the token at `n`, which exists.
    fn unexpected_at(&self, n: usize) -> (e: AsmError)
        requires
            n < self@.tokens.len(),
        ensures
            e == unexpected_token(self@.tokens, n as int),
    {
        assert(self@.tokens[n as int] == self.tokens@[n as int]@);
        AsmError::at(ErrorKind::UnexpectedToken, self.tokens[n].loc)
    }

    /// Encodes `name:`.
    fn label(&mut self, name: String, loc: Location) -> (r: Result<(), AsmError>)
        requires
            old(self).wf(),
            old(self).token_idx + 2 <= old(self).tokens@.len(),
        ensures
            final(self).wf(),
            match old(self)@.label(name@, loc) {
                Ok(v) => r is Ok && final(self)@ == v,
                Err(e) => r == Err::<(), AsmError>(e),
            },
    {
        let len = self.tokens.len();
        let next = self.token_idx + 2;
        self.current_instr = Instr::new(InstrKind::Label, loc);
        self.current_instr.symbol_name = name;
        self.emit()?;
        let record = self.current_instr.duplicate();
        self.define(record);
        self.set_cursor(next);
        Ok(())
    }

    /// Enters the section `name` and records the directive.
    fn enter_section(&mut self, name: String, flags: String, loc: Location, next: usize) -> (r:
        Result<(), AsmError>)
        requires
            old(self).wf(),
            next <= old(self).tokens@.len(),
        ensures
            final(self).wf(),
            match old(self)@.enter_section(name@, flags@, loc, next as int) {
                Ok(v) => r is Ok && final(self)@ == v,
                Err(e) => r == Err::<(), AsmError>(e),
            },
    {
        let ghost start = self@;
        self.set_section(name.clone());
        self.current_instr = Instr::new(InstrKind::Section, loc);
        self.current_instr.symbol_name = name;
        self.current_instr.flags = flags;
        self.current_instr.symbol_type = STT_SECTION;
        self.emit()?;
        if find_symbol(&self.ctx.symbols, &self.current_instr.symbol_name).is_none() {
            let record = self.current_instr.duplicate();
            self.define(record);
        }
        self.set_cursor(next);
        Ok(())
    }

    /// Encodes `.section name` with its optional flags.
    fn section_directive(&mut self, loc: Location) -> (r: Result<(), AsmError>)
        requires
            old(self).wf(),
            old(self).token_idx < old(self).tokens@.len(),
        ensures
            final(self).wf(),
            match old(self)@.section_directive(loc) {
                Ok(v) => r is Ok && final(self)@ == v,
                Err(e) => r == Err::<(), AsmError>(e),
            },
    {
        let i = self.token_idx;
        let len = self.tokens.len();
        match self.shape_at(i + 1) {
            Shape::Absent => Err(AsmError::new(ErrorKind::MissingToken)),
            Shape::Word(name) => {
                if i + 2 < len {
                    if let Shape::Comma = self.shape_at(i + 2) {
                        return match self.shape_at(i + 3) {
                            Shape::Absent => Err(AsmError::new(ErrorKind::MissingToken)),
                            Shape::Literal(flags) => self.enter_section(name, flags, loc, i + 4),
                            _ => Err(self.unexpected_at(i + 3)),
                        };
                    }
                }
                self.enter_section(name, String::new(), loc, i + 2)
            },
            _ => Err(self.unexpected_at(i + 1)),
        }
    }

    /// Encodes a directive that names a symbol.
    fn symbol_directive(&mut self, kind: InstrKind, loc: Location) -> (r: Result<(), AsmError>)
        requires
            old(self).wf(),
            old(self).token_idx < old(self).tokens@.len(),
        ensures
            final(self).wf(),
            match old(self)@.symbol_directive(kind, loc) {
                Ok(v) => r is Ok && final(self)@ == v,
                Err(e) => r == Err::<(), AsmError>(e),
            },
    {
        let i = self.token_idx;
        let len = self.tokens.len();
        match self.shape_at(i + 1) {
            Shape::Absent => Err(AsmError::new(ErrorKind::MissingToken)),
            Shape::Word(name) => {
                self.current_instr = Instr::new(kind, loc);
                self.current_instr.symbol_name = name;
                self.emit()?;
                self.set_cursor(i + 2);
                Ok(())
            },
            _ => Err(self.unexpected_at(i + 1)),
        }
    }

    /// Encodes an instruction without operands.
    fn plain(&mut self, kind: InstrKind, opcode: u8, loc: Location) -> (r: Result<(), AsmError>)
        requires
            old(self).wf(),
            old(self).token_idx < old(self).tokens@.len(),
        ensures
            final(self).wf(),
            match old(self)@.plain(kind, seq![opcode], loc) {
                Ok(v) => r is Ok && final(self)@ == v,
                Err(e) => r == Err::<(), AsmError>(e),
            },
    {
        let len = self.tokens.len();
        let next = self.token_idx + 1;
        self.current_instr = Instr::new(kind, loc);
        self.current_instr.code.push(opcode);
        assert(self.current_instr@.code =~= seq![opcode]);
        self.finish(None)?;
        self.set_cursor(next);
        Ok(())
    }

    /// Emits the instruction under construction, whose code `outcome`
    /// tells of, with the symbol of its relocation and the jump mark.
    fn encoded(
        &mut self,
        outcome: Result<Option<Reloc>, AsmError>,
        jump: bool,
        loc: Location,
        Ghost(code): Ghost<Result<Encoded, ErrorKind>>,
        Ghost(blank): Ghost<InstrView>,
    ) -> (r: Result<(), AsmError>)
        requires
            old(self).wf(),
            blank == blank_instr(blank.kind, loc),
            crate::encoder::encode::encoded_as(blank, old(self).current_instr@, outcome, code),
        ensures
            final(self).wf(),
            match old(self)@.encoded(blank.kind, loc, code, jump) {
                Ok(v) => r is Ok && final(self)@ == v && v.tokens == old(self)@.tokens,
                Err(e) => r == Err::<(), AsmError>(e),
            },
    {
        let reloc = match outcome {
            Ok(reloc) => reloc,
            Err(e) => {
                return Err(e.with_location(loc));
            },
        };
        if let Some(rel) = &reloc {
            self.current_instr.symbol_name = rel.uses.clone();
        }
        self.current_instr.is_jmp_or_call = jump;
        proof {
            assert(blank.code + code->Ok_0.code =~= code->Ok_0.code);
            assert(self.current_instr@ == code_instr(blank.kind, blank.loc, code->Ok_0, jump));
        }
        self.finish(reloc)
    }

    /// Encodes an instruction with the one operand `operand`.
    fn encode_one(&mut self, kind: InstrKind, operand: &Expr, loc: Location) -> (r: Result<
        (),
        AsmError,
    >)
        requires
            old(self).wf(),
        ensures
            final(self).wf(),
            match old(self)@.encoded(
                kind,
                loc,
                old(self)@.one_operand_code(kind, operand@),
                (kind == InstrKind::Call || kind == InstrKind::Jmp) && !(operand@ is Star),
            ) {
                Ok(v) => r is Ok && final(self)@ == v && v.tokens == old(self)@.tokens,
                Err(e) => r == Err::<(), AsmError>(e),
            },
    {
        self.current_instr = Instr::new(kind, loc);
        let outcome = match kind {
            InstrKind::Push => self.push(operand),
            InstrKind::Pop => self.pop(operand),
            InstrKind::Call => self.branch(0xe8, 2, operand),
            InstrKind::Jmp => self.branch(0xe9, 4, operand),
            _ => Err(AsmError::new(ErrorKind::InvalidOperand)),
        };
        let star = match operand {
            Expr::Star(_) => true,
            _ => false,
        };
        let jump = (kind == InstrKind::Call || kind == InstrKind::Jmp) && !star;
        self.encoded(
            outcome,
            jump,
            loc,
            Ghost(old(self)@.one_operand_code(kind, operand@)),
            Ghost(blank_instr(kind, loc)),
        )
    }

    /// Encodes an instruction with one operand.
    fn one_operand(&mut self, kind: InstrKind, loc: Location) -> (r: Result<(), AsmError>)
        requires
            old(self).wf(),
            old(self).token_idx < old(self).tokens@.len(),
        ensures
            final(self).wf(),
            match old(self)@.one_operand(kind, loc) {
                Ok(v) => r is Ok && final(self)@ == v,
                Err(e) => r == Err::<(), AsmError>(e),
            },
    {
        let ghost start = self@;
        let len = self.tokens.len();
        let mut index = self.token_idx + 1;
        let operand = parse_operand(&mut index, self.tokens.as_slice())?;
        proof {
            lemma_operand_advances(start.tokens, start.token_idx + 1);
        }
        self.encode_one(kind, &operand, loc)?;
        self.set_cursor(index);
        Ok(())
    }

    /// Makes `name` the current section.
    fn set_section(&mut self, name: String)
        requires
            old(self).wf(),
        ensures
            final(self).wf(),
            final(self)@ == (EncoderView { current_section_name: name@, ..old(self)@ }),
    {
        reveal(EncoderView::wf);
        self.current_section_name = name;
    }

    /// Moves the cursor into the tokens.
    fn set_cursor(&mut self, index: usize)
        requires
            old(self).wf(),
            index <= old(self)@.tokens.len(),
        ensures
            final(self).wf(),
            final(self)@ == old(self)@.advance_to(index as int),
    {
        reveal(EncoderView::wf);
        self.token_idx = index;
    }

    /// Encodes an instruction with the two operands `src` and `dst`.
    fn encode_two(
        &mut self,
        kind: InstrKind,
        size: DataSizeSuffix,
        src: &Expr,
        dst: &Expr,
        loc: Location,
    ) -> (r: Result<(), AsmError>)
        requires
            old(self).wf(),
        ensures
            final(self).wf(),
            match old(self)@.encoded(kind, loc, two_operand_code(kind, size, src@, dst@), false) {
                Ok(v) => r is Ok && final(self)@ == v && v.tokens == old(self)@.tokens,
                Err(e) => r == Err::<(), AsmError>(e),
            },
    {
        self.current_instr = Instr::new(kind, loc);
        let outcome = match kind {
            InstrKind::Mov => self.mov(size, src, dst),
            InstrKind::Lea => self.lea(size, src, dst),
            InstrKind::ScalarMov => self.scalar_mov(size, src, dst),
            _ => Err(AsmError::new(ErrorKind::InvalidOperand)),
        };
        self.encoded(
            outcome,
            false,
            loc,
            Ghost(two_operand_code(kind, size, src@, dst@)),
            Ghost(blank_instr(kind, loc)),
        )
    }

    /// Encodes `mov` or `lea` with its two operands.
    fn two_operand(&mut self, kind: InstrKind, suffix: Option<DataSizeSuffix>, loc: Location) -> (r:
        Result<(), AsmError>)
        requires
            old(self).wf(),
            old(self).token_idx < old(self).tokens@.len(),
        ensures
            final(self).wf(),
            match old(self)@.two_operand(kind, suffix, loc) {
                Ok(v) => r is Ok && final(self)@ == v,
                Err(e) => r == Err::<(), AsmError>(e),
            },
    {
        let ghost start = self@;
        let len = self.tokens.len();
        let mut index = self.token_idx + 1;
        let (src, dst) = parse_two_operand(&mut index, self.tokens.as_slice())?;
        proof {
            lemma_two_operand_advances(start.tokens, start.token_idx + 1);
        }
        let size = match suffix {
            Some(s) => s,
            None => match &dst {
                Expr::Register(d) => d.size,
                _ => match &src {
                    Expr::Register(s) => s.size,
                    _ => DataSizeSuffix::Unknown,
                },
            },
        };
        self.encode_two(kind, size, &src, &dst, loc)?;
        self.set_cursor(index);
        Ok(())
    }

    /// Encodes the statement under the cursor and moves the cursor
    /// behind it.
    pub fn statement(&mut self) -> (r: Result<(), AsmError>)
        requires
            old(self).wf(),
        ensures
            final(self).wf(),
            match old(self)@.statement() {
                Ok(v) => r is Ok && final(self)@ == v,
                Err(e) => r == Err::<(), AsmError>(e),
            },
    {
        let i = self.token_idx;
        if i >= self.tokens.len() {
            return Err(AsmError::new(ErrorKind::MissingToken));
        }
        assert(self@.tokens[i as int] == self.tokens@[i as int]@);
        let loc = self.tokens[i].loc;
        let name = match self.shape_at(i) {
            Shape::Word(name) => name,
            _ => {
                return Err(self.unexpected_at(i));
            },
        };
        if let Shape::Colon = self.shape_at(i + 1) {
            return self.label(name, loc);
        }
        match mnemonic(name.as_str()) {
            None => Err(AsmError::at(ErrorKind::UnknownMnemonic, loc)),
            Some(Mnemonic::Section) => self.section_directive(loc),
            Some(Mnemonic::Text) => self.enter_section(
                ".text".to_owned(),
                "ax".to_owned(),
                loc,
                i + 1,
            ),
            Some(Mnemonic::Data) => self.enter_section(
                ".data".to_owned(),
                "aw".to_owned(),
                loc,
                i + 1,
            ),
            Some(Mnemonic::Symbol(kind)) => self.symbol_directive(kind, loc),
            Some(Mnemonic::Ret) => self.plain(InstrKind::Ret, 0xc3, loc),
            Some(Mnemonic::Nop) => self.plain(InstrKind::Nop, 0x90, loc),
            Some(Mnemonic::Call) => self.one_operand(InstrKind::Call, loc),
            Some(Mnemonic::Jmp) => self.one_operand(InstrKind::Jmp, loc),
            Some(Mnemonic::Push) => self.one_operand(InstrKind::Push, loc),
            Some(Mnemonic::Pop) => self.one_operand(InstrKind::Pop, loc),
            Some(Mnemonic::Mov(suffix)) => self.two_operand(InstrKind::Mov, suffix, loc),
            Some(Mnemonic::Lea(suffix)) => self.two_operand(InstrKind::Lea, suffix, loc),
            Some(Mnemonic::ScalarMov(size)) => self.two_operand(
                InstrKind::ScalarMov,
                Some(size),
                loc,
            ),
        }
    }
}

impl EncoderView {
    /// A statement leaves the tokens alone and moves the cursor
    /// forward, not beyond their end.
    pub proof fn lemma_statement_advances(self)
        ensures
            self.statement() matches Ok(v) ==> v.tokens == self.tokens && self.token_idx
                < v.token_idx <= self.tokens.len(),
    {
        let i = self.token_idx;
        if 0 <= i < self.tokens.len() {
            lemma_operand_advances(self.tokens, i + 1);
            lemma_two_operand_advances(self.tokens, i + 1);
        }
    }
}

impl Encoder {
    /// Encodes all statements from the cursor to the end of the tokens.
    /// It stops at the first error.
    pub fn encode(&mut self) -> (r: Result<(), AsmError>)
        requires
            old(self).wf(),
        ensures
            final(self).wf(),
            match old(self)@.encode() {
                Ok(v) => r is Ok && final(self)@ == v,
                Err(e) => r == Err::<(), AsmError>(e),
            },
    {
        let ghost start = self@;
        while self.token_idx < self.tokens.len()
            invariant
                self.wf(),
                start == old(self)@,
                start.encode() == self@.encode(),
            decreases self@.tokens.len() - self@.token_idx,
        {
            proof {
                self@.lemma_statement_advances();
            }
            self.statement()?;
        }
        Ok(())
    }
}

/// Encodes a token sequence from its start: the encoder after all
/// statements, before address assignment.
pub fn parse(tokens: Vec<Token>) -> (r: Result<Encoder, AsmError>)
    ensures
        match initial_state(crate::lexer::token_views(tokens@)).encode() {
            Ok(v) => r is Ok && r->Ok_0@ == v && r->Ok_0.wf(),
            Err(e) => r is Err && r->Err_0 == e,
        },
{
    let mut encoder = Encoder::new(tokens);
    match encoder.encode() {
        Ok(()) => Ok(encoder),
        Err(e) => Err(e),
    }
}

} // verus!
