//! Instruction records, relocations and sections, and the encoder that
//! produces them from tokens.

pub mod addr;
pub mod arch;
pub mod encode;
pub mod eval;
pub mod memory;
pub mod parser;
pub mod statement;

use crate::elf::constants::{STB_LOCAL, STT_NOTYPE, STV_DEFAULT};
use crate::encoder::arch::x86_64::bin_const::{
    OPERAND_SIZE_PREFIX16, SCALAR_DOUBLE_PREFIX, SCALAR_SINGLE_PREFIX,
};
use crate::encoder::arch::x86_64::instructions::InstrKind;
use crate::encoder::arch::x86_64::registers::{DataSizeSuffix, Register};
use crate::error::{AsmError, ErrorKind};
use crate::lexer::{token_views, Location, Token, TokenView};
use crate::text::{lemma_first_index, lemma_no_index};
use vstd::prelude::*;

verus! {

/// One statement of the program: a directive, a label or a machine
/// instruction, with the bytes it emits and the symbol attributes it
/// carries. The symbol table holds the record that defines each symbol.
#[derive(Clone, Debug, PartialEq, Eq)]
pub struct Instr {
    pub kind: InstrKind,
    pub code: Vec<u8>,
    /// The symbol this record defines or refers to; empty if none.
    pub symbol_name: String,
    /// The flag letters of a section directive.
    pub flags: String,
    /// Offset of the first byte within the owning section.
    pub addr: usize,
    pub binding: u8,
    /// STV_DEFAULT, STV_INTERNAL, STV_HIDDEN, STV_PROTECTED
    pub visibility: u8,
    pub symbol_type: u8,
    pub section: String,
    pub is_jmp_or_call: bool,
    pub loc: Location,
}

/// The mathematical value of an `Instr`.
pub struct InstrView {
    pub kind: InstrKind,
    pub code: Seq<u8>,
    pub symbol_name: Seq<char>,
    pub flags: Seq<char>,
    pub addr: usize,
    pub binding: u8,
    pub visibility: u8,
    pub symbol_type: u8,
    pub section: Seq<char>,
    pub is_jmp_or_call: bool,
    pub loc: Location,
}

impl View for Instr {
    type V = InstrView;

    open spec fn view(&self) -> InstrView {
        InstrView {
            kind: self.kind,
            code: self.code@,
            symbol_name: self.symbol_name@,
            flags: self.flags@,
            addr: self.addr,
            binding: self.binding,
            visibility: self.visibility,
            symbol_type: self.symbol_type,
            section: self.section@,
            is_jmp_or_call: self.is_jmp_or_call,
            loc: self.loc,
        }
    }
}

impl Instr {
    /// A copy with the same value.
    pub fn duplicate(&self) -> (r: Instr)
        ensures
            r@ == self@,
    {
        Instr {
            kind: self.kind,
            code: self.code.clone(),
            symbol_name: self.symbol_name.clone(),
            flags: self.flags.clone(),
            addr: self.addr,
            binding: self.binding,
            visibility: self.visibility,
            symbol_type: self.symbol_type,
            section: self.section.clone(),
            is_jmp_or_call: self.is_jmp_or_call,
            loc: self.loc,
        }
    }
}

/// A pending relocation: the bytes at `offset` within `instr` depend on
/// the address of the symbol `uses`.
#[derive(Clone, Debug, PartialEq, Eq)]
pub struct Rela {
    pub uses: String,
    pub instr: Instr,
    pub offset: usize,
    pub rtype: u64,
    pub adjust: i32,
    pub is_already_resolved: bool,
}

/// The mathematical value of a `Rela`.
pub struct RelaView {
    pub uses: Seq<char>,
    pub instr: InstrView,
    pub offset: usize,
    pub rtype: u64,
    pub adjust: i32,
    pub is_already_resolved: bool,
}

impl View for Rela {
    type V = RelaView;

    open spec fn view(&self) -> RelaView {
        RelaView {
            uses: self.uses@,
            instr: self.instr@,
            offset: self.offset,
            rtype: self.rtype,
            adjust: self.adjust,
            is_already_resolved: self.is_already_resolved,
        }
    }
}

/// A named section: its bytes, its address cursor and its flags.
#[derive(Clone, Debug, PartialEq, Eq)]
pub struct UserDefinedSection {
    pub name: String,
    pub code: Vec<u8>,
    pub addr: usize,
    pub flags: u64,
}

/// The mathematical value of a `UserDefinedSection`.
pub struct SectionView {
    pub name: Seq<char>,
    pub code: Seq<u8>,
    pub addr: usize,
    pub flags: u64,
}

impl View for UserDefinedSection {
    type V = SectionView;

    open spec fn view(&self) -> SectionView {
        SectionView { name: self.name@, code: self.code@, addr: self.addr, flags: self.flags }
    }
}

/// The tables of one assembly run: the symbol table, the pending
/// relocations and the sections in declaration order.
#[derive(Clone, Debug, PartialEq, Eq)]
pub struct Context {
    /// One defining record per symbol name.
    pub symbols: Vec<Instr>,
    pub relas: Vec<Rela>,
    pub sections: Vec<UserDefinedSection>,
}

/// The mathematical value of a `Context`.
pub struct ContextView {
    pub symbols: Seq<InstrView>,
    pub relas: Seq<RelaView>,
    pub sections: Seq<SectionView>,
}

impl View for Context {
    type V = ContextView;

    open spec fn view(&self) -> ContextView {
        ContextView {
            symbols: instr_views(self.symbols@),
            relas: rela_views(self.relas@),
            sections: section_views(self.sections@),
        }
    }
}

/// The names of a list of sections.
pub open spec fn section_names(sections: Seq<SectionView>) -> Seq<Seq<char>> {
    sections.map_values(|s: SectionView| s.name)
}

/// The names of a list of symbol records.
pub open spec fn symbol_names(symbols: Seq<InstrView>) -> Seq<Seq<char>> {
    symbols.map_values(|s: InstrView| s.symbol_name)
}

/// The values of a list of instruction records.
pub open spec fn instr_views(instrs: Seq<Instr>) -> Seq<InstrView> {
    instrs.map_values(|i: Instr| i@)
}

/// The values of a list of relocations.
pub open spec fn rela_views(relas: Seq<Rela>) -> Seq<RelaView> {
    relas.map_values(|r: Rela| r@)
}

/// The values of a list of sections.
pub open spec fn section_views(sections: Seq<UserDefinedSection>) -> Seq<SectionView> {
    sections.map_values(|s: UserDefinedSection| s@)
}

/// The position of the first section called `name`.
pub fn find_section(sections: &Vec<UserDefinedSection>, name: &String) -> (r: Option<usize>)
    ensures
        match r {
            Some(i) => i < sections@.len() && sections@[i as int].name@ == name@ && section_names(
                section_views(sections@),
            ).index_of_first(name@) == Some(i as int),
            None => section_names(section_views(sections@)).index_of_first(name@) is None,
        },
{
    let ghost names = section_names(section_views(sections@));
    let mut i: usize = 0;
    while i < sections.len()
        invariant
            i <= sections.len(),
            names == section_names(section_views(sections@)),
            forall|j: int| 0 <= j < i ==> names[j] != name@,
        decreases sections.len() - i,
    {
        if sections[i].name == *name {
            proof {
                lemma_first_index(names, name@, i as int);
            }
            return Some(i);
        }
        i = i + 1;
    }
    proof {
        lemma_no_index(names, name@);
    }
    None
}

/// The position of the record that defines the symbol `name`.
pub fn find_symbol(symbols: &Vec<Instr>, name: &String) -> (r: Option<usize>)
    ensures
        match r {
            Some(i) => i < symbols@.len() && symbols@[i as int].symbol_name@ == name@
                && symbol_names(instr_views(symbols@)).index_of_first(name@) == Some(i as int),
            None => symbol_names(instr_views(symbols@)).index_of_first(name@) is None,
        },
{
    let ghost names = symbol_names(instr_views(symbols@));
    let mut i: usize = 0;
    while i < symbols.len()
        invariant
            i <= symbols.len(),
            names == symbol_names(instr_views(symbols@)),
            forall|j: int| 0 <= j < i ==> names[j] != name@,
        decreases symbols.len() - i,
    {
        if symbols[i].symbol_name == *name {
            proof {
                lemma_first_index(names, name@, i as int);
            }
            return Some(i);
        }
        i = i + 1;
    }
    proof {
        lemma_no_index(names, name@);
    }
    None
}

impl Instr {
    /// A record of the given kind at `loc` with no code, no symbol, local
    /// binding, default visibility and no type, not yet in any section.
    pub fn new(kind: InstrKind, loc: Location) -> (r: Instr)
        ensures
            r@ == blank_instr(kind, loc),
    {
        Instr {
            kind,
            code: Vec::new(),
            symbol_name: String::new(),
            flags: String::new(),
            addr: 0,
            binding: STB_LOCAL,
            visibility: STV_DEFAULT,
            symbol_type: STT_NOTYPE,
            section: String::new(),
            is_jmp_or_call: false,
            loc,
        }
    }
}

/// The value of a record fresh from `Instr::new`.
pub open spec fn blank_instr(kind: InstrKind, loc: Location) -> InstrView {
    InstrView {
        kind,
        code: Seq::empty(),
        symbol_name: Seq::empty(),
        flags: Seq::empty(),
        addr: 0,
        binding: STB_LOCAL,
        visibility: STV_DEFAULT,
        symbol_type: STT_NOTYPE,
        section: Seq::empty(),
        is_jmp_or_call: false,
        loc,
    }
}

/// The number of code bytes in the first `n` instructions of a list.
pub open spec fn code_len(list: Seq<InstrView>, n: int) -> int
    decreases n,
{
    if n <= 0 {
        0
    } else {
        code_len(list, n - 1) + list[n - 1].code.len()
    }
}

/// The code bytes of the first `n` instructions of a list, in order.
pub open spec fn list_bytes(list: Seq<InstrView>, n: int) -> Seq<u8>
    decreases n,
{
    if n <= 0 {
        Seq::empty()
    } else {
        list_bytes(list, n - 1) + list[n - 1].code
    }
}

/// Whether no name occurs twice.
pub open spec fn names_distinct(names: Seq<Seq<char>>) -> bool {
    forall|i: int, j: int| 0 <= i < j < names.len() ==> names[i] != names[j]
}

/// Whether the instructions of a section are laid out one after the
/// other: each stands in this section at the address that is the sum of
/// the code lengths before it, and the section's cursor stands behind
/// the last.
pub open spec fn laid_out(list: Seq<InstrView>, section: SectionView) -> bool {
    &&& section.addr == code_len(list, list.len() as int)
    &&& forall|k: int|
        0 <= k < list.len() ==> (#[trigger] list[k]).addr == code_len(list, k) && list[k].section
            == section.name
}

/// The encoder: the tokens it reads, the section it writes to, the
/// instruction under construction, the instructions of each section in
/// the order of their emission, and the tables of the run.
#[derive(Debug)]
pub struct Encoder {
    pub tokens: Vec<Token>,
    pub token_idx: usize,
    pub current_section_name: String,
    pub current_instr: Instr,
    /// All instructions, sections, symbols, directives: one list for
    /// each section of `ctx`, in the same order.
    pub instrs: Vec<Vec<Instr>>,
    pub ctx: Context,
}

/// The mathematical value of an `Encoder`. The instruction under
/// construction is no part of it.
pub struct EncoderView {
    pub tokens: Seq<TokenView>,
    pub token_idx: int,
    pub current_section_name: Seq<char>,
    pub instrs: Seq<Seq<InstrView>>,
    pub ctx: ContextView,
}

impl View for Encoder {
    type V = EncoderView;

    open spec fn view(&self) -> EncoderView {
        EncoderView {
            tokens: token_views(self.tokens@),
            token_idx: self.token_idx as int,
            current_section_name: self.current_section_name@,
            instrs: self.instrs@.map_values(|l: Vec<Instr>| instr_views(l@)),
            ctx: self.ctx@,
        }
    }
}

impl EncoderView {
    /// The invariant of the encoder: every section has its instruction
    /// list and is laid out; no two sections and no two symbols share a
    /// name; every relocation lies within its instruction.
    #[verifier::opaque]
    pub open spec fn wf(self) -> bool {
        &&& self.instrs.len() == self.ctx.sections.len()
        &&& 0 <= self.token_idx <= self.tokens.len()
        &&& names_distinct(section_names(self.ctx.sections))
        &&& names_distinct(symbol_names(self.ctx.symbols))
        &&& forall|s: int|
            0 <= s < self.instrs.len() ==> laid_out(#[trigger] self.instrs[s], self.ctx.sections[s])
        &&& forall|i: int|
            0 <= i < self.ctx.relas.len() ==> (#[trigger] self.ctx.relas[i]).offset
                <= self.ctx.relas[i].instr.code.len()
    }

    /// The state with a section called `name`: unchanged if there is
    /// one, else with a new empty section at the end.
    pub open spec fn ensure_section(self, name: Seq<char>) -> EncoderView {
        if section_names(self.ctx.sections).index_of_first(name) is Some {
            self
        } else {
            EncoderView {
                instrs: self.instrs.push(Seq::empty()),
                ctx: ContextView {
                    sections: self.ctx.sections.push(
                        SectionView { name, code: Seq::empty(), addr: 0, flags: 0 },
                    ),
                    ..self.ctx
                },
                ..self
            }
        }
    }

    /// The cursor of the section called `name`: the address that its
    /// next instruction gets. Zero while the section does not exist.
    pub open spec fn cursor_of(self, name: Seq<char>) -> int {
        match section_names(self.ctx.sections).index_of_first(name) {
            Some(s) => self.ctx.sections[s].addr as int,
            None => 0,
        }
    }

    /// The cursor of the current section.
    pub open spec fn cursor(self) -> int {
        self.cursor_of(self.current_section_name)
    }

    /// The record that `instr` becomes when it is emitted now: it gets
    /// the current section and the cursor as its address.
    pub open spec fn placed(self, instr: InstrView) -> InstrView {
        InstrView { addr: self.cursor() as usize, section: self.current_section_name, ..instr }
    }

    /// The state after `instr` was appended to the current section,
    /// which is created if it does not exist. The cursor moves on by the
    /// length of the code. It fails when the cursor would leave the
    /// machine's address range.
    pub open spec fn emit(self, instr: InstrView) -> Result<EncoderView, ErrorKind> {
        let with = self.ensure_section(self.current_section_name);
        let s = section_names(with.ctx.sections).index_of_first(self.current_section_name)->Some_0;
        let section = with.ctx.sections[s];
        if section.addr + instr.code.len() > usize::MAX {
            Err(ErrorKind::TooLarge)
        } else {
            Ok(
                EncoderView {
                    instrs: with.instrs.update(s, with.instrs[s].push(self.placed(instr))),
                    ctx: ContextView {
                        sections: with.ctx.sections.update(
                            s,
                            SectionView {
                                addr: (section.addr + instr.code.len()) as usize,
                                ..section
                            },
                        ),
                        ..with.ctx
                    },
                    ..with
                },
            )
        }
    }

    /// The state after the symbol of `record` was defined. Its address
    /// is the cursor of its section at this moment. The record replaces
    /// the one that defined the name before, or joins the table at its
    /// end.
    pub open spec fn define(self, record: InstrView) -> EncoderView {
        let frozen = InstrView { addr: self.cursor_of(record.section) as usize, ..record };
        let symbols = match symbol_names(self.ctx.symbols).index_of_first(record.symbol_name) {
            Some(k) => self.ctx.symbols.update(k, frozen),
            None => self.ctx.symbols.push(frozen),
        };
        EncoderView { ctx: ContextView { symbols, ..self.ctx }, ..self }
    }

    /// The state after a relocation joined the pending list.
    pub open spec fn record_relocation(self, rela: RelaView) -> EncoderView {
        EncoderView { ctx: ContextView { relas: self.ctx.relas.push(rela), ..self.ctx }, ..self }
    }
}

/// The encoder's state before the first token: no sections, no symbols,
/// no relocations, and `.text` as the section to write to.
pub open spec fn initial_state(tokens: Seq<TokenView>) -> EncoderView {
    EncoderView {
        tokens,
        token_idx: 0,
        current_section_name: ".text"@,
        instrs: Seq::empty(),
        ctx: ContextView { symbols: Seq::empty(), relas: Seq::empty(), sections: Seq::empty() },
    }
}

/// The error of kind `e` at the location `loc`.
pub open spec fn error_at(e: ErrorKind, loc: Location) -> AsmError {
    AsmError { kind: e, loc: Some(loc) }
}

impl Encoder {
    /// The invariant of the encoder.
    pub open spec fn wf(&self) -> bool {
        self@.wf()
    }

    /// An encoder for `tokens`, writing to `.text`, with empty tables.
    pub fn new(tokens: Vec<Token>) -> (e: Encoder)
        ensures
            e.wf(),
            e@ == initial_state(token_views(tokens@)),
    {
        reveal(EncoderView::wf);
        let e = Encoder {
            tokens,
            token_idx: 0,
            current_section_name: ".text".to_owned(),
            current_instr: Instr::new(InstrKind::Nop, Location { line: 0, column: 0 }),
            instrs: Vec::new(),
            ctx: Context { symbols: Vec::new(), relas: Vec::new(), sections: Vec::new() },
        };
        proof {
            let v = e@;
            assert(v.instrs =~= Seq::empty());
            assert(v.ctx.symbols =~= Seq::empty());
            assert(v.ctx.relas =~= Seq::empty());
            assert(v.ctx.sections =~= Seq::empty());
        }
        e
    }

    /// The tables of the run.
    pub fn into_context(self) -> (ctx: Context)
        ensures
            ctx == self.ctx,
    {
        self.ctx
    }

    /// Makes sure that the current section exists and returns its position.
    fn ensure_section(&mut self) -> (s: usize)
        requires
            old(self).wf(),
        ensures
            final(self).wf(),
            final(self)@ == old(self)@.ensure_section(old(self)@.current_section_name),
            final(self).current_instr == old(self).current_instr,
            s < final(self).ctx.sections@.len(),
            section_names(final(self)@.ctx.sections).index_of_first(
                old(self)@.current_section_name,
            ) == Some(s as int),
    {
        reveal(EncoderView::wf);
        match find_section(&self.ctx.sections, &self.current_section_name) {
            Some(s) => s,
            None => {
                let ghost before = self@;
                let ghost name = self.current_section_name@;
                self.ctx.sections.push(
                    UserDefinedSection {
                        name: self.current_section_name.clone(),
                        code: Vec::new(),
                        addr: 0,
                        flags: 0,
                    },
                );
                self.instrs.push(Vec::new());
                proof {
                    let after = self@;
                    assert(after.instrs =~~= before.instrs.push(Seq::empty()));
                    assert(after.ctx.sections =~= before.ctx.sections.push(
                        SectionView { name, code: Seq::empty(), addr: 0, flags: 0 },
                    ));
                    assert(after.ctx.symbols =~= before.ctx.symbols);
                    assert(after.ctx.relas =~= before.ctx.relas);
                    let names = section_names(after.ctx.sections);
                    let old_names = section_names(before.ctx.sections);
                    old_names.index_of_first_ensures(name);
                    assert forall|i: int, j: int| 0 <= i < j < names.len() implies names[i]
                        != names[j] by {
                        assert(names[i] == old_names[i]);
                        if j < old_names.len() {
                            assert(names[j] == old_names[j]);
                        } else {
                            assert(old_names.contains(old_names[i]));
                        }
                    }
                    assert forall|i: int| 0 <= i < names.len() - 1 implies names[i] != name by {
                        assert(old_names.contains(old_names[i]));
                    }
                    crate::text::lemma_first_index(names, name, names.len() - 1);
                    assert forall|s: int| 0 <= s < after.instrs.len() implies laid_out(
                        #[trigger] after.instrs[s],
                        after.ctx.sections[s],
                    ) by {
                        if s < before.instrs.len() {
                            assert(after.instrs[s] == before.instrs[s]);
                            assert(after.ctx.sections[s] == before.ctx.sections[s]);
                        }
                    }
                }
                self.ctx.sections.len() - 1
            },
        }
    }

    /// Appends the instruction under construction to the current
    /// section, which is created if it does not exist yet. The
    /// instruction gets the section's cursor as its address, and the
    /// cursor moves behind it.
    pub fn emit(&mut self) -> (r: Result<(), AsmError>)
        requires
            old(self).wf(),
        ensures
            final(self).wf(),
            match old(self)@.emit(old(self).current_instr@) {
                Ok(v) => r is Ok && final(self)@ == v && final(self).current_instr@
                    == old(self)@.placed(old(self).current_instr@),
                Err(e) => r == Err::<(), AsmError>(error_at(e, old(self).current_instr.loc)),
            },
    {
        reveal(EncoderView::wf);
        let ghost start = self@;
        let ghost instr = self.current_instr@;
        let s = self.ensure_section();
        let ghost with = self@;
        let cursor = self.ctx.sections[s].addr;
        let len = self.current_instr.code.len();
        assert(with.ctx.sections[s as int] == self.ctx.sections@[s as int]@);
        if len > usize::MAX - cursor {
            return Err(AsmError::at(ErrorKind::TooLarge, self.current_instr.loc));
        }
        proof {
            section_names(start.ctx.sections).index_of_first_ensures(start.current_section_name);
            if section_names(start.ctx.sections).index_of_first(start.current_section_name)
                is Some {
                assert(start.cursor() == cursor);
            } else {
                let names = section_names(with.ctx.sections);
                let old_names = section_names(start.ctx.sections);
                assert(names =~= old_names.push(start.current_section_name));
                assert forall|i: int| 0 <= i < old_names.len() implies names[i]
                    != start.current_section_name by {
                    assert(old_names.contains(old_names[i]));
                }
                crate::text::lemma_first_index(
                    names,
                    start.current_section_name,
                    old_names.len() as int,
                );
                assert(s == start.ctx.sections.len());
                assert(cursor == 0);
            }
        }
        self.current_instr.addr = cursor;
        self.current_instr.section = self.current_section_name.clone();
        let record = self.current_instr.duplicate();
        assert(record@ == start.placed(instr));
        self.instrs[s].push(record);
        self.ctx.sections[s].addr = cursor + len;
        proof {
            let after = self@;
            let list = with.instrs[s as int];
            let rec = start.placed(instr);
            assert(after.instrs =~~= with.instrs.update(s as int, list.push(rec)));
            assert(after.ctx.sections =~= with.ctx.sections.update(
                s as int,
                SectionView { addr: (cursor + len) as usize, ..with.ctx.sections[s as int] },
            ));
            assert(after.ctx.symbols =~= with.ctx.symbols);
            assert(after.ctx.relas =~= with.ctx.relas);
            assert(section_names(after.ctx.sections) =~= section_names(with.ctx.sections));
            assert(laid_out(list, with.ctx.sections[s as int]));
            lemma_code_len_push(list, rec);
            assert forall|k: int| 0 <= k < list.len() + 1 implies (#[trigger] list.push(rec)[k]).addr
                == code_len(list.push(rec), k) && list.push(rec)[k].section
                == after.ctx.sections[s as int].name by {
                lemma_code_len_prefix(list, rec, k);
                if k < list.len() {
                    assert(list.push(rec)[k] == list[k]);
                }
            }
            assert forall|t: int| 0 <= t < after.instrs.len() implies laid_out(
                #[trigger] after.instrs[t],
                after.ctx.sections[t],
            ) by {
                if t != s {
                    assert(after.instrs[t] == with.instrs[t]);
                    assert(after.ctx.sections[t] == with.ctx.sections[t]);
                    assert(laid_out(with.instrs[t], with.ctx.sections[t]));
                }
            }
        }
        Ok(())
    }

    /// Defines the symbol that `record` names: the record becomes the
    /// symbol's entry in the symbol table, in place of an earlier entry
    /// for the same name, with the current cursor of its section as its
    /// address.
    pub fn define(&mut self, record: Instr)
        requires
            old(self).wf(),
        ensures
            final(self).wf(),
            final(self)@ == old(self)@.define(record@),
            final(self).current_instr == old(self).current_instr,
    {
        reveal(EncoderView::wf);
        let ghost before = self@;
        let ghost names = symbol_names(before.ctx.symbols);
        let mut record = record;
        let ghost given = record@;
        record.addr = match find_section(&self.ctx.sections, &record.section) {
            Some(s) => {
                assert(before.ctx.sections[s as int] == self.ctx.sections@[s as int]@);
                self.ctx.sections[s].addr
            },
            None => 0,
        };
        let ghost frozen = record@;
        assert(frozen == InstrView { addr: before.cursor_of(given.section) as usize, ..given });
        match find_symbol(&self.ctx.symbols, &record.symbol_name) {
            Some(k) => {
                self.ctx.symbols[k] = record;
                proof {
                    let after = self@;
                    assert(after.ctx.symbols =~= before.ctx.symbols.update(k as int, frozen));
                    assert(symbol_names(after.ctx.symbols) =~= names);
                }
            },
            None => {
                self.ctx.symbols.push(record);
                proof {
                    let after = self@;
                    assert(after.ctx.symbols =~= before.ctx.symbols.push(frozen));
                    let new_names = symbol_names(after.ctx.symbols);
                    names.index_of_first_ensures(frozen.symbol_name);
                    assert forall|i: int, j: int| 0 <= i < j < new_names.len() implies new_names[i]
                        != new_names[j] by {
                        assert(new_names[i] == names[i]);
                        if j < names.len() {
                            assert(new_names[j] == names[j]);
                        } else {
                            assert(names.contains(names[i]));
                        }
                    }
                }
            },
        }
        proof {
            let after = self@;
            assert(after.instrs =~~= before.instrs);
            assert(after.ctx.sections =~= before.ctx.sections);
            assert(after.ctx.relas =~= before.ctx.relas);
        }
    }

    /// Appends a relocation to the pending list.
    pub fn record_relocation(&mut self, rela: Rela)
        requires
            old(self).wf(),
            rela.offset <= rela.instr.code@.len(),
        ensures
            final(self).wf(),
            final(self)@ == old(self)@.record_relocation(rela@),
            final(self).current_instr == old(self).current_instr,
    {
        reveal(EncoderView::wf);
        let ghost before = self@;
        self.ctx.relas.push(rela);
        proof {
            let after = self@;
            assert(after.ctx.relas =~= before.ctx.relas.push(rela@));
            assert(after.instrs =~~= before.instrs);
            assert(after.ctx.sections =~= before.ctx.sections);
            assert(after.ctx.symbols =~= before.ctx.symbols);
        }
    }
}

/// The code length of a prefix does not depend on what follows it.
pub proof fn lemma_code_len_prefix(list: Seq<InstrView>, x: InstrView, k: int)
    requires
        0 <= k <= list.len(),
    ensures
        code_len(list.push(x), k) == code_len(list, k),
    decreases k,
{
    if k > 0 {
        lemma_code_len_prefix(list, x, k - 1);
        assert(list.push(x)[k - 1] == list[k - 1]);
    }
}

/// An instruction at the end adds its length to the code length.
pub proof fn lemma_code_len_push(list: Seq<InstrView>, x: InstrView)
    ensures
        code_len(list.push(x), list.len() as int + 1) == code_len(list, list.len() as int)
            + x.code.len(),
{
    lemma_code_len_prefix(list, x, list.len() as int);
    assert(list.push(x)[list.len() as int] == x);
}

/// Address monotonicity. In a section that is laid out, each
/// instruction stands at the sum of the code lengths before it, so
/// addresses never decrease along the section, and none lies beyond
/// the section's cursor.
pub proof fn lemma_addresses_monotone(list: Seq<InstrView>, section: SectionView, j: int, k: int)
    requires
        laid_out(list, section),
        0 <= j <= k < list.len(),
    ensures
        list[j].addr == code_len(list, j),
        list[k].addr == code_len(list, k),
        list[j].addr <= list[k].addr,
        list[k].addr + list[k].code.len() <= section.addr,
    decreases list.len() - j,
{
    lemma_code_len_grows(list, j, k);
    lemma_code_len_grows(list, k + 1, list.len() as int);
}

impl EncoderView {
    /// Address monotonicity. In every section of a valid encoder state,
    /// each instruction's address is the sum of the code lengths of the
    /// instructions before it in that section, so addresses never
    /// decrease along a section.
    pub proof fn lemma_addresses_are_prefix_sums(self, s: int, j: int, k: int)
        requires
            self.wf(),
            0 <= s < self.instrs.len(),
            0 <= j <= k < self.instrs[s].len(),
        ensures
            self.instrs[s][k].addr == code_len(self.instrs[s], k),
            self.instrs[s][j].addr <= self.instrs[s][k].addr,
            self.instrs[s][k].addr + self.instrs[s][k].code.len() <= self.ctx.sections[s].addr,
    {
        reveal(EncoderView::wf);
        lemma_addresses_monotone(self.instrs[s], self.ctx.sections[s], j, k);
    }
}

/// The code length of a longer prefix is no smaller.
pub proof fn lemma_code_len_grows(list: Seq<InstrView>, m: int, n: int)
    requires
        0 <= m <= n,
    ensures
        0 <= code_len(list, m) <= code_len(list, n),
    decreases n,
{
    if n > 0 {
        if m < n {
            lemma_code_len_grows(list, m, n - 1);
        } else {
            lemma_code_len_grows(list, m - 1, n - 1);
        }
    }
}

/// The value of a REX prefix with the given bits.
pub open spec fn spec_rex(w: int, r: int, x: int, b: int) -> int {
    0x40 + 8 * w + 4 * r + 2 * x + b
}

/// The 4-bit regions are called REX.w, REX.r, REX.x, and REX.b, in order from bit 3 to 0.
///
/// |7|6|5|4|  3  |  2  |  1  |  0  |
/// |-|-|-|-|-----|-----|-----|-----|
/// |0|1|0|0|REX.w|REX.r|REX.x|REX.b|
/// - REX.w - 1 = operand size to 64 bits
/// - REX.r - functions as bit 4 in the reg field of ModR/M.
/// - REX.x - Functions as bit 4 in the index field of the SIB byte.
/// - REX.b - functions as bit 4 in the r/m field of ModR/M and the base field of SIB byte.
pub fn rex(w: u8, r: u8, x: u8, b: u8) -> (v: u8)
    ensures
        v == 64u8 | (w << 3u8) | (r << 2u8) | (x << 1u8) | b,
        w <= 1 && r <= 1 && x <= 1 && b <= 1 ==> v == spec_rex(
            w as int,
            r as int,
            x as int,
            b as int,
        ),
{
    let v = 64 | (w << 3) | (r << 2) | (x << 1) | b;
    assert(w <= 1 && r <= 1 && x <= 1 && b <= 1 ==> v == 64 + 8 * w + 4 * r + 2 * x + b)
        by (bit_vector)
        requires
            v == 64u8 | (w << 3u8) | (r << 2u8) | (x << 1u8) | b,
    ;
    v
}

/// The ModRM byte: the addressing mode in the two high bits, then the
/// register or opcode extension, then the register or memory operand.
pub fn compose_mod_rm(mode: u8, reg_op: u8, rm: u8) -> (v: u8)
    requires
        mode <= 3,
        reg_op <= 7,
        rm <= 7,
    ensures
        v == mode * 64 + reg_op * 8 + rm,
{
    assert((mode << 6u8) == mode * 64 && (reg_op << 3u8) == reg_op * 8) by (bit_vector)
        requires
            mode <= 3,
            reg_op <= 7,
    ;
    (mode << 6) + (reg_op << 3) + rm
}

/// One if the condition holds, else zero.
pub open spec fn bit(b: bool) -> int {
    if b {
        1
    } else {
        0
    }
}

/// Whether an instruction needs a REX prefix: its operand size is 64
/// bits, or one of its registers has a number of 8 or more, or one of
/// them can only be encoded with the prefix.
pub open spec fn needs_rex(
    reg_r: Register,
    reg_i: Register,
    reg_b: Register,
    sizes: Seq<DataSizeSuffix>,
) -> bool {
    sizes.contains(DataSizeSuffix::Quad) || reg_r.base_offset >= 8 || reg_i.base_offset >= 8
        || reg_b.base_offset >= 8 || reg_r.rex_required || reg_i.rex_required
        || reg_b.rex_required
}

/// The REX prefix of an instruction that needs one: W for 64-bit
/// operands, R, X and B for the high bit of the register in the reg
/// field, the index field and the base or r/m field.
pub open spec fn rex_byte(
    reg_r: Register,
    reg_i: Register,
    reg_b: Register,
    sizes: Seq<DataSizeSuffix>,
) -> u8 {
    spec_rex(
        bit(sizes.contains(DataSizeSuffix::Quad)),
        bit(reg_r.base_offset >= 8),
        bit(reg_i.base_offset >= 8),
        bit(reg_b.base_offset >= 8),
    ) as u8
}

/// The prefix bytes of an instruction: 0x66 for 16-bit operands, 0xf3
/// and 0xf2 for scalar single and double precision, then the REX prefix
/// if the instruction needs one.
pub open spec fn prefix_bytes(
    reg_r: Register,
    reg_i: Register,
    reg_b: Register,
    sizes: Seq<DataSizeSuffix>,
) -> Seq<u8> {
    (if sizes.contains(DataSizeSuffix::Word) {
        seq![OPERAND_SIZE_PREFIX16]
    } else {
        Seq::empty()
    }) + (if sizes.contains(DataSizeSuffix::Single) {
        seq![SCALAR_SINGLE_PREFIX]
    } else {
        Seq::empty()
    }) + (if sizes.contains(DataSizeSuffix::Double) {
        seq![SCALAR_DOUBLE_PREFIX]
    } else {
        Seq::empty()
    }) + (if needs_rex(reg_r, reg_i, reg_b, sizes) {
        seq![rex_byte(reg_r, reg_i, reg_b, sizes)]
    } else {
        Seq::empty()
    })
}

/// Whether a byte is a REX prefix: its high half is 0100.
pub open spec fn is_rex(byte: u8) -> bool {
    byte / 16 == 4
}

/// REX necessity. The prefix bytes end in a REX prefix if and only if
/// W, R, X or B is set or a register is used that needs the prefix even
/// with a low number. No other prefix byte is a REX prefix, and the REX
/// prefix carries exactly the bits W, R, X and B.
pub proof fn lemma_rex_necessity(
    reg_r: Register,
    reg_i: Register,
    reg_b: Register,
    sizes: Seq<DataSizeSuffix>,
)
    ensures
        ({
            let p = prefix_bytes(reg_r, reg_i, reg_b, sizes);
            let w = sizes.contains(DataSizeSuffix::Quad);
            let r = reg_r.base_offset >= 8;
            let x = reg_i.base_offset >= 8;
            let b = reg_b.base_offset >= 8;
            let forced = reg_r.rex_required || reg_i.rex_required || reg_b.rex_required;
            &&& (p.len() > 0 && is_rex(p.last())) <==> (w || r || x || b || forced)
            &&& forall|i: int| 0 <= i < p.len() - 1 ==> !is_rex(#[trigger] p[i])
            &&& (w || r || x || b || forced) ==> p.last() == 0x40 + 8 * bit(w) + 4 * bit(r) + 2
                * bit(x) + bit(b)
        }),
{
    let p = prefix_bytes(reg_r, reg_i, reg_b, sizes);
    assert(!is_rex(OPERAND_SIZE_PREFIX16));
    assert(!is_rex(SCALAR_SINGLE_PREFIX));
    assert(!is_rex(SCALAR_DOUBLE_PREFIX));
    assert(is_rex(rex_byte(reg_r, reg_i, reg_b, sizes)));
}

/// Whether a list of sizes holds `size`.
fn has_size(sizes: &[DataSizeSuffix], size: DataSizeSuffix) -> (r: bool)
    ensures
        r == sizes@.contains(size),
{
    let mut i: usize = 0;
    while i < sizes.len()
        invariant
            i <= sizes.len(),
            forall|j: int| 0 <= j < i ==> sizes@[j] != size,
        decreases sizes.len() - i,
    {
        if sizes[i] == size {
            return true;
        }
        i = i + 1;
    }
    false
}

/// The prefix bytes of an instruction.
fn prefix(reg_r: Register, reg_i: Register, reg_b: Register, sizes: &[DataSizeSuffix]) -> (code:
    Vec<u8>)
    ensures
        code@ == prefix_bytes(reg_r, reg_i, reg_b, sizes@),
{
    let quad = has_size(sizes, DataSizeSuffix::Quad);
    let word = has_size(sizes, DataSizeSuffix::Word);
    let single = has_size(sizes, DataSizeSuffix::Single);
    let double = has_size(sizes, DataSizeSuffix::Double);
    let w: u8 = match quad {
        true => 1,
        false => 0,
    };
    // need rex prefix R8~ registers.
    let r: u8 = match reg_r.base_offset >= 8 {
        true => 1,
        false => 0,
    };
    let x: u8 = match reg_i.base_offset >= 8 {
        true => 1,
        false => 0,
    };
    let b: u8 = match reg_b.base_offset >= 8 {
        true => 1,
        false => 0,
    };
    let ghost for_word = if word {
        seq![OPERAND_SIZE_PREFIX16]
    } else {
        Seq::<u8>::empty()
    };
    let ghost for_single = if single {
        seq![SCALAR_SINGLE_PREFIX]
    } else {
        Seq::<u8>::empty()
    };
    let ghost for_double = if double {
        seq![SCALAR_DOUBLE_PREFIX]
    } else {
        Seq::<u8>::empty()
    };
    let mut code: Vec<u8> = Vec::new();
    if word {
        code.push(OPERAND_SIZE_PREFIX16);
    };
    assert(code@ =~= for_word);
    if single {
        code.push(SCALAR_SINGLE_PREFIX);
    };
    assert(code@ =~= for_word + for_single);
    if double {
        code.push(SCALAR_DOUBLE_PREFIX);
    }
    assert(code@ =~= for_word + for_single + for_double);
    let ghost before = code@;
    if w != 0 || r != 0 || b != 0 || x != 0 || reg_r.rex_required || reg_i.rex_required
        || reg_b.rex_required {
        let byte = rex(w, r, x, b);
        code.push(byte);
        assert(code@ =~= before + seq![rex_byte(reg_r, reg_i, reg_b, sizes@)]);
    } else {
        assert(code@ =~= before + Seq::<u8>::empty());
    }
    code
}

impl Encoder {
    /// Appends the prefix bytes of an instruction to the instruction
    /// under construction: the register in the reg field, the index
    /// register, the register in the base or r/m field, and the operand
    /// sizes decide them.
    pub fn add_prefix(
        &mut self,
        reg_r: Register,
        reg_i: Register,
        reg_b: Register,
        sizes: &[DataSizeSuffix],
    )
        ensures
            final(self)@ == old(self)@,
            final(self).current_instr@ == (InstrView {
                code: old(self).current_instr@.code + prefix_bytes(reg_r, reg_i, reg_b, sizes@),
                ..old(self).current_instr@
            }),
    {
        let bytes = prefix(reg_r, reg_i, reg_b, sizes);
        crate::text::append_bytes(&mut self.current_instr.code, bytes.as_slice());
    }
}

} // verus!
