//! Address assignment and the resolution of relocations within a
//! section, together with the directives that change symbols.

use crate::elf::constants::{
    R_X86_64_PC32, SHF_ALLOC, SHF_EXECINSTR, SHF_WRITE, STB_GLOBAL, STB_LOCAL, STV_HIDDEN,
    STV_INTERNAL, STV_PROTECTED,
};
use crate::encoder::arch::x86_64::instructions::InstrKind;
use crate::encoder::{
    code_len, error_at, find_section, find_symbol, instr_views, laid_out, lemma_code_len_grows,
    list_bytes, section_names, symbol_names, Context, ContextView, Encoder,
    EncoderView, Instr, InstrView, RelaView, SectionView,
};
use crate::text::append_bytes;
use crate::error::{AsmError, ErrorKind};
use crate::layout::{le_bytes, twos_complement_32, write_u32_le};
use crate::text::chars_of;
use vstd::prelude::*;

verus! {

/// The section flag that a letter stands for.
pub open spec fn flag_bit(c: char) -> Option<u64> {
    if c == 'a' {
        Some(SHF_ALLOC)
    } else if c == 'x' {
        Some(SHF_EXECINSTR)
    } else if c == 'w' {
        Some(SHF_WRITE)
    } else {
        None
    }
}

/// The union of the flags that the first `n` letters stand for; the
/// first letter that stands for none is an error.
pub open spec fn spec_section_flags(flags: Seq<char>, n: int) -> Result<u64, ErrorKind>
    decreases n,
{
    if n <= 0 {
        Ok(0)
    } else {
        match spec_section_flags(flags, n - 1) {
            Err(e) => Err(e),
            Ok(val) => match flag_bit(flags[n - 1]) {
                Some(bit) => Ok(val | bit),
                None => Err(ErrorKind::UnknownSectionFlag(flags[n - 1])),
            },
        }
    }
}

/// Once a flag letter was refused, the flags stay refused.
proof fn lemma_section_flags_err(flags: Seq<char>, m: int, n: int)
    requires
        0 <= m <= n,
        spec_section_flags(flags, m) is Err,
    ensures
        spec_section_flags(flags, n) == spec_section_flags(flags, m),
    decreases n - m,
{
    if m < n {
        lemma_section_flags_err(flags, m, n - 1);
    }
}

/// The flag bits of a section from its flag letters: `a` allocatable,
/// `x` executable, `w` writable.
pub fn section_flags(flags: &str) -> (r: Result<u64, AsmError>)
    ensures
        match spec_section_flags(flags@, flags@.len() as int) {
            Ok(val) => r == Ok::<u64, AsmError>(val),
            Err(e) => r == Err::<u64, AsmError>(AsmError { kind: e, loc: None }),
        },
{
    let chars = chars_of(flags);
    let mut val: u64 = 0;
    let mut i: usize = 0;
    while i < chars.len()
        invariant
            i <= chars.len(),
            chars@ == flags@,
            spec_section_flags(flags@, i as int) == Ok::<u64, ErrorKind>(val),
        decreases chars.len() - i,
    {
        let c = chars[i];
        if c == 'a' {
            val = val | SHF_ALLOC;
        } else if c == 'x' {
            val = val | SHF_EXECINSTR;
        } else if c == 'w' {
            val = val | SHF_WRITE;
        } else {
            proof {
                lemma_section_flags_err(flags@, i + 1, flags@.len() as int);
            }
            return Err(AsmError::new(ErrorKind::UnknownSectionFlag(c)));
        }
        i = i + 1;
    }
    Ok(val)
}

/// The symbol table after the binding of the symbol `name` was set. It
/// fails when nothing defines the name, and when a section symbol is to
/// become global.
pub open spec fn spec_change_binding(symbols: Seq<InstrView>, name: Seq<char>, binding: u8) -> Result<
    Seq<InstrView>,
    ErrorKind,
> {
    match symbol_names(symbols).index_of_first(name) {
        None => Err(ErrorKind::UndefinedSymbol),
        Some(k) => if binding == STB_GLOBAL && symbols[k].kind == InstrKind::Section {
            Err(ErrorKind::SectionCannotBeGlobal)
        } else {
            Ok(symbols.update(k, InstrView { binding, ..symbols[k] }))
        },
    }
}

/// The symbol table after the visibility of the symbol `name` was set.
/// It fails when nothing defines the name.
pub open spec fn spec_change_visibility(
    symbols: Seq<InstrView>,
    name: Seq<char>,
    visibility: u8,
) -> Result<Seq<InstrView>, ErrorKind> {
    match symbol_names(symbols).index_of_first(name) {
        None => Err(ErrorKind::UndefinedSymbol),
        Some(k) => Ok(symbols.update(k, InstrView { visibility, ..symbols[k] })),
    }
}

/// Sets the binding of the symbol that the directive `instr` names.
/// Errors carry the directive's location.
pub fn change_symbol_binding(symbols: &mut Vec<Instr>, instr: &Instr, binding: u8) -> (r: Result<
    (),
    AsmError,
>)
    ensures
        match spec_change_binding(instr_views(old(symbols)@), instr.symbol_name@, binding) {
            Ok(s) => r is Ok && instr_views(final(symbols)@) == s,
            Err(e) => r == Err::<(), AsmError>(AsmError { kind: e, loc: Some(instr.loc) })
                && final(symbols)@ == old(symbols)@,
        },
{
    match find_symbol(symbols, &instr.symbol_name) {
        None => Err(AsmError::at(ErrorKind::UndefinedSymbol, instr.loc)),
        Some(k) => {
            if binding == STB_GLOBAL && symbols[k].kind == InstrKind::Section {
                return Err(AsmError::at(ErrorKind::SectionCannotBeGlobal, instr.loc));
            }
            symbols[k].binding = binding;
            assert(instr_views(symbols@) =~= instr_views(old(symbols)@).update(
                k as int,
                InstrView { binding, ..instr_views(old(symbols)@)[k as int] },
            ));
            Ok(())
        },
    }
}

/// Sets the visibility of the symbol that the directive `instr` names.
/// Errors carry the directive's location.
pub fn change_symbol_visibility(symbols: &mut Vec<Instr>, instr: &Instr, visibility: u8) -> (r:
    Result<(), AsmError>)
    ensures
        match spec_change_visibility(instr_views(old(symbols)@), instr.symbol_name@, visibility) {
            Ok(s) => r is Ok && instr_views(final(symbols)@) == s,
            Err(e) => r == Err::<(), AsmError>(AsmError { kind: e, loc: Some(instr.loc) })
                && final(symbols)@ == old(symbols)@,
        },
{
    match find_symbol(symbols, &instr.symbol_name) {
        None => Err(AsmError::at(ErrorKind::UndefinedSymbol, instr.loc)),
        Some(k) => {
            symbols[k].visibility = visibility;
            assert(instr_views(symbols@) =~= instr_views(old(symbols)@).update(
                k as int,
                InstrView { visibility, ..instr_views(old(symbols)@)[k as int] },
            ));
            Ok(())
        },
    }
}

/// Whether the same-section pass settles a relocation itself: its
/// symbol is defined in the section of the referring instruction and is
/// not global, and the reference is a direct jump or call or is
/// PC-relative.
pub open spec fn is_resolvable(symbols: Seq<InstrView>, r: RelaView) -> bool {
    match symbol_names(symbols).index_of_first(r.uses) {
        None => false,
        Some(k) => symbols[k].section == r.instr.section && symbols[k].binding != STB_GLOBAL && (
        r.instr.is_jmp_or_call || r.rtype == R_X86_64_PC32),
    }
}

/// The displacement that settles a relocation: from the end of the
/// referring instruction to the symbol, plus the relocation's adjustment.
pub open spec fn displacement(symbols: Seq<InstrView>, r: RelaView) -> int {
    let k = symbol_names(symbols).index_of_first(r.uses)->Some_0;
    symbols[k].addr - r.instr.addr - r.instr.code.len() + r.adjust
}

/// A byte sequence with the four bytes from `at` replaced.
pub open spec fn patch(code: Seq<u8>, at: int, bytes: Seq<u8>) -> Seq<u8> {
    code.subrange(0, at) + bytes + code.subrange(at + 4, code.len() as int)
}

/// The tables after the pass has looked at relocation `i`. A relocation
/// that it settles has its displacement written into the section, four
/// bytes in little-endian order at the relocated place, and is marked
/// resolved. It fails when that place is not inside the section, and
/// when the displacement does not fit 32 bits.
pub open spec fn resolve_one(c: ContextView, i: int) -> Result<ContextView, ErrorKind> {
    let r = c.relas[i];
    if !is_resolvable(c.symbols, r) {
        Ok(c)
    } else {
        let d = displacement(c.symbols, r);
        let at = r.instr.addr + r.offset;
        match section_names(c.sections).index_of_first(r.instr.section) {
            None => Err(ErrorKind::InconsistentSymbol),
            Some(s) => if at + 4 > c.sections[s].code.len() {
                Err(ErrorKind::InconsistentSymbol)
            } else if d < i32::MIN || d > i32::MAX {
                Err(ErrorKind::TooLarge)
            } else {
                Ok(
                    ContextView {
                        symbols: c.symbols,
                        relas: c.relas.update(i, RelaView { is_already_resolved: true, ..r }),
                        sections: c.sections.update(
                            s,
                            SectionView {
                                code: patch(
                                    c.sections[s].code,
                                    at,
                                    le_bytes(twos_complement_32(d), 4),
                                ),
                                ..c.sections[s]
                            },
                        ),
                    },
                )
            },
        }
    }
}

/// The tables after the pass has looked at the first `n` relocations.
pub open spec fn resolve_upto(c: ContextView, n: int) -> Result<ContextView, ErrorKind>
    decreases n,
{
    if n <= 0 {
        Ok(c)
    } else {
        match resolve_upto(c, n - 1) {
            Err(e) => Err(e),
            Ok(prev) => resolve_one(prev, n - 1),
        }
    }
}

/// Once the pass has failed, it stays failed.
proof fn lemma_resolve_err(c: ContextView, m: int, n: int)
    requires
        0 <= m <= n,
        resolve_upto(c, m) is Err,
    ensures
        resolve_upto(c, n) == resolve_upto(c, m),
    decreases n - m,
{
    if m < n {
        lemma_resolve_err(c, m, n - 1);
    }
}

/// Overwrites the four bytes from `at`.
fn patch_u32(code: &mut Vec<u8>, at: usize, bytes: [u8; 4])
    requires
        at + 4 <= old(code)@.len(),
    ensures
        final(code)@ == patch(old(code)@, at as int, bytes@),
{
    let len = code.len();
    assert(at + 4 <= len);
    code[at] = bytes[0];
    code[at + 1] = bytes[1];
    code[at + 2] = bytes[2];
    code[at + 3] = bytes[3];
    assert(code@ =~= patch(old(code)@, at as int, bytes@));
}

/// The same-section pass. Every pending relocation whose symbol is
/// defined in the section of the referring instruction, is not global,
/// and is referred to by a direct jump or call or PC-relatively, has its
/// displacement `symbol - instruction - length + adjustment` written
/// into the section's bytes and is marked resolved. All other
/// relocations stay as they are.
pub fn fix_same_section_relocations(ctx: &mut Context) -> (r: Result<(), AsmError>)
    ensures
        match resolve_upto(old(ctx)@, old(ctx).relas@.len() as int) {
            Ok(c) => r is Ok && final(ctx)@ == c,
            Err(e) => r == Err::<(), AsmError>(AsmError { kind: e, loc: None }),
        },
{
    let ghost start = ctx@;
    let n = ctx.relas.len();
    let mut i: usize = 0;
    while i < n
        invariant
            i <= n,
            n == ctx.relas@.len(),
            n == start.relas.len(),
            start == old(ctx)@,
            resolve_upto(start, i as int) == Ok::<ContextView, ErrorKind>(ctx@),
        decreases n - i,
    {
        let ghost before = ctx@;
        assert(before.relas[i as int] == ctx.relas@[i as int]@);
        if let Some(k) = find_symbol(&ctx.symbols, &ctx.relas[i].uses) {
            assert(before.symbols[k as int] == ctx.symbols@[k as int]@);
            let symbol = &ctx.symbols[k];
            let rela = &ctx.relas[i];
            if symbol.section == rela.instr.section && symbol.binding != STB_GLOBAL && (
            rela.instr.is_jmp_or_call || rela.rtype == R_X86_64_PC32) {
                let num: i128 = symbol.addr as i128 - rela.instr.addr as i128
                    - rela.instr.code.len() as i128 + rela.adjust as i128;
                let at: u128 = rela.instr.addr as u128 + rela.offset as u128;
                let s = match find_section(&ctx.sections, &rela.instr.section) {
                    None => {
                        proof {
                            lemma_resolve_err(start, i + 1, n as int);
                        }
                        return Err(AsmError::new(ErrorKind::InconsistentSymbol));
                    },
                    Some(s) => s,
                };
                assert(before.sections[s as int] == ctx.sections@[s as int]@);
                if at + 4 > ctx.sections[s].code.len() as u128 {
                    proof {
                        lemma_resolve_err(start, i + 1, n as int);
                    }
                    return Err(AsmError::new(ErrorKind::InconsistentSymbol));
                }
                if num < i32::MIN as i128 || num > i32::MAX as i128 {
                    proof {
                        lemma_resolve_err(start, i + 1, n as int);
                    }
                    return Err(AsmError::new(ErrorKind::TooLarge));
                }
                let word: u32 = if num < 0 {
                    (num + 0x1_0000_0000) as u32
                } else {
                    num as u32
                };
                let hex = write_u32_le(word);
                patch_u32(&mut ctx.sections[s].code, at as usize, hex);
                ctx.relas[i].is_already_resolved = true;
                assert(ctx@.relas =~= before.relas.update(
                    i as int,
                    RelaView { is_already_resolved: true, ..before.relas[i as int] },
                ));
                assert(ctx@.sections =~= before.sections.update(
                    s as int,
                    SectionView {
                        code: patch(
                            before.sections[s as int].code,
                            at as int,
                            le_bytes(twos_complement_32(num as int), 4),
                        ),
                        ..before.sections[s as int]
                    },
                ));
                assert(ctx@.symbols =~= before.symbols);
            }
        }
        i = i + 1;
    }
    Ok(())
}

/// What a directive does to the symbol table and to the flags of its
/// section. A section directive sets the flags from its flag letters;
/// `.global` and `.local` set the binding of their symbol; `.hidden`,
/// `.internal` and `.protected` set its visibility. Every other
/// instruction changes nothing. Errors carry the directive's location.
pub open spec fn apply_directive(symbols: Seq<InstrView>, flags: u64, instr: InstrView) -> Result<
    (Seq<InstrView>, u64),
    AsmError,
> {
    match instr.kind {
        InstrKind::Section => match spec_section_flags(instr.flags, instr.flags.len() as int) {
            Ok(f) => Ok((symbols, f)),
            Err(e) => Err(error_at(e, instr.loc)),
        },
        InstrKind::Global => match spec_change_binding(symbols, instr.symbol_name, STB_GLOBAL) {
            Ok(s) => Ok((s, flags)),
            Err(e) => Err(error_at(e, instr.loc)),
        },
        InstrKind::Local => match spec_change_binding(symbols, instr.symbol_name, STB_LOCAL) {
            Ok(s) => Ok((s, flags)),
            Err(e) => Err(error_at(e, instr.loc)),
        },
        InstrKind::Hidden => match spec_change_visibility(symbols, instr.symbol_name, STV_HIDDEN) {
            Ok(s) => Ok((s, flags)),
            Err(e) => Err(error_at(e, instr.loc)),
        },
        InstrKind::Internal => match spec_change_visibility(
            symbols,
            instr.symbol_name,
            STV_INTERNAL,
        ) {
            Ok(s) => Ok((s, flags)),
            Err(e) => Err(error_at(e, instr.loc)),
        },
        InstrKind::Protected => match spec_change_visibility(
            symbols,
            instr.symbol_name,
            STV_PROTECTED,
        ) {
            Ok(s) => Ok((s, flags)),
            Err(e) => Err(error_at(e, instr.loc)),
        },
        _ => Ok((symbols, flags)),
    }
}

/// The symbol table and the flags of a section after the directives
/// among the first `k` instructions of the section were applied.
pub open spec fn directives_upto(
    symbols: Seq<InstrView>,
    flags: u64,
    list: Seq<InstrView>,
    k: int,
) -> Result<(Seq<InstrView>, u64), AsmError>
    decreases k,
{
    if k <= 0 {
        Ok((symbols, flags))
    } else {
        match directives_upto(symbols, flags, list, k - 1) {
            Err(e) => Err(e),
            Ok((s, f)) => apply_directive(s, f, list[k - 1]),
        }
    }
}

/// Once a directive has failed, the section stays failed.
proof fn lemma_directives_err(
    symbols: Seq<InstrView>,
    flags: u64,
    list: Seq<InstrView>,
    m: int,
    n: int,
)
    requires
        0 <= m <= n,
        directives_upto(symbols, flags, list, m) is Err,
    ensures
        directives_upto(symbols, flags, list, n) == directives_upto(symbols, flags, list, m),
    decreases n - m,
{
    if m < n {
        lemma_directives_err(symbols, flags, list, m, n - 1);
    }
}

/// A directive changes no symbol's name.
proof fn lemma_directive_keeps_names(symbols: Seq<InstrView>, flags: u64, instr: InstrView)
    ensures
        apply_directive(symbols, flags, instr) matches Ok((s, _)) ==> symbol_names(s)
            == symbol_names(symbols),
{
    symbol_names(symbols).index_of_first_ensures(instr.symbol_name);
    if let Ok((s, _)) = apply_directive(symbols, flags, instr) {
        assert(symbol_names(s) =~= symbol_names(symbols));
    }
}

impl EncoderView {
    /// The state after section `s` was laid out: its directives were
    /// applied in order, and its bytes are those of its instructions,
    /// one after the other.
    pub open spec fn lay_out_section(self, s: int) -> Result<EncoderView, AsmError> {
        let list = self.instrs[s];
        let section = self.ctx.sections[s];
        match directives_upto(self.ctx.symbols, section.flags, list, list.len() as int) {
            Err(e) => Err(e),
            Ok((symbols, flags)) => Ok(
                EncoderView {
                    ctx: ContextView {
                        symbols,
                        sections: self.ctx.sections.update(
                            s,
                            SectionView {
                                flags,
                                code: list_bytes(list, list.len() as int),
                                ..section
                            },
                        ),
                        ..self.ctx
                    },
                    ..self
                },
            ),
        }
    }

    /// The state after the first `n` sections were laid out, in
    /// declaration order.
    pub open spec fn lay_out_upto(self, n: int) -> Result<EncoderView, AsmError>
        decreases n,
    {
        if n <= 0 {
            Ok(self)
        } else {
            match self.lay_out_upto(n - 1) {
                Err(e) => Err(e),
                Ok(prev) => prev.lay_out_section(n - 1),
            }
        }
    }

    /// The state after address assignment: every section is laid out,
    /// then the same-section pass settles the relocations it can.
    pub open spec fn assign_addresses(self) -> Result<EncoderView, AsmError> {
        match self.lay_out_upto(self.ctx.sections.len() as int) {
            Err(e) => Err(e),
            Ok(laid) => match resolve_upto(laid.ctx, laid.ctx.relas.len() as int) {
                Err(e) => Err(AsmError { kind: e, loc: None }),
                Ok(ctx) => Ok(EncoderView { ctx, ..laid }),
            },
        }
    }

    /// Once a section has failed, the layout stays failed.
    pub proof fn lemma_lay_out_err(self, m: int, n: int)
        requires
            0 <= m <= n,
            self.lay_out_upto(m) is Err,
        ensures
            self.lay_out_upto(n) == self.lay_out_upto(m),
        decreases n - m,
    {
        if m < n {
            self.lemma_lay_out_err(m, n - 1);
        }
    }
}

/// The same-section pass changes bytes inside sections and marks
/// relocations; it leaves alone the symbols, the sections' names,
/// cursors and flags, and what every relocation refers to.
pub proof fn lemma_resolve_keeps_layout(c: ContextView, n: int)
    requires
        0 <= n <= c.relas.len(),
    ensures
        resolve_upto(c, n) matches Ok(d) ==> {
            &&& d.symbols == c.symbols
            &&& d.sections.len() == c.sections.len()
            &&& d.relas.len() == c.relas.len()
            &&& section_names(d.sections) == section_names(c.sections)
            &&& forall|s: int|
                0 <= s < c.sections.len() ==> (#[trigger] d.sections[s]).addr == c.sections[s].addr
                    && d.sections[s].flags == c.sections[s].flags && d.sections[s].name
                    == c.sections[s].name && d.sections[s].code.len() == c.sections[s].code.len()
            &&& forall|i: int|
                0 <= i < c.relas.len() ==> (#[trigger] d.relas[i]).offset == c.relas[i].offset
                    && d.relas[i].instr == c.relas[i].instr && d.relas[i].uses == c.relas[i].uses
                    && d.relas[i].rtype == c.relas[i].rtype && d.relas[i].adjust
                    == c.relas[i].adjust
        },
    decreases n,
{
    if n > 0 {
        lemma_resolve_keeps_layout(c, n - 1);
        if let Ok(prev) = resolve_upto(c, n - 1) {
            if let Ok(d) = resolve_one(prev, n - 1) {
                let r = prev.relas[n - 1];
                section_names(prev.sections).index_of_first_ensures(r.instr.section);
                if is_resolvable(prev.symbols, r) {
                    crate::layout::lemma_le_bytes_len(
                        twos_complement_32(displacement(prev.symbols, r)),
                        4,
                    );
                }
                assert forall|s: int| 0 <= s < c.sections.len() implies (#[trigger] d.sections[s]).addr
                    == c.sections[s].addr && d.sections[s].flags == c.sections[s].flags
                    && d.sections[s].name == c.sections[s].name && d.sections[s].code.len()
                    == c.sections[s].code.len() by {
                    assert(prev.sections[s].addr == c.sections[s].addr);
                }
                assert forall|i: int| 0 <= i < c.relas.len() implies (#[trigger] d.relas[i]).offset
                    == c.relas[i].offset && d.relas[i].instr == c.relas[i].instr && d.relas[i].uses
                    == c.relas[i].uses && d.relas[i].rtype == c.relas[i].rtype && d.relas[i].adjust
                    == c.relas[i].adjust by {
                    assert(prev.relas[i].offset == c.relas[i].offset);
                }
                assert(section_names(d.sections) =~= section_names(prev.sections));
            }
        }
    }
}

impl Encoder {
    /// Lays out section `s`: applies its directives and builds its bytes.
    fn lay_out_section(&mut self, s: usize) -> (r: Result<(), AsmError>)
        requires
            old(self).wf(),
            s < old(self).ctx.sections@.len(),
        ensures
            match old(self)@.lay_out_section(s as int) {
                Ok(v) => r is Ok && final(self)@ == v && final(self).wf(),
                Err(e) => r == Err::<(), AsmError>(e),
            },
    {
        reveal(EncoderView::wf);
        let ghost start = self@;
        let ghost list = start.instrs[s as int];
        let ghost section = start.ctx.sections[s as int];
        assert(laid_out(list, section));
        assert(section == self.ctx.sections@[s as int]@);
        self.ctx.sections[s].code = Vec::new();
        let mut cursor: usize = 0;
        let n = self.instrs[s].len();
        let mut k: usize = 0;
        while k < n
            invariant
                k <= n,
                s < self.ctx.sections@.len(),
                self.instrs@.len() == self.ctx.sections@.len(),
                n == self.instrs@[s as int]@.len(),
                n == list.len(),
                start == old(self)@,
                start.wf(),
                list == start.instrs[s as int],
                section == start.ctx.sections[s as int],
                laid_out(list, section),
                self@.tokens == start.tokens,
                self@.token_idx == start.token_idx,
                self@.current_section_name == start.current_section_name,
                self@.instrs == start.instrs,
                self@.ctx.relas == start.ctx.relas,
                self@.ctx.sections.len() == start.ctx.sections.len(),
                forall|t: int|
                    0 <= t < start.ctx.sections.len() && t != s ==> #[trigger] self@.ctx.sections[t]
                        == start.ctx.sections[t],
                self@.ctx.sections[s as int].name == section.name,
                self@.ctx.sections[s as int].addr == section.addr,
                self@.ctx.sections[s as int].code == list_bytes(list, k as int),
                cursor == code_len(list, k as int),
                symbol_names(self@.ctx.symbols) == symbol_names(start.ctx.symbols),
                directives_upto(start.ctx.symbols, section.flags, list, k as int) == Ok::<
                    (Seq<InstrView>, u64),
                    AsmError,
                >((self@.ctx.symbols, self@.ctx.sections[s as int].flags)),
            decreases n - k,
        {
            let ghost before = self@;
            let ghost instr = list[k as int];
            assert(instr == self.instrs@[s as int]@[k as int]@);
            assert(before.ctx.sections[s as int] == self.ctx.sections@[s as int]@);
            proof {
                lemma_directive_keeps_names(
                    before.ctx.symbols,
                    before.ctx.sections[s as int].flags,
                    instr,
                );
                lemma_code_len_grows(list, k + 1, n as int);
            }
            let outcome = match self.instrs[s][k].kind {
                InstrKind::Section => match section_flags(self.instrs[s][k].flags.as_str()) {
                    Ok(flags) => {
                        self.ctx.sections[s].flags = flags;
                        Ok(())
                    },
                    Err(e) => Err(e),
                },
                InstrKind::Global => change_symbol_binding(
                    &mut self.ctx.symbols,
                    &self.instrs[s][k],
                    STB_GLOBAL,
                ),
                InstrKind::Local => change_symbol_binding(
                    &mut self.ctx.symbols,
                    &self.instrs[s][k],
                    STB_LOCAL,
                ),
                InstrKind::Hidden => change_symbol_visibility(
                    &mut self.ctx.symbols,
                    &self.instrs[s][k],
                    STV_HIDDEN,
                ),
                InstrKind::Internal => change_symbol_visibility(
                    &mut self.ctx.symbols,
                    &self.instrs[s][k],
                    STV_INTERNAL,
                ),
                InstrKind::Protected => change_symbol_visibility(
                    &mut self.ctx.symbols,
                    &self.instrs[s][k],
                    STV_PROTECTED,
                ),
                _ => Ok(()),
            };
            if let Err(e) = outcome {
                proof {
                    lemma_directives_err(start.ctx.symbols, section.flags, list, k + 1, n as int);
                }
                return Err(e.with_location(self.instrs[s][k].loc));
            }
            let ghost middle = self@;
            assert(middle.instrs =~~= start.instrs);
            assert(middle.ctx.relas =~= start.ctx.relas);

            self.instrs[s][k].addr = cursor;
            cursor = cursor + self.instrs[s][k].code.len();
            append_bytes(&mut self.ctx.sections[s].code, self.instrs[s][k].code.as_slice());
            proof {
                let after = self@;
                assert(after.instrs[s as int] =~= list);
                assert(after.instrs =~~= start.instrs);
                assert(after.ctx.relas =~= start.ctx.relas);
                assert(after.ctx.symbols =~= middle.ctx.symbols);
                assert forall|t: int|
                    0 <= t < start.ctx.sections.len() && t != s implies #[trigger] after.ctx.sections[t]
                    == start.ctx.sections[t] by {
                    assert(before.ctx.sections[t] == start.ctx.sections[t]);
                }
            }
            k = k + 1;
        }
        proof {
            let after = self@;
            let expected = start.lay_out_section(s as int)->Ok_0;
            assert(after.ctx.sections =~= expected.ctx.sections);
            assert(section_names(after.ctx.sections) =~= section_names(start.ctx.sections));
            assert forall|t: int| 0 <= t < after.instrs.len() implies laid_out(
                #[trigger] after.instrs[t],
                after.ctx.sections[t],
            ) by {
                assert(laid_out(start.instrs[t], start.ctx.sections[t]));
            }
        }
        Ok(())
    }

    /// Address assignment. Walks the sections in declaration order; in
    /// each, gives every instruction the sum of the code lengths before
    /// it as its address, joins the instructions' bytes into the
    /// section's bytes, and applies the directives on the way. Then the
    /// same-section pass settles the relocations that it can.
    pub fn assign_addresses(&mut self) -> (r: Result<(), AsmError>)
        requires
            old(self).wf(),
        ensures
            match old(self)@.assign_addresses() {
                Ok(v) => r is Ok && final(self)@ == v && final(self).wf(),
                Err(e) => r == Err::<(), AsmError>(e),
            },
    {
        reveal(EncoderView::wf);
        let ghost start = self@;
        let n = self.ctx.sections.len();
        let mut s: usize = 0;
        while s < n
            invariant
                s <= n,
                n == self.ctx.sections@.len(),
                n == start.ctx.sections.len(),
                start == old(self)@,
                self.wf(),
                start.lay_out_upto(s as int) == Ok::<EncoderView, AsmError>(self@),
            decreases n - s,
        {
            let ghost before = self@;
            assert(before.ctx.sections.len() == n);
            match self.lay_out_section(s) {
                Err(e) => {
                    proof {
                        start.lemma_lay_out_err(s + 1, n as int);
                    }
                    return Err(e);
                },
                Ok(()) => {},
            }
            assert(self@.ctx.sections.len() == before.ctx.sections.len());
            assert(self@.ctx.sections.len() == self.ctx.sections@.len());
            s = s + 1;
        }
        let ghost laid = self@;
        match fix_same_section_relocations(&mut self.ctx) {
            Err(e) => Err(e),
            Ok(()) => {
                proof {
                    lemma_resolve_keeps_layout(laid.ctx, laid.ctx.relas.len() as int);
                    let after = self@;
                    assert(after.instrs =~~= laid.instrs);
                    assert forall|t: int| 0 <= t < after.instrs.len() implies laid_out(
                        #[trigger] after.instrs[t],
                        after.ctx.sections[t],
                    ) by {
                        assert(laid_out(laid.instrs[t], laid.ctx.sections[t]));
                    }
                }
                Ok(())
            },
        }
    }
}

} // verus!
