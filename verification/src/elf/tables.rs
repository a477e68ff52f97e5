//! What the tables of an object file hold: the symbol and string
//! tables, the relocation sections, the section names and the section
//! headers, each as a function of the program it is built for.

use crate::elf::constants::{
    EHDR_SIZE, PHDR_SIZE, RELA_SIZE, SHDR_SIZE, SHF_INFO_LINK, SHT_NULL, SHT_PROGBITS, SHT_RELA,
    SHT_STRTAB, SHT_SYMTAB, SYM_SIZE,
};
use crate::elf::constants::{
    R_X86_64_16, R_X86_64_32, R_X86_64_32S, R_X86_64_64, R_X86_64_8, R_X86_64_PC32, STB_GLOBAL,
    STB_LOCAL, STT_NOTYPE, STT_SECTION,
};
use crate::elf::elf64::{Elf64Ehdr, Elf64Rela, Elf64Shdr, Elf64Sym, TABLE_LIMIT};
use crate::encoder::{section_names, symbol_names, ContextView, InstrView, RelaView, SectionView};
use crate::error::ErrorKind;
use crate::text::uppercase_of;
use vstd::prelude::*;
use vstd::utf8::encode_utf8;

verus! {

/// The symbol table under construction: row names, rows, the string
/// table and the number of local rows.
pub struct SymTables {
    pub names: Seq<Seq<char>>,
    pub rows: Seq<Elf64Sym>,
    pub strtab: Seq<u8>,
    pub locals: int,
}

/// A file header with every field zero.
pub open spec fn empty_ehdr() -> Elf64Ehdr {
    Elf64Ehdr {
        e_ident: [0u8, 0u8, 0u8, 0u8, 0u8, 0u8, 0u8, 0u8, 0u8, 0u8, 0u8, 0u8, 0u8, 0u8, 0u8, 0u8],
        e_type: 0,
        e_machine: 0,
        e_version: 0,
        e_entry: 0,
        e_phoff: 0,
        e_shoff: 0,
        e_flags: 0,
        e_ehsize: 0,
        e_phentsize: 0,
        e_phnum: 0,
        e_shentsize: 0,
        e_shnum: 0,
        e_shstrndx: 0,
    }
}

/// Whether a name in upper case starts with the local-label marker `.L`.
pub open spec fn has_local_marker(upper: Seq<char>) -> bool {
    upper.len() >= 2 && upper[0] == '.' && upper[1] == 'L'
}

/// Whether a symbol name carries the local-label marker: its upper-cased
/// form starts with `.L`.
pub open spec fn spec_is_local_label(name: Seq<char>) -> bool {
    has_local_marker(uppercase_of(name))
}

/// The names that relocations among the first `n` use and that the
/// symbol table does not define, each once, in order of first use.
pub open spec fn undefined_names(c: ContextView, n: int) -> Seq<Seq<char>>
    decreases n,
{
    if n <= 0 {
        Seq::empty()
    } else {
        let prev = undefined_names(c, n - 1);
        let name = c.relas[n - 1].uses;
        if prev.index_of_first(name) is Some || symbol_names(c.symbols).index_of_first(name)
            is Some {
            prev
        } else {
            prev.push(name)
        }
    }
}

/// The symbol table before any symbol is added: the null row alone.
pub open spec fn symtab_null() -> SymTables {
    SymTables {
        names: seq![Seq::<char>::empty()],
        rows: seq![
            Elf64Sym { st_name: 0, st_info: 0, st_other: 0, st_shndx: 0, st_value: 0, st_size: 0 },
        ],
        strtab: seq![0u8],
        locals: 1,
    }
}

/// Whether the pass for `binding` leaves a symbol out: it has another
/// binding, or it is a local label and local labels are not kept.
pub open spec fn skips_symbol(sym: InstrView, binding: u8, keep_locals: bool) -> bool {
    sym.binding != binding || (binding == STB_LOCAL && !keep_locals && spec_is_local_label(
        sym.symbol_name,
    ))
}

/// The row of a defined symbol that lives in the section with header
/// index `shndx` and whose name starts at `name_off` in the string table.
pub open spec fn symbol_row(sym: InstrView, shndx: int, name_off: int) -> Elf64Sym {
    Elf64Sym {
        st_name: if sym.symbol_type == STT_SECTION {
            0
        } else {
            name_off as u32
        },
        st_info: (sym.binding * 16 + sym.symbol_type % 16) as u8,
        st_other: sym.visibility,
        st_shndx: shndx as u16,
        st_value: sym.addr as u64,
        st_size: 0,
    }
}

/// The tables after the row of a defined symbol was appended.
pub open spec fn add_symbol(t: SymTables, sym: InstrView, shndx: int) -> SymTables {
    SymTables {
        names: t.names.push(sym.symbol_name),
        rows: t.rows.push(symbol_row(sym, shndx, t.strtab.len() as int)),
        strtab: t.strtab + encode_utf8(sym.symbol_name) + seq![0u8],
        locals: if sym.binding == STB_LOCAL {
            t.locals + 1
        } else {
            t.locals
        },
    }
}

/// The tables after the pass for `binding` has seen the first `n`
/// symbols. A symbol whose section does not exist, a section index
/// above 0xffff and a string table above `TABLE_LIMIT` end the pass.
pub open spec fn add_symbols(
    t: Result<SymTables, ErrorKind>,
    c: ContextView,
    binding: u8,
    keep_locals: bool,
    n: int,
) -> Result<SymTables, ErrorKind>
    decreases n,
{
    if n <= 0 {
        t
    } else {
        match add_symbols(t, c, binding, keep_locals, n - 1) {
            Err(e) => Err(e),
            Ok(prev) => {
                let sym = c.symbols[n - 1];
                if skips_symbol(sym, binding, keep_locals) {
                    Ok(prev)
                } else {
                    match section_names(c.sections).index_of_first(sym.section) {
                        None => Err(ErrorKind::InconsistentSymbol),
                        Some(i) => {
                            let next = add_symbol(prev, sym, i + 1);
                            if i + 1 > 0xffff || next.strtab.len() > TABLE_LIMIT {
                                Err(ErrorKind::TooLarge)
                            } else {
                                Ok(next)
                            }
                        },
                    }
                }
            },
        }
    }
}

/// The symbols among the first `n` that the pass for `binding` gives a
/// row, in the order of the symbol table: those with this binding; of
/// the local ones, where local labels are not kept, only those without
/// the local-label marker.
pub open spec fn kept_symbols(c: ContextView, binding: u8, keep_locals: bool, n: int) -> Seq<
    InstrView,
>
    decreases n,
{
    if n <= 0 {
        Seq::empty()
    } else {
        let before = kept_symbols(c, binding, keep_locals, n - 1);
        if skips_symbol(c.symbols[n - 1], binding, keep_locals) {
            before
        } else {
            before.push(c.symbols[n - 1])
        }
    }
}

/// The row that stands for a symbol defined elsewhere: no type, global
/// binding, no section, value zero.
pub open spec fn undefined_row(name_off: int) -> Elf64Sym {
    Elf64Sym {
        st_name: name_off as u32,
        st_info: (STB_GLOBAL * 16 + STT_NOTYPE % 16) as u8,
        st_other: 0,
        st_shndx: 0,
        st_value: 0,
        st_size: 0,
    }
}

/// The tables after rows for the first `n` undefined names were appended.
pub open spec fn add_undefined(
    t: Result<SymTables, ErrorKind>,
    undefined: Seq<Seq<char>>,
    n: int,
) -> Result<SymTables, ErrorKind>
    decreases n,
{
    if n <= 0 {
        t
    } else {
        match add_undefined(t, undefined, n - 1) {
            Err(e) => Err(e),
            Ok(prev) => {
                let name = undefined[n - 1];
                let next = SymTables {
                    names: prev.names.push(name),
                    rows: prev.rows.push(undefined_row(prev.strtab.len() as int)),
                    strtab: prev.strtab + encode_utf8(name) + seq![0u8],
                    locals: prev.locals,
                };
                if next.strtab.len() > TABLE_LIMIT {
                    Err(ErrorKind::TooLarge)
                } else {
                    Ok(next)
                }
            },
        }
    }
}

/// A table followed by the zero bytes that bring its length to the next
/// multiple of 16.
pub open spec fn pad16(s: Seq<u8>) -> Seq<u8> {
    s + Seq::new((crate::layout::spec_align_to(s.len(), 16) - s.len()) as nat, |i: int| 0u8)
}

/// The finished symbol and string tables: the null row, the local
/// symbols, the undefined names, the global symbols; the string table
/// padded to a multiple of 16 bytes.
pub open spec fn spec_symtab(c: ContextView, keep_locals: bool, undefined: Seq<Seq<char>>) -> Result<
    SymTables,
    ErrorKind,
> {
    let locals = add_symbols(Ok(symtab_null()), c, STB_LOCAL, keep_locals, c.symbols.len() as int);
    let with_undefined = add_undefined(locals, undefined, undefined.len() as int);
    match add_symbols(with_undefined, c, STB_GLOBAL, keep_locals, c.symbols.len() as int) {
        Err(e) => Err(e),
        Ok(t) => Ok(
            SymTables { names: t.names, rows: t.rows, strtab: pad16(t.strtab), locals: t.locals },
        ),
    }
}

/// The relocation sections under construction: the section each one
/// applies to, and its entries.
pub struct RelaTables {
    pub targets: Seq<Seq<char>>,
    pub entries: Seq<Seq<Elf64Rela>>,
}

/// The addend that a relocation type brings by itself: none for the
/// absolute types; for PC32 the distance from the end of the instruction
/// back to the relocated field; -4 for every other type.
pub open spec fn base_addend(r: RelaView) -> int {
    if r.rtype == R_X86_64_32S || r.rtype == R_X86_64_32 || r.rtype == R_X86_64_64 || r.rtype
        == R_X86_64_16 || r.rtype == R_X86_64_8 {
        0
    } else if r.rtype == R_X86_64_PC32 {
        r.offset - r.instr.code.len()
    } else {
        -4
    }
}

/// The symbol-table row that a relocation refers to, and its addend
/// before the relocation's own adjustment. Where the referenced name
/// has a row, that row is the target and the addend is the one the
/// relocation type brings. Where it has none, as a local label that was
/// left out of the table has none, the symbol is reached through the row
/// of the section it is defined in, with its address added. A name
/// without a row and without a definition has no target.
pub open spec fn rela_target(c: ContextView, names: Seq<Seq<char>>, r: RelaView) -> Option<
    (int, int),
> {
    match names.index_of_first(r.uses) {
        Some(row) => Some((row, base_addend(r))),
        None => match symbol_names(c.symbols).index_of_first(r.uses) {
            Some(k) => match names.index_of_first(c.symbols[k].section) {
                Some(row) => Some((row, base_addend(r) + c.symbols[k].addr)),
                None => None,
            },
            None => None,
        },
    }
}

/// The entry of a relocation, given the names of the symbol-table rows.
/// It fails when the relocation has no target row, and when the row
/// index, the type, the offset or the addend does not fit its field.
pub open spec fn rela_entry(c: ContextView, names: Seq<Seq<char>>, r: RelaView) -> Result<
    Elf64Rela,
    ErrorKind,
> {
    match rela_target(c, names, r) {
        None => Err(ErrorKind::InconsistentSymbol),
        Some((index, addend)) => {
            let r_offset = r.instr.addr + r.offset;
            let r_addend = addend + r.adjust;
            if index > 0xffff_ffff || r.rtype > 0xffff_ffff || r_offset > u64::MAX || r_addend
                < i64::MIN || r_addend > i64::MAX {
                Err(ErrorKind::TooLarge)
            } else {
                Ok(
                    Elf64Rela {
                        r_offset: r_offset as u64,
                        r_info: (index * 0x1_0000_0000 + r.rtype) as u64,
                        r_addend: r_addend as i64,
                    },
                )
            }
        },
    }
}

/// The tables after an entry for the section `section` was appended: to
/// that section's list if it has one, else to a new list at the end.
pub open spec fn add_rela(t: RelaTables, section: Seq<char>, entry: Elf64Rela) -> RelaTables {
    match t.targets.index_of_first(section) {
        Some(i) => RelaTables {
            targets: t.targets,
            entries: t.entries.update(i, t.entries[i].push(entry)),
        },
        None => RelaTables {
            targets: t.targets.push(section),
            entries: t.entries.push(seq![entry]),
        },
    }
}

/// The relocation sections after the first `n` relocations: every one
/// that is not marked resolved has its entry, in order, in the list of
/// the section that its instruction stands in.
pub open spec fn add_relas(c: ContextView, names: Seq<Seq<char>>, n: int) -> Result<
    RelaTables,
    ErrorKind,
>
    decreases n,
{
    if n <= 0 {
        Ok(RelaTables { targets: Seq::empty(), entries: Seq::empty() })
    } else {
        match add_relas(c, names, n - 1) {
            Err(e) => Err(e),
            Ok(prev) => {
                let r = c.relas[n - 1];
                if r.is_already_resolved {
                    Ok(prev)
                } else {
                    match rela_entry(c, names, r) {
                        Err(e) => Err(e),
                        Ok(entry) => Ok(add_rela(prev, r.instr.section, entry)),
                    }
                }
            },
        }
    }
}

/// Once the pass over the relocations has failed, it stays failed.
pub(crate) proof fn lemma_add_relas_err(c: ContextView, names: Seq<Seq<char>>, m: int, n: int)
    requires
        0 <= m <= n,
        add_relas(c, names, m) is Err,
    ensures
        add_relas(c, names, n) == add_relas(c, names, m),
    decreases n - m,
{
    if m < n {
        lemma_add_relas_err(c, names, m, n - 1);
    }
}

/// The names that stand in the section-name string table, in order: the
/// program's sections, the three tables, then the relocation sections.
pub open spec fn shstr_names(c: ContextView, targets: Seq<Seq<char>>) -> Seq<Seq<char>> {
    section_names(c.sections) + seq![".strtab"@, ".symtab"@, ".shstrtab"@] + targets.map_values(
        |t: Seq<char>| ".rela"@ + t,
    )
}

/// A string table that holds the first `n` of the names: a zero byte,
/// then each name closed by a zero byte.
pub open spec fn name_table(names: Seq<Seq<char>>, n: int) -> Seq<u8>
    decreases n,
{
    if n <= 0 {
        seq![0u8]
    } else {
        name_table(names, n - 1) + encode_utf8(names[n - 1]) + seq![0u8]
    }
}

/// The section-name string table, padded to a multiple of 16 bytes, and
/// the offset of each name in it. It fails when the table grows above
/// `TABLE_LIMIT` bytes.
pub open spec fn spec_shstrtab(c: ContextView, targets: Seq<Seq<char>>) -> Result<
    (Seq<u8>, Seq<u32>),
    ErrorKind,
> {
    let names = shstr_names(c, targets);
    let table = name_table(names, names.len() as int);
    if table.len() > TABLE_LIMIT {
        Err(ErrorKind::TooLarge)
    } else {
        Ok((pad16(table), Seq::new(names.len(), |k: int| name_table(names, k).len() as u32)))
    }
}

/// A name table only grows as names are added.
pub proof fn lemma_name_table_grows(names: Seq<Seq<char>>, m: int, n: int)
    requires
        0 <= m <= n,
    ensures
        name_table(names, m).len() <= name_table(names, n).len(),
    decreases n - m,
{
    if m < n {
        lemma_name_table_grows(names, m, n - 1);
    }
}

/// The header of the null section.
pub open spec fn null_header() -> Elf64Shdr {
    Elf64Shdr {
        sh_name: 0,
        sh_type: SHT_NULL,
        sh_flags: 0,
        sh_addr: 0,
        sh_offset: 0,
        sh_size: 0,
        sh_link: 0,
        sh_info: 0,
        sh_addralign: 0,
        sh_entsize: 0,
    }
}

/// The file header of a relocatable x86-64 object whose section header
/// table starts at `shoff` and has `shnum` entries, the last of them the
/// section-name string table.
pub open spec fn file_header(shoff: int, shnum: int) -> Elf64Ehdr {
    Elf64Ehdr {
        e_ident: [
            0x7fu8,
            0x45u8,
            0x4cu8,
            0x46u8,
            0x02u8,
            0x01u8,
            0x01u8,
            0u8,
            0u8,
            0u8,
            0u8,
            0u8,
            0u8,
            0u8,
            0u8,
            0u8,
        ],
        e_type: 1,
        e_machine: 0x3e,
        e_version: 1,
        e_entry: 0,
        e_phoff: 0,
        e_shoff: shoff as u64,
        e_flags: 0,
        e_ehsize: EHDR_SIZE as u16,
        e_phentsize: PHDR_SIZE as u16,
        e_phnum: 0,
        e_shentsize: SHDR_SIZE as u16,
        e_shnum: shnum as u16,
        e_shstrndx: (shnum - 1) as u16,
    }
}

/// What the section headers are computed from: the program's sections
/// and the sizes of the tables built before.
pub struct Parts {
    pub sections: Seq<SectionView>,
    pub strtab_len: int,
    pub rows: int,
    pub locals: int,
    pub targets: Seq<Seq<char>>,
    pub rela_lens: Seq<int>,
    pub shstrtab_len: int,
    pub name_offs: Seq<u32>,
}

impl Parts {
    /// The number of sections that have contents in the file: the
    /// program's sections, `.strtab`, `.symtab`, the relocation sections
    /// and `.shstrtab`, which is also their order in the file and in the
    /// section header table, after the null header.
    pub open spec fn count(self) -> int {
        (self.sections.len() + self.targets.len() + 3) as int
    }

    /// The size in bytes of the contents of section `k`.
    pub open spec fn size(self, k: int) -> int {
        let n = self.sections.len() as int;
        let m = self.targets.len() as int;
        if k < n {
            self.sections[k].code.len() as int
        } else if k == n {
            self.strtab_len
        } else if k == n + 1 {
            SYM_SIZE * self.rows
        } else if k < n + 2 + m {
            RELA_SIZE * self.rela_lens[k - n - 2]
        } else {
            self.shstrtab_len
        }
    }

    /// Where the contents of section `k` start in the file: the file
    /// header comes first, and the sections follow without gaps.
    pub open spec fn offset(self, k: int) -> int
        decreases k,
    {
        if k <= 0 {
            EHDR_SIZE as int
        } else {
            self.offset(k - 1) + self.size(k - 1)
        }
    }

    /// The header of section `k`. It fails when the section would end
    /// beyond the 64-bit range, and for a relocation section whose target
    /// is none of the program's sections.
    pub open spec fn header(self, k: int) -> Result<Elf64Shdr, ErrorKind> {
        let n = self.sections.len() as int;
        let m = self.targets.len() as int;
        let off = self.offset(k);
        let size = self.size(k);
        if off + size > u64::MAX {
            Err(ErrorKind::TooLarge)
        } else if k < n {
            Ok(
                Elf64Shdr {
                    sh_name: self.name_offs[k],
                    sh_type: SHT_PROGBITS,
                    sh_flags: self.sections[k].flags,
                    sh_addr: 0,
                    sh_offset: off as u64,
                    sh_size: size as u64,
                    sh_link: 0,
                    sh_info: 0,
                    sh_addralign: 1,
                    sh_entsize: 0,
                },
            )
        } else if k == n {
            Ok(
                Elf64Shdr {
                    sh_name: self.name_offs[n],
                    sh_type: SHT_STRTAB,
                    sh_flags: 0,
                    sh_addr: 0,
                    sh_offset: off as u64,
                    sh_size: size as u64,
                    sh_link: 0,
                    sh_info: 0,
                    sh_addralign: 1,
                    sh_entsize: 0,
                },
            )
        } else if k == n + 1 {
            Ok(
                Elf64Shdr {
                    sh_name: self.name_offs[n + 1],
                    sh_type: SHT_SYMTAB,
                    sh_flags: 0,
                    sh_addr: 0,
                    sh_offset: off as u64,
                    sh_size: size as u64,
                    sh_link: (n + 1) as u32,
                    sh_info: self.locals as u32,
                    sh_addralign: 8,
                    sh_entsize: SYM_SIZE as u64,
                },
            )
        } else if k < n + 2 + m {
            match section_names(self.sections).index_of_first(self.targets[k - n - 2]) {
                None => Err(ErrorKind::InconsistentSymbol),
                Some(t) => Ok(
                    Elf64Shdr {
                        sh_name: self.name_offs[k + 1],
                        sh_type: SHT_RELA,
                        sh_flags: SHF_INFO_LINK,
                        sh_addr: 0,
                        sh_offset: off as u64,
                        sh_size: size as u64,
                        sh_link: (n + 2) as u32,
                        sh_info: (t + 1) as u32,
                        sh_addralign: 8,
                        sh_entsize: RELA_SIZE as u64,
                    },
                ),
            }
        } else {
            Ok(
                Elf64Shdr {
                    sh_name: self.name_offs[n + 2],
                    sh_type: SHT_STRTAB,
                    sh_flags: 0,
                    sh_addr: 0,
                    sh_offset: off as u64,
                    sh_size: size as u64,
                    sh_link: 0,
                    sh_info: 0,
                    sh_addralign: 1,
                    sh_entsize: 0,
                },
            )
        }
    }

    /// The null header followed by the headers of the first `k` sections.
    pub open spec fn headers_upto(self, k: int) -> Result<Seq<Elf64Shdr>, ErrorKind>
        decreases k,
    {
        if k <= 0 {
            Ok(seq![null_header()])
        } else {
            match self.headers_upto(k - 1) {
                Err(e) => Err(e),
                Ok(prev) => match self.header(k - 1) {
                    Err(e) => Err(e),
                    Ok(h) => Ok(prev.push(h)),
                },
            }
        }
    }

    /// The section header table and the file header. They fail when the
    /// name offsets or the relocation lists do not match the sections in
    /// number, when there are more than 0xffff headers or 2^32 local
    /// symbols, and when a header fails.
    pub open spec fn headers(self) -> Result<(Seq<Elf64Shdr>, Elf64Ehdr), ErrorKind> {
        if self.name_offs.len() != self.count() || self.rela_lens.len() != self.targets.len() {
            Err(ErrorKind::InconsistentSymbol)
        } else if self.count() + 1 > 0xffff || self.locals > 0xffff_ffff {
            Err(ErrorKind::TooLarge)
        } else {
            match self.headers_upto(self.count()) {
                Err(e) => Err(e),
                Ok(hs) => Ok((hs, file_header(self.offset(self.count()), self.count() + 1))),
            }
        }
    }

    /// A header table that was built holds the null header and then the
    /// header of each section.
    pub proof fn lemma_headers_upto(self, k: int)
        requires
            0 <= k,
        ensures
            match self.headers_upto(k) {
                Ok(hs) => hs.len() == k + 1 && hs[0] == null_header() && forall|j: int|
                    0 <= j < k ==> self.header(j) == Ok::<Elf64Shdr, ErrorKind>(#[trigger] hs[j + 1]),
                Err(_) => true,
            },
        decreases k,
    {
        if k > 0 {
            self.lemma_headers_upto(k - 1);
        }
    }

    /// Once a header has failed, the table stays failed.
    pub proof fn lemma_headers_err(self, m: int, n: int)
        requires
            0 <= m <= n,
            self.headers_upto(m) is Err,
        ensures
            self.headers_upto(n) == self.headers_upto(m),
        decreases n - m,
    {
        if m < n {
            self.lemma_headers_err(m, n - 1);
        }
    }
}

/// The tables of an object file.
pub struct Tables {
    pub symtab: SymTables,
    pub relas: RelaTables,
    pub shstrtab: Seq<u8>,
    pub name_offs: Seq<u32>,
    pub headers: Seq<Elf64Shdr>,
    pub ehdr: Elf64Ehdr,
}

/// What the headers of a program with the given tables are computed from.
pub open spec fn parts_of(
    c: ContextView,
    symtab: SymTables,
    relas: RelaTables,
    shstrtab: Seq<u8>,
    name_offs: Seq<u32>,
) -> Parts {
    Parts {
        sections: c.sections,
        strtab_len: symtab.strtab.len() as int,
        rows: symtab.rows.len() as int,
        locals: symtab.locals,
        targets: relas.targets,
        rela_lens: relas.entries.map_values(|l: Seq<Elf64Rela>| l.len() as int),
        shstrtab_len: shstrtab.len() as int,
        name_offs,
    }
}

/// The tables of the object file for a program: the symbol and string
/// tables with a row for every undefined name, the relocation sections
/// that refer to these rows, the section names, and the headers that
/// describe them all. The first table that cannot be built decides the
/// error.
pub open spec fn spec_tables(c: ContextView, keep_locals: bool) -> Result<Tables, ErrorKind> {
    match spec_symtab(c, keep_locals, undefined_names(c, c.relas.len() as int)) {
        Err(e) => Err(e),
        Ok(symtab) => match add_relas(c, symtab.names, c.relas.len() as int) {
            Err(e) => Err(e),
            Ok(relas) => match spec_shstrtab(c, relas.targets) {
                Err(e) => Err(e),
                Ok((shstrtab, name_offs)) => match parts_of(
                    c,
                    symtab,
                    relas,
                    shstrtab,
                    name_offs,
                ).headers() {
                    Err(e) => Err(e),
                    Ok((headers, ehdr)) => Ok(
                        Tables { symtab, relas, shstrtab, name_offs, headers, ehdr },
                    ),
                },
            },
        },
    }
}

/// Once a pass over the symbols has failed, it stays failed.
pub(crate) proof fn lemma_add_symbols_err(
    t: Result<SymTables, ErrorKind>,
    c: ContextView,
    binding: u8,
    keep_locals: bool,
    m: int,
    n: int,
)
    requires
        0 <= m <= n,
        add_symbols(t, c, binding, keep_locals, m) is Err,
    ensures
        add_symbols(t, c, binding, keep_locals, n) == add_symbols(t, c, binding, keep_locals, m),
    decreases n - m,
{
    if m < n {
        lemma_add_symbols_err(t, c, binding, keep_locals, m, n - 1);
    }
}

/// Once the pass over the undefined names has failed, it stays failed.
pub(crate) proof fn lemma_add_undefined_err(
    t: Result<SymTables, ErrorKind>,
    undefined: Seq<Seq<char>>,
    m: int,
    n: int,
)
    requires
        0 <= m <= n,
        add_undefined(t, undefined, m) is Err,
    ensures
        add_undefined(t, undefined, n) == add_undefined(t, undefined, m),
    decreases n - m,
{
    if m < n {
        lemma_add_undefined_err(t, undefined, m, n - 1);
    }
}

} // verus!
